//! What holds of every parse and of every rendering.

use crate::generator::{description_cell, details_row, rendered};
use crate::lines::lines_of;
use crate::model::{unique_names, CategoryView, CommandView, MakefileDoc};
use crate::parser::{
    classify, lemma_position_of, lemma_position_of_is, nonblank_lines, parsed, position_of, run,
    step, with_command, ContextView, Line, ParserState,
};
use crate::text::is_blank;
use vstd::prelude::*;

verus! {

/// A text whose lines are all blank describes a document without categories.
pub proof fn lemma_blank_lines_give_no_category(content: Seq<char>)
    requires
        forall|i: int| 0 <= i < lines_of(content).len() ==> is_blank(#[trigger] lines_of(content)[i]),
    ensures
        parsed(content).categories.len() == 0,
{
    lines_of(content).lemma_all_neg_filter_empty(|l: Seq<char>| !is_blank(l));
}

/// Running lines one part after the other is running them all.
pub proof fn lemma_run_in_parts(st: ParserState, first: Seq<Seq<char>>, second: Seq<Seq<char>>)
    ensures
        run(st, first + second) == run(run(st, first), second),
    decreases second.len(),
{
    if second.len() == 0 {
        assert(first + second =~= first);
    } else {
        lemma_run_in_parts(st, first, second.drop_last());
        assert((first + second).drop_last() =~= first + second.drop_last());
    }
}

/// Whether an annotation block may begin after `earlier`: nothing stands
/// before it, or a target declaration has just closed the block before it.
pub open spec fn block_may_begin(earlier: Seq<Seq<char>>) -> bool {
    earlier.len() == 0 || classify(earlier.last()) is Target
}

/// Where a block begins, the three buffers are empty.
pub proof fn lemma_block_begins_empty(earlier: Seq<Seq<char>>)
    requires
        block_may_begin(earlier),
    ensures
        run(ParserState::initial(), earlier).context.buffer_desc.len() == 0,
        run(ParserState::initial(), earlier).context.buffer_deps.len() == 0,
        run(ParserState::initial(), earlier).context.buffer_envs.len() == 0,
{
}

/// A target with no description before it is passed over: from a state
/// whose description is empty, lines of which none is a description tag add
/// no command, whatever else they hold.
pub proof fn lemma_no_description_no_command(st: ParserState, lines: Seq<Seq<char>>)
    requires
        st.context.buffer_desc.len() == 0,
        forall|i: int| 0 <= i < lines.len() ==> !(#[trigger] classify(lines[i]) is Description),
    ensures
        run(st, lines).categories == st.categories,
        run(st, lines).context.buffer_desc.len() == 0,
    decreases lines.len(),
{
    if lines.len() > 0 {
        lemma_no_description_no_command(st, lines.drop_last());
    }
}

/// A block without a description tag gives no command: the categories
/// after the block and its target are the categories before the block.
pub proof fn lemma_block_without_description(
    earlier: Seq<Seq<char>>,
    block: Seq<Seq<char>>,
    target: Seq<char>,
)
    requires
        block_may_begin(earlier),
        forall|i: int| 0 <= i < block.len() ==> !(#[trigger] classify(block[i]) is Description),
        classify(target) is Target,
    ensures
        run(ParserState::initial(), earlier + block.push(target)).categories == run(
            ParserState::initial(),
            earlier,
        ).categories,
{
    let st = run(ParserState::initial(), earlier);
    lemma_block_begins_empty(earlier);
    lemma_run_in_parts(ParserState::initial(), earlier, block.push(target));
    lemma_no_description_no_command(st, block.push(target));
}

/// A text of which no line is a description tag describes a document
/// without categories.
pub proof fn lemma_no_description_no_category(content: Seq<char>)
    requires
        forall|i: int|
            0 <= i < lines_of(content).len() ==> !(#[trigger] classify(lines_of(content)[i])
                is Description),
    ensures
        parsed(content).categories.len() == 0,
{
    let kept = nonblank_lines(content);
    assert forall|i: int| 0 <= i < kept.len() implies !(#[trigger] classify(kept[i])
        is Description) by {
        lines_of(content).lemma_filter_contains_rev(|l: Seq<char>| !is_blank(l), kept[i]);
    }
    lemma_no_description_no_command(ParserState::initial(), kept);
}

/// The commands of the first category named `name`; none where there is no
/// such category.
pub open spec fn commands_in(categories: Seq<CategoryView>, name: Seq<char>) -> Seq<CommandView> {
    let i = position_of(categories, name) as int;
    if i < categories.len() {
        categories[i].commands
    } else {
        Seq::empty()
    }
}

/// The names of `categories`, in order.
pub open spec fn names_of(categories: Seq<CategoryView>) -> Seq<Seq<char>> {
    Seq::new(categories.len(), |i: int| categories[i].name)
}

/// A command joins its category at the end, whether or not the category
/// was there before: the commands of that category grow by the command, the
/// commands of every other category stay, and the names of the categories
/// grow by the category's name only if it is new.
pub proof fn lemma_with_command_merges(
    categories: Seq<CategoryView>,
    name: Seq<char>,
    command: CommandView,
    other: Seq<char>,
)
    ensures
        commands_in(with_command(categories, name, command), name) == commands_in(
            categories,
            name,
        ).push(command),
        other != name ==> commands_in(with_command(categories, name, command), other)
            == commands_in(categories, other),
        names_of(with_command(categories, name, command)) == if names_of(categories).contains(
            name,
        ) {
            names_of(categories)
        } else {
            names_of(categories).push(name)
        },
{
    let after = with_command(categories, name, command);
    let i = position_of(categories, name) as int;
    lemma_position_of(categories, name);
    lemma_position_of(categories, other);
    if i < categories.len() {
        assert(names_of(categories)[i] == name);
        lemma_position_of_is(after, name, i);
        if other != name {
            let k = position_of(categories, other) as int;
            lemma_position_of_is(after, other, k);
        }
    } else {
        lemma_position_of_is(after, name, i);
        if other != name {
            let k = position_of(categories, other) as int;
            if k < categories.len() {
                lemma_position_of_is(after, other, k);
            } else {
                lemma_position_of_is(after, other, k + 1);
            }
        }
    }
}

/// A command that joins a category leaves the names of the categories distinct.
pub proof fn lemma_with_command_keeps_names_unique(
    categories: Seq<CategoryView>,
    name: Seq<char>,
    command: CommandView,
)
    requires
        unique_names(categories),
    ensures
        unique_names(with_command(categories, name, command)),
{
    lemma_position_of(categories, name);
}

/// No line makes two categories share a name.
pub proof fn lemma_step_keeps_names_unique(st: ParserState, line: Seq<char>)
    requires
        unique_names(st.categories),
    ensures
        unique_names(step(st, line).categories),
{
    match classify(line) {
        Line::Target(name) => {
            lemma_with_command_keeps_names_unique(
                st.categories,
                st.context.current_category,
                st.context.command(name),
            );
        },
        _ => {},
    }
}

/// Lines leave the names of the categories distinct.
pub proof fn lemma_run_keeps_names_unique(st: ParserState, lines: Seq<Seq<char>>)
    requires
        unique_names(st.categories),
    ensures
        unique_names(run(st, lines).categories),
    decreases lines.len(),
{
    if lines.len() > 0 {
        lemma_run_keeps_names_unique(st, lines.drop_last());
        lemma_step_keeps_names_unique(run(st, lines.drop_last()), lines.last());
    }
}

/// Every text describes a document in which each category name occurs
/// once, however often and wherever the text names that category.
pub proof fn lemma_parsed_is_well_formed(content: Seq<char>)
    ensures
        parsed(content).well_formed(),
{
    lemma_run_keeps_names_unique(ParserState::initial(), nonblank_lines(content));
}

/// Whether every command of `categories` has a description.
pub open spec fn all_described(categories: Seq<CategoryView>) -> bool {
    forall|i: int, j: int|
        0 <= i < categories.len() && 0 <= j < categories[i].commands.len() ==> (
        #[trigger] categories[i].commands[j]).description.len() > 0
}

/// Lines add no command without a description.
pub proof fn lemma_run_keeps_commands_described(st: ParserState, lines: Seq<Seq<char>>)
    requires
        all_described(st.categories),
    ensures
        all_described(run(st, lines).categories),
    decreases lines.len(),
{
    if lines.len() > 0 {
        lemma_run_keeps_commands_described(st, lines.drop_last());
    }
}

/// Every command of a parsed document has a description.
pub proof fn lemma_parsed_commands_are_described(content: Seq<char>)
    ensures
        all_described(parsed(content).categories),
{
    lemma_run_keeps_commands_described(ParserState::initial(), nonblank_lines(content));
}

/// While no dependency tag and no environment tag is seen, the two lists
/// stay empty.
pub proof fn lemma_lists_stay_empty(st: ParserState, lines: Seq<Seq<char>>)
    requires
        st.context.buffer_deps.len() == 0,
        st.context.buffer_envs.len() == 0,
        forall|i: int|
            0 <= i < lines.len() ==> !(#[trigger] classify(lines[i]) is Depends) && !(classify(
                lines[i],
            ) is Env),
    ensures
        run(st, lines).context.buffer_deps.len() == 0,
        run(st, lines).context.buffer_envs.len() == 0,
    decreases lines.len(),
{
    if lines.len() > 0 {
        lemma_lists_stay_empty(st, lines.drop_last());
    }
}

/// A target with a description, and with neither a dependency tag nor an
/// environment tag in the lines before it, gets a command with two empty
/// lists, and the command's row in the details table shows `-` for both.
pub proof fn lemma_target_without_lists(st: ParserState, block: Seq<Seq<char>>, target: Seq<char>)
    requires
        st.context.buffer_deps.len() == 0,
        st.context.buffer_envs.len() == 0,
        forall|i: int|
            0 <= i < block.len() ==> !(#[trigger] classify(block[i]) is Depends) && !(classify(
                block[i],
            ) is Env),
        classify(target) is Target,
        run(st, block).context.buffer_desc.len() > 0,
    ensures
        ({
            let before = run(st, block);
            let command = CommandView {
                name: classify(target)->Target_0,
                description: before.context.buffer_desc,
                dependencies: Seq::empty(),
                env: Seq::empty(),
            };
            &&& run(st, block.push(target)).categories == with_command(
                before.categories,
                before.context.current_category,
                command,
            )
            &&& details_row(command) == "| `make "@ + command.name + "` | "@ + description_cell(
                command.description,
            ) + " | "@ + "-"@ + " | "@ + "-"@ + " |\n"@
        }),
{
    lemma_lists_stay_empty(st, block);
    assert(block.push(target).drop_last() =~= block);
    let before = run(st, block);
    assert(before.context.buffer_deps =~= Seq::empty());
    assert(before.context.buffer_envs =~= Seq::empty());
}

/// A block with a description tag and with neither a dependency tag nor an
/// environment tag gives a command with two empty lists.
pub proof fn lemma_block_without_lists(
    earlier: Seq<Seq<char>>,
    block: Seq<Seq<char>>,
    target: Seq<char>,
)
    requires
        block_may_begin(earlier),
        forall|i: int|
            0 <= i < block.len() ==> !(#[trigger] classify(block[i]) is Depends) && !(classify(
                block[i],
            ) is Env),
        classify(target) is Target,
        run(ParserState::initial(), earlier + block).context.buffer_desc.len() > 0,
    ensures
        ({
            let before = run(ParserState::initial(), earlier + block);
            let command = CommandView {
                name: classify(target)->Target_0,
                description: before.context.buffer_desc,
                dependencies: Seq::empty(),
                env: Seq::empty(),
            };
            run(ParserState::initial(), (earlier + block).push(target)).categories == with_command(
                before.categories,
                before.context.current_category,
                command,
            )
        }),
{
    let st = run(ParserState::initial(), earlier);
    lemma_block_begins_empty(earlier);
    lemma_run_in_parts(ParserState::initial(), earlier, block);
    lemma_target_without_lists(st, block, target);
    lemma_run_in_parts(ParserState::initial(), earlier, block.push(target));
    assert((earlier + block).push(target) =~= earlier + block.push(target));
}

/// The texts of the description tags among `lines`, one after the other.
pub open spec fn descriptions(lines: Seq<Seq<char>>) -> Seq<char>
    decreases lines.len(),
{
    if lines.len() == 0 {
        Seq::empty()
    } else {
        descriptions(lines.drop_last()) + match classify(lines.last()) {
            Line::Description(text) => text,
            _ => Seq::empty(),
        }
    }
}

/// Description tags in a row add up: after them the description is what it
/// was, followed by the text of each tag in the order of the lines, and
/// nothing else has changed.
pub proof fn lemma_descriptions_concatenate(st: ParserState, lines: Seq<Seq<char>>)
    requires
        forall|i: int| 0 <= i < lines.len() ==> #[trigger] classify(lines[i]) is Description,
    ensures
        run(st, lines) == (ParserState {
            categories: st.categories,
            context: ContextView {
                buffer_desc: st.context.buffer_desc + descriptions(lines),
                ..st.context
            },
        }),
    decreases lines.len(),
{
    if lines.len() > 0 {
        let front = lines.drop_last();
        lemma_descriptions_concatenate(st, front);
        let text = classify(lines.last())->Description_0;
        assert((st.context.buffer_desc + descriptions(front)) + text =~= st.context.buffer_desc
            + descriptions(lines));
    }
}

/// Two description tags in a row give the first text followed by the second.
pub proof fn lemma_two_descriptions(st: ParserState, first: Seq<char>, second: Seq<char>)
    requires
        classify(first) is Description,
        classify(second) is Description,
    ensures
        run(st, seq![first, second]).context.buffer_desc == st.context.buffer_desc + classify(
            first,
        )->Description_0 + classify(second)->Description_0,
{
    reveal_with_fuel(run, 3);
}

/// Rendering is a function of the document's contents: two documents that
/// hold the same render to the same text, character for character.
pub proof fn lemma_rendering_is_a_function(a: MakefileDoc, b: MakefileDoc)
    requires
        a@ == b@,
    ensures
        rendered(a@) == rendered(b@),
{
}

} // verus!
