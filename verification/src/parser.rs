//! The annotation parser: recognizers for the five kinds of line, the
//! accumulator that is threaded through the lines, and `parse` itself.

use crate::laws::{lemma_blank_lines_give_no_category, lemma_parsed_is_well_formed};
use crate::lines::{lemma_lines_of_blank, lines, lines_of, strs_view};
use crate::model::{
    categories_view, commands_view, strings_view, unique_names, Category, CategoryView, Command,
    CommandView, DocView, MakefileDoc,
};
use crate::text::{
    char_is_whitespace, find, from_chars, is_blank, is_whitespace, lemma_index_of, split,
    str_is_blank, to_chars, trim, trim_start, trimmed, trimmed_each, trimmed_start,
};
use vstd::prelude::*;
use vstd::slice::slice_subrange;
use vstd::string::StringExecFns;

verus! {

/// Whether `line` is a tag line for `keyword`: it begins with `##`, one
/// whitespace character, `@` and the keyword, at least one whitespace
/// character follows, and no line feed stands after that whitespace.
pub open spec fn is_tag_line(line: Seq<char>, keyword: Seq<char>) -> bool {
    let n = keyword.len() as int + 4;
    &&& line.len() > n
    &&& line[0] == '#'
    &&& line[1] == '#'
    &&& is_whitespace(line[2])
    &&& line[3] == '@'
    &&& line.subrange(4, n) == keyword
    &&& is_whitespace(line[n])
    &&& !trimmed_start(line.skip(n)).contains('\n')
}

/// The payload of the tag line `## @keyword payload`: what stands after the
/// whitespace that follows the keyword, up to the end of the line.
pub open spec fn tag_payload(line: Seq<char>, keyword: Seq<char>) -> Option<Seq<char>> {
    if is_tag_line(line, keyword) {
        Some(trimmed_start(line.skip(keyword.len() as int + 4)))
    } else {
        None
    }
}

/// The name that `## @category name` gives.
pub open spec fn category_of(line: Seq<char>) -> Option<Seq<char>> {
    match tag_payload(line, "category"@) {
        Some(p) => Some(trimmed(p)),
        None => None,
    }
}

/// The text that `## @description text` gives.
pub open spec fn description_of(line: Seq<char>) -> Option<Seq<char>> {
    match tag_payload(line, "description"@) {
        Some(p) => Some(trimmed(p)),
        None => None,
    }
}

/// The names of a payload `name, name, ...`: its pieces between commas, each trimmed.
pub open spec fn list_of(payload: Seq<char>) -> Seq<Seq<char>> {
    trimmed_each(split(payload, ','))
}

/// The names that `## @depends name, name, ...` gives.
pub open spec fn depends_of(line: Seq<char>) -> Option<Seq<Seq<char>>> {
    match tag_payload(line, "depends"@) {
        Some(p) => Some(list_of(p)),
        None => None,
    }
}

/// The names that `## @env name, name, ...` gives.
pub open spec fn envs_of(line: Seq<char>) -> Option<Seq<Seq<char>>> {
    match tag_payload(line, "env"@) {
        Some(p) => Some(list_of(p)),
        None => None,
    }
}

/// Whether `c` may stand in a target's name: an ASCII letter or digit, `_` or `-`.
pub open spec fn is_target_char(c: char) -> bool {
    ||| 'a' <= c <= 'z'
    ||| 'A' <= c <= 'Z'
    ||| '0' <= c <= '9'
    ||| c == '_'
    ||| c == '-'
}

/// The number of leading characters of `s` that may stand in a target's name.
pub open spec fn target_len(s: Seq<char>) -> nat
    decreases s.len(),
{
    if s.len() > 0 && is_target_char(s[0]) {
        1 + target_len(s.drop_first())
    } else {
        0
    }
}

/// The name that a target declaration `name:` gives: the longest run of name
/// characters at the start of the line, if it is not empty and a colon follows it.
pub open spec fn target_of(line: Seq<char>) -> Option<Seq<char>> {
    let k = target_len(line) as int;
    if 0 < k < line.len() && line[k] == ':' {
        Some(line.take(k))
    } else {
        None
    }
}

/// Decides [`is_target_char`].
pub fn char_is_target(c: char) -> (b: bool)
    ensures
        b == is_target_char(c),
{
    ('a' <= c && c <= 'z') || ('A' <= c && c <= 'Z') || ('0' <= c && c <= '9') || c == '_' || c
        == '-'
}

/// The payload of the tag line for `keyword`, where `line` is one.
pub fn extract_tag<'a>(line: &'a [char], keyword: &str) -> (r: Option<&'a [char]>)
    ensures
        match r {
            Some(p) => tag_payload(line@, keyword@) == Some(p@),
            None => tag_payload(line@, keyword@) is None,
        },
{
    if line.len() < 4 || line[0] != '#' || line[1] != '#' || !char_is_whitespace(line[2])
        || line[3] != '@' {
        return None;
    }
    let kw = to_chars(keyword);
    if line.len() - 4 <= kw.len() {
        return None;
    }
    let n = kw.len() + 4;
    let mut j: usize = 0;
    while j < kw.len()
        invariant
            j <= kw.len(),
            n == kw.len() + 4,
            n < line.len(),
            kw@ == keyword@,
            forall|t: int| 0 <= t < j ==> line@[4 + t] == kw@[t],
        decreases kw.len() - j,
    {
        if line[4 + j] != kw[j] {
            return None;
        }
        j += 1;
    }
    assert(line@.subrange(4, n as int) =~= kw@);
    if !char_is_whitespace(line[n]) {
        return None;
    }
    let rest = trim_start(slice_subrange(line, n, line.len()));
    let k = find(rest, '\n');
    proof {
        lemma_index_of(rest@, '\n');
    }
    if k < rest.len() {
        return None;
    }
    Some(rest)
}

/// The category that `line` names, where it is a category tag.
pub fn try_extract_category(line: &[char]) -> (r: Option<String>)
    ensures
        r.deep_view() == category_of(line@),
{
    match extract_tag(line, "category") {
        Some(p) => Some(from_chars(trim(p))),
        None => None,
    }
}

/// The text that `line` adds to the description, where it is a description tag.
pub fn try_extract_description(line: &[char]) -> (r: Option<String>)
    ensures
        r.deep_view() == description_of(line@),
{
    match extract_tag(line, "description") {
        Some(p) => Some(from_chars(trim(p))),
        None => None,
    }
}

/// The names of `payload`: its pieces between commas, each trimmed.
pub fn split_list(payload: &[char]) -> (r: Vec<String>)
    ensures
        strings_view(r@) == list_of(payload@),
{
    let n = payload.len();
    let mut out: Vec<String> = Vec::new();
    let mut pos: usize = 0;
    let mut done = false;
    assert(payload@.skip(0) =~= payload@);
    while !done
        invariant
            n == payload.len(),
            pos <= n,
            done ==> strings_view(out@) == list_of(payload@),
            !done ==> list_of(payload@) == strings_view(out@) + list_of(payload@.skip(pos as int)),
        decreases n - pos + (if done { 0int } else { 1int }),
    {
        let rest = slice_subrange(payload, pos, n);
        let k = find(rest, ',');
        if k >= rest.len() {
            out.push(from_chars(trim(rest)));
            done = true;
        } else {
            let piece = slice_subrange(rest, 0, k);
            out.push(from_chars(trim(piece)));
            assert(rest@.skip(k + 1) =~= payload@.skip(pos + k + 1));
            pos = pos + k + 1;
        }
    }
    out
}

/// The names that `line` adds to the dependencies, where it is a dependency tag.
pub fn try_extract_depends(line: &[char]) -> (r: Option<Vec<String>>)
    ensures
        match r {
            Some(names) => depends_of(line@) == Some(strings_view(names@)),
            None => depends_of(line@) is None,
        },
{
    match extract_tag(line, "depends") {
        Some(p) => Some(split_list(p)),
        None => None,
    }
}

/// The names that `line` adds to the environment variables, where it is an
/// environment tag.
pub fn try_extract_envs(line: &[char]) -> (r: Option<Vec<String>>)
    ensures
        match r {
            Some(names) => envs_of(line@) == Some(strings_view(names@)),
            None => envs_of(line@) is None,
        },
{
    match extract_tag(line, "env") {
        Some(p) => Some(split_list(p)),
        None => None,
    }
}

/// The run of name characters at the start of a line is what `target_len` counts.
proof fn lemma_target_len_is(s: Seq<char>, k: int)
    requires
        0 <= k <= s.len(),
        forall|j: int| 0 <= j < k ==> is_target_char(#[trigger] s[j]),
        k < s.len() ==> !is_target_char(s[k]),
    ensures
        target_len(s) == k,
    decreases k,
{
    if k > 0 {
        let t = s.drop_first();
        lemma_target_len_is(t, k - 1);
    }
}

/// The name of the target that `line` declares, where it declares one.
pub fn try_extract_target(line: &[char]) -> (r: Option<String>)
    ensures
        r.deep_view() == target_of(line@),
{
    let mut k: usize = 0;
    while k < line.len() && char_is_target(line[k])
        invariant
            k <= line.len(),
            forall|j: int| 0 <= j < k ==> is_target_char(#[trigger] line@[j]),
        decreases line.len() - k,
    {
        k += 1;
    }
    proof {
        lemma_target_len_is(line@, k as int);
    }
    if 0 < k && k < line.len() && line[k] == ':' {
        Some(from_chars(slice_subrange(line, 0, k)))
    } else {
        None
    }
}

/// The accumulator of the parser: the category in force, and what the tags
/// seen since the last target have given.
pub struct ParserContext {
    pub current_category: String,
    pub buffer_desc: String,
    pub buffer_deps: Vec<String>,
    pub buffer_envs: Vec<String>,
}

/// What a [`ParserContext`] holds.
pub struct ContextView {
    pub current_category: Seq<char>,
    pub buffer_desc: Seq<char>,
    pub buffer_deps: Seq<Seq<char>>,
    pub buffer_envs: Seq<Seq<char>>,
}

impl View for ParserContext {
    type V = ContextView;

    open spec fn view(&self) -> ContextView {
        ContextView {
            current_category: self.current_category@,
            buffer_desc: self.buffer_desc@,
            buffer_deps: strings_view(self.buffer_deps@),
            buffer_envs: strings_view(self.buffer_envs@),
        }
    }
}

impl ContextView {
    /// The context before the first line: the category is `General`, the
    /// buffers are empty.
    pub open spec fn initial() -> ContextView {
        ContextView {
            current_category: "General"@,
            buffer_desc: Seq::empty(),
            buffer_deps: Seq::empty(),
            buffer_envs: Seq::empty(),
        }
    }

    /// The context with its buffers emptied; the category stays.
    pub open spec fn cleared(self) -> ContextView {
        ContextView {
            current_category: self.current_category,
            buffer_desc: Seq::empty(),
            buffer_deps: Seq::empty(),
            buffer_envs: Seq::empty(),
        }
    }

    /// The command that a target named `name` gets from the buffers.
    pub open spec fn command(self, name: Seq<char>) -> CommandView {
        CommandView {
            name,
            description: self.buffer_desc,
            dependencies: self.buffer_deps,
            env: self.buffer_envs,
        }
    }
}

impl ParserContext {
    /// The context before the first line.
    pub fn new() -> (ctx: ParserContext)
        ensures
            ctx@ == ContextView::initial(),
    {
        let ctx = ParserContext {
            current_category: "General".to_owned(),
            buffer_desc: String::new(),
            buffer_deps: Vec::new(),
            buffer_envs: Vec::new(),
        };
        assert(strings_view(Seq::<String>::empty()) =~= Seq::<Seq<char>>::empty());
        ctx
    }

    /// Empties the three buffers; the category stays.
    pub fn clear_metadata(&mut self)
        ensures
            final(self)@ == old(self)@.cleared(),
    {
        self.buffer_deps.clear();
        self.buffer_desc = String::new();
        self.buffer_envs.clear();
        assert(strings_view(Seq::<String>::empty()) =~= Seq::<Seq<char>>::empty());
    }
}

/// The position of the first category named `name`; the number of
/// categories where there is none.
pub open spec fn position_of(categories: Seq<CategoryView>, name: Seq<char>) -> nat
    decreases categories.len(),
{
    if categories.len() == 0 || categories[0].name == name {
        0
    } else {
        1 + position_of(categories.drop_first(), name)
    }
}

/// The categories after `command` has joined the category `name`: appended
/// to the first category of that name, or alone in a new last category.
pub open spec fn with_command(
    categories: Seq<CategoryView>,
    name: Seq<char>,
    command: CommandView,
) -> Seq<CategoryView> {
    let i = position_of(categories, name) as int;
    if i < categories.len() {
        categories.update(
            i,
            CategoryView { name: categories[i].name, commands: categories[i].commands.push(command) },
        )
    } else {
        categories.push(CategoryView { name, commands: seq![command] })
    }
}

/// `position_of` is the first position whose category has the name, or the length.
pub proof fn lemma_position_of(categories: Seq<CategoryView>, name: Seq<char>)
    ensures
        position_of(categories, name) <= categories.len(),
        forall|j: int| 0 <= j < position_of(categories, name) ==> categories[j].name != name,
        position_of(categories, name) < categories.len() ==> categories[position_of(
            categories,
            name,
        ) as int].name == name,
    decreases categories.len(),
{
    if categories.len() == 0 || categories[0].name == name {
    } else {
        let t = categories.drop_first();
        lemma_position_of(t, name);
        assert forall|j: int| 0 <= j < position_of(categories, name) implies categories[j].name
            != name by {
            if j > 0 {
                assert(categories[j] == t[j - 1]);
            }
        }
    }
}

/// A position whose category has the name, or the length, with no such
/// category before it, is `position_of`.
pub proof fn lemma_position_of_is(categories: Seq<CategoryView>, name: Seq<char>, k: int)
    requires
        0 <= k <= categories.len(),
        forall|j: int| 0 <= j < k ==> categories[j].name != name,
        k < categories.len() ==> categories[k].name == name,
    ensures
        position_of(categories, name) == k,
    decreases k,
{
    if k > 0 {
        let t = categories.drop_first();
        lemma_position_of_is(t, name, k - 1);
    }
}

/// Puts `command` into the category `name`: at the end of the first category
/// of that name, or into a new last category.
pub fn add_command(categories: &mut Vec<Category>, name: &String, command: Command)
    ensures
        categories_view(final(categories)@) == with_command(
            categories_view(old(categories)@),
            name@,
            command@,
        ),
        unique_names(categories_view(old(categories)@)) ==> unique_names(
            categories_view(final(categories)@),
        ),
{
    let mut i: usize = 0;
    while i < categories.len() && categories[i].name != *name
        invariant
            i <= categories.len(),
            forall|j: int| 0 <= j < i ==> categories@[j].name@ != name@,
        decreases categories.len() - i,
    {
        i += 1;
    }
    proof {
        lemma_position_of_is(categories_view(categories@), name@, i as int);
    }
    let ghost before = categories@;
    let ghost target = with_command(categories_view(before), name@, command@);
    if i < categories.len() {
        categories[i].commands.push(command);
        assert(commands_view(categories@[i as int].commands@) =~= commands_view(
            before[i as int].commands@,
        ).push(command@));
        assert(categories_view(categories@) =~= target);
    } else {
        let created = Category { name: name.clone(), commands: vec![command] };
        assert(commands_view(created.commands@) =~= seq![command@]);
        categories.push(created);
    }
}

/// The state of a parse between two lines: the categories built so far,
/// and the accumulator.
pub struct ParserState {
    pub categories: Seq<CategoryView>,
    pub context: ContextView,
}

impl ParserState {
    /// The state before the first line.
    pub open spec fn initial() -> ParserState {
        ParserState { categories: Seq::empty(), context: ContextView::initial() }
    }
}

/// The state that `categories` and `ctx` stand for.
pub open spec fn state_of(categories: Seq<Category>, ctx: ParserContext) -> ParserState {
    ParserState { categories: categories_view(categories), context: ctx@ }
}

/// What a line means to the parser.
pub enum Line {
    /// A category tag, with the category's name.
    Category(Seq<char>),
    /// A description tag, with its text.
    Description(Seq<char>),
    /// A dependency tag, with its names.
    Depends(Seq<Seq<char>>),
    /// An environment tag, with its names.
    Env(Seq<Seq<char>>),
    /// A target declaration, with the target's name.
    Target(Seq<char>),
    /// Any other line.
    Other,
}

/// The meaning of `line`. The line is trimmed, and the recognizers are
/// tried in a fixed order: category, description, dependencies,
/// environment, target. The first that accepts the line decides.
pub open spec fn classify(line: Seq<char>) -> Line {
    let l = trimmed(line);
    if category_of(l) is Some {
        Line::Category(category_of(l)->0)
    } else if description_of(l) is Some {
        Line::Description(description_of(l)->0)
    } else if depends_of(l) is Some {
        Line::Depends(depends_of(l)->0)
    } else if envs_of(l) is Some {
        Line::Env(envs_of(l)->0)
    } else if target_of(l) is Some {
        Line::Target(target_of(l)->0)
    } else {
        Line::Other
    }
}

/// The state after one more line. A category tag sets the category in
/// force. A description tag extends the description, and a dependency or
/// environment tag extends its list. A target declaration empties the
/// buffers, after it has put a command into the category in force if the
/// description is not empty. Any other line leaves the state as it is.
pub open spec fn step(st: ParserState, line: Seq<char>) -> ParserState {
    let ctx = st.context;
    match classify(line) {
        Line::Category(name) => ParserState {
            categories: st.categories,
            context: ContextView { current_category: name, ..ctx },
        },
        Line::Description(text) => ParserState {
            categories: st.categories,
            context: ContextView { buffer_desc: ctx.buffer_desc + text, ..ctx },
        },
        Line::Depends(names) => ParserState {
            categories: st.categories,
            context: ContextView { buffer_deps: ctx.buffer_deps + names, ..ctx },
        },
        Line::Env(names) => ParserState {
            categories: st.categories,
            context: ContextView { buffer_envs: ctx.buffer_envs + names, ..ctx },
        },
        Line::Target(name) => if ctx.buffer_desc.len() == 0 {
            ParserState { categories: st.categories, context: ctx.cleared() }
        } else {
            ParserState {
                categories: with_command(st.categories, ctx.current_category, ctx.command(name)),
                context: ctx.cleared(),
            }
        },
        Line::Other => st,
    }
}

/// The state after the lines of `lines`, taken in order from `st`.
pub open spec fn run(st: ParserState, lines: Seq<Seq<char>>) -> ParserState
    decreases lines.len(),
{
    if lines.len() == 0 {
        st
    } else {
        step(run(st, lines.drop_last()), lines.last())
    }
}

/// The lines of `content` that are not blank.
pub open spec fn nonblank_lines(content: Seq<char>) -> Seq<Seq<char>> {
    lines_of(content).filter(|l: Seq<char>| !is_blank(l))
}

/// The document that `content` describes.
pub open spec fn parsed(content: Seq<char>) -> DocView {
    DocView { categories: run(ParserState::initial(), nonblank_lines(content)).categories }
}

/// A copy of `v`.
fn clone_strings(v: &Vec<String>) -> (r: Vec<String>)
    ensures
        strings_view(r@) == strings_view(v@),
{
    let mut r: Vec<String> = Vec::new();
    let mut i: usize = 0;
    while i < v.len()
        invariant
            i <= v.len(),
            strings_view(r@) == strings_view(v@.take(i as int)),
        decreases v.len() - i,
    {
        let ghost before = strings_view(r@);
        let item = v[i].clone();
        r.push(item);
        i += 1;
        assert(strings_view(v@.take(i as int)) =~= before.push(v@[i - 1]@));
    }
    r
}

/// Feeds one line to the parser.
pub fn apply_line(categories: &mut Vec<Category>, ctx: &mut ParserContext, line: &[char])
    ensures
        state_of(final(categories)@, *final(ctx)) == step(
            state_of(old(categories)@, *old(ctx)),
            line@,
        ),
        unique_names(categories_view(old(categories)@)) ==> unique_names(
            categories_view(final(categories)@),
        ),
{
    let line = trim(line);
    if let Some(category) = try_extract_category(line) {
        ctx.current_category = category;
    } else if let Some(description) = try_extract_description(line) {
        ctx.buffer_desc.append(description.as_str());
    } else if let Some(mut names) = try_extract_depends(line) {
        let ghost before = strings_view(ctx.buffer_deps@);
        let ghost added = strings_view(names@);
        ctx.buffer_deps.append(&mut names);
        assert(strings_view(ctx.buffer_deps@) =~= before + added);
    } else if let Some(mut names) = try_extract_envs(line) {
        let ghost before = strings_view(ctx.buffer_envs@);
        let ghost added = strings_view(names@);
        ctx.buffer_envs.append(&mut names);
        assert(strings_view(ctx.buffer_envs@) =~= before + added);
    } else if let Some(name) = try_extract_target(line) {
        if !ctx.buffer_desc.as_str().is_empty() {
            let command = Command {
                name,
                description: ctx.buffer_desc.clone(),
                dependencies: clone_strings(&ctx.buffer_deps),
                env: clone_strings(&ctx.buffer_envs),
            };
            add_command(categories, &ctx.current_category, command);
        }
        ctx.clear_metadata();
    }
}

/// The lines of `content` that are not blank, or an error where `content`
/// holds nothing but whitespace.
pub fn clean_content(content: &str) -> (r: Result<Vec<&str>, &'static str>)
    ensures
        match r {
            Ok(lines) => !is_blank(content@) && strs_view(lines@) == nonblank_lines(content@),
            Err(e) => is_blank(content@) && e@ == "The Makefile is empty"@,
        },
{
    if str_is_blank(content) {
        return Err("The Makefile is empty");
    }
    let all = lines(content);
    let mut kept: Vec<&str> = Vec::new();
    let mut i: usize = 0;
    while i < all.len()
        invariant
            i <= all.len(),
            strs_view(kept@) == strs_view(all@).take(i as int).filter(|l: Seq<char>| !is_blank(l)),
        decreases all.len() - i,
    {
        if !str_is_blank(all[i]) {
            kept.push(all[i]);
        }
        proof {
            reveal(Seq::filter);
            assert(strs_view(all@).take(i + 1).drop_last() =~= strs_view(all@).take(i as int));
        }
        i += 1;
    }
    assert(strs_view(all@).take(i as int) =~= strs_view(all@));
    Ok(kept)
}

/// Reads the annotations of `content` into a document. Every text is
/// accepted: what is not an annotation is passed over, and a text without
/// annotations, empty text included, gives a document without categories.
pub fn parse(content: &str) -> (doc: MakefileDoc)
    ensures
        doc@ == parsed(content@),
        doc@.well_formed(),
        (forall|i: int|
            0 <= i < lines_of(content@).len() ==> is_blank(#[trigger] lines_of(content@)[i]))
            ==> doc@.categories.len() == 0,
{
    proof {
        lemma_parsed_is_well_formed(content@);
        if is_blank(content@) {
            lemma_lines_of_blank(content@);
        }
        if forall|i: int|
            0 <= i < lines_of(content@).len() ==> is_blank(#[trigger] lines_of(content@)[i]) {
            lemma_blank_lines_give_no_category(content@);
        }
    }
    let lines = match clean_content(content) {
        Ok(lines) => lines,
        Err(_) => {
            let doc = MakefileDoc { categories: Vec::new() };
            assert(doc@.categories =~= parsed(content@).categories);
            return doc;
        },
    };
    let mut categories: Vec<Category> = Vec::new();
    let mut ctx = ParserContext::new();
    let mut i: usize = 0;
    assert(categories_view(categories@) =~= Seq::empty());
    while i < lines.len()
        invariant
            i <= lines.len(),
            state_of(categories@, ctx) == run(
                ParserState::initial(),
                strs_view(lines@).take(i as int),
            ),
        decreases lines.len() - i,
    {
        let chars = to_chars(lines[i]);
        apply_line(&mut categories, &mut ctx, chars.as_slice());
        assert(strs_view(lines@).take(i + 1).drop_last() =~= strs_view(lines@).take(i as int));
        i += 1;
    }
    assert(strs_view(lines@).take(i as int) =~= strs_view(lines@));
    MakefileDoc { categories }
}

} // verus!
