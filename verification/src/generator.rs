//! The document generator: renders a document as Markdown, in three
//! sections: a cheat sheet, a workflow graph and the details of each category.

use crate::model::{strings_view, CategoryView, Command, CommandView, DocView, MakefileDoc};
use crate::text::to_chars;
use vstd::prelude::*;
use vstd::string::StringExecFns;

verus! {

/// Names the lower-case form of a text, as Unicode maps it.
pub uninterp spec fn lowercase(s: Seq<char>) -> Seq<char>;

/// `str::to_lowercase` returns the lower-case equivalent of the string slice
/// as a new `String`. The result depends on the characters of the slice alone.
pub assume_specification[ str::to_lowercase ](s: &str) -> (r: String)
    ensures
        r@ == lowercase(s@),
;

/// `s` with every line-break escape, a backslash followed by `n`, replaced by `<br>`.
pub open spec fn with_breaks(s: Seq<char>) -> Seq<char>
    decreases s.len(),
{
    if s.len() == 0 {
        s
    } else if s.len() >= 2 && s[0] == '\\' && s[1] == 'n' {
        "<br>"@ + with_breaks(s.skip(2))
    } else {
        seq![s[0]] + with_breaks(s.drop_first())
    }
}

/// The description cell of a details table: `-` for an empty description.
pub open spec fn description_cell(description: Seq<char>) -> Seq<char> {
    if description.len() == 0 {
        "-"@
    } else {
        with_breaks(description)
    }
}

/// The items, each between backticks, joined by a comma and a space.
pub open spec fn code_list(items: Seq<Seq<char>>) -> Seq<char>
    decreases items.len(),
{
    if items.len() == 0 {
        Seq::empty()
    } else if items.len() == 1 {
        "`"@ + items[0] + "`"@
    } else {
        code_list(items.drop_last()) + ", "@ + "`"@ + items.last() + "`"@
    }
}

/// A list cell of a details table: `-` for an empty list.
pub open spec fn list_cell(items: Seq<Seq<char>>) -> Seq<char> {
    if items.len() == 0 {
        "-"@
    } else {
        code_list(items)
    }
}

/// The cheat sheet's row for `command`, in the category `category` whose
/// link target is `link`.
pub open spec fn cheat_sheet_row(
    command: CommandView,
    category: Seq<char>,
    link: Seq<char>,
) -> Seq<char> {
    "| [`make "@ + command.name + "`](#"@ + link + ") | "@ + category + " | "@ + with_breaks(
        command.description,
    ) + " |\n"@
}

/// The cheat sheet's rows for `commands`, in order.
pub open spec fn cheat_sheet_rows(
    commands: Seq<CommandView>,
    category: Seq<char>,
    link: Seq<char>,
) -> Seq<char>
    decreases commands.len(),
{
    if commands.len() == 0 {
        Seq::empty()
    } else {
        cheat_sheet_rows(commands.drop_last(), category, link) + cheat_sheet_row(
            commands.last(),
            category,
            link,
        )
    }
}

/// The cheat sheet's rows for the commands of `categories`, in traversal
/// order. A category's link target is its name in lower case.
pub open spec fn cheat_sheet_body(categories: Seq<CategoryView>) -> Seq<char>
    decreases categories.len(),
{
    if categories.len() == 0 {
        Seq::empty()
    } else {
        let last = categories.last();
        cheat_sheet_body(categories.drop_last()) + cheat_sheet_rows(
            last.commands,
            last.name,
            lowercase(last.name),
        )
    }
}

/// The first section: a table with one row for each command.
pub open spec fn cheat_sheet(doc: DocView) -> Seq<char> {
    "## Cheat Sheet\n"@ + "| Command | Category | Description |\n"@ + "| :--- | :--- | :--- |\n"@
        + cheat_sheet_body(doc.categories)
}

/// The edge from the command `from` to its dependency `to`.
pub open spec fn edge(from: Seq<char>, to: Seq<char>) -> Seq<char> {
    "    "@ + from + " --> "@ + to + ";\n"@
}

/// The edges from the command `from` to each of `dependencies`, in order.
pub open spec fn edges_to(from: Seq<char>, dependencies: Seq<Seq<char>>) -> Seq<char>
    decreases dependencies.len(),
{
    if dependencies.len() == 0 {
        Seq::empty()
    } else {
        edges_to(from, dependencies.drop_last()) + edge(from, dependencies.last())
    }
}

/// The edges of `commands`, in order.
pub open spec fn edges_of(commands: Seq<CommandView>) -> Seq<char>
    decreases commands.len(),
{
    if commands.len() == 0 {
        Seq::empty()
    } else {
        edges_of(commands.drop_last()) + edges_to(commands.last().name, commands.last().dependencies)
    }
}

/// The edges of the commands of `categories`, in traversal order.
pub open spec fn workflow_edges(categories: Seq<CategoryView>) -> Seq<char>
    decreases categories.len(),
{
    if categories.len() == 0 {
        Seq::empty()
    } else {
        workflow_edges(categories.drop_last()) + edges_of(categories.last().commands)
    }
}

/// The second section: a Mermaid graph with one edge for each dependency of
/// each command.
pub open spec fn workflow_graph(doc: DocView) -> Seq<char> {
    "## Workflow Graph\n"@ + "```mermaid\n"@ + "graph TD;\n"@ + workflow_edges(doc.categories)
        + "```\n\n"@
}

/// The details table's row for `command`.
pub open spec fn details_row(command: CommandView) -> Seq<char> {
    "| `make "@ + command.name + "` | "@ + description_cell(command.description) + " | "@
        + list_cell(command.dependencies) + " | "@ + list_cell(command.env) + " |\n"@
}

/// The details table's rows for `commands`, in order.
pub open spec fn details_rows(commands: Seq<CommandView>) -> Seq<char>
    decreases commands.len(),
{
    if commands.len() == 0 {
        Seq::empty()
    } else {
        details_rows(commands.drop_last()) + details_row(commands.last())
    }
}

/// The subsection of `category`: its name as a heading, then its table.
pub open spec fn category_details(category: CategoryView) -> Seq<char> {
    "\n### "@ + category.name + "\n"@
        + "| Command | Description | Dependencies | Required Variables |\n"@
        + "| :--- | :--- | :--- | :--- |\n"@ + details_rows(category.commands)
}

/// The subsections of `categories`, in order.
pub open spec fn details_body(categories: Seq<CategoryView>) -> Seq<char>
    decreases categories.len(),
{
    if categories.len() == 0 {
        Seq::empty()
    } else {
        details_body(categories.drop_last()) + category_details(categories.last())
    }
}

/// The third section: one subsection for each category.
pub open spec fn section_details(doc: DocView) -> Seq<char> {
    "## Section Details\n"@ + details_body(doc.categories)
}

/// The whole document: a title and the three sections, with a horizontal
/// rule between two sections.
pub open spec fn rendered(doc: DocView) -> Seq<char> {
    "# Makefile Documentation\n\n"@ + cheat_sheet(doc) + "\n---\n\n"@ + workflow_graph(doc)
        + "---\n\n"@ + section_details(doc)
}

/// Appends `text` to `out`, with every line-break escape replaced by `<br>`.
pub fn push_with_breaks(out: &mut String, text: &str)
    ensures
        final(out)@ == old(out)@ + with_breaks(text@),
{
    let chars = to_chars(text);
    let n = chars.len();
    let mut i: usize = 0;
    assert(chars@.skip(0) =~= chars@);
    while i < n
        invariant
            n == chars.len(),
            i <= n,
            chars@ == text@,
            out@ + with_breaks(chars@.skip(i as int)) == old(out)@ + with_breaks(text@),
        decreases n - i,
    {
        let ghost rest = chars@.skip(i as int);
        if chars[i] == '\\' && i + 1 < n && chars[i + 1] == 'n' {
            out.append("<br>");
            assert(rest.skip(2) =~= chars@.skip(i + 2));
            i += 2;
        } else {
            out.push(chars[i]);
            assert(rest.drop_first() =~= chars@.skip(i + 1));
            i += 1;
        }
    }
}

/// The description cell of a details table.
pub fn format_description(desc: &str) -> (cell: String)
    ensures
        cell@ == description_cell(desc@),
{
    if desc.is_empty() {
        "-".to_owned()
    } else {
        let mut cell = String::new();
        push_with_breaks(&mut cell, desc);
        cell
    }
}

/// A list cell of a details table.
pub fn format_list(items: &[String]) -> (cell: String)
    ensures
        cell@ == list_cell(strings_view(items@)),
{
    if items.len() == 0 {
        return "-".to_owned();
    }
    let ghost views = strings_view(items@);
    let mut cell = String::new();
    cell.append("`");
    cell.append(items[0].as_str());
    cell.append("`");
    let mut i: usize = 1;
    while i < items.len()
        invariant
            1 <= i <= items.len(),
            views == strings_view(items@),
            cell@ == code_list(views.take(i as int)),
        decreases items.len() - i,
    {
        cell.append(", ");
        cell.append("`");
        cell.append(items[i].as_str());
        cell.append("`");
        assert(views.take(i + 1).drop_last() =~= views.take(i as int));
        i += 1;
    }
    assert(views.take(i as int) =~= views);
    cell
}

/// The cheat sheet's row for `command`, in the category `category` whose
/// link target is `link`.
pub fn format_cheat_sheet_row(command: &Command, category: &str, link: &str) -> (row: String)
    ensures
        row@ == cheat_sheet_row(command@, category@, link@),
{
    let mut row = String::new();
    row.append("| [`make ");
    row.append(command.name.as_str());
    row.append("`](#");
    row.append(link);
    row.append(") | ");
    row.append(category);
    row.append(" | ");
    push_with_breaks(&mut row, command.description.as_str());
    row.append(" |\n");
    row
}

/// The first section: a table with one row for each command, in traversal order.
pub fn generate_cheat_sheet(doc: &MakefileDoc) -> (section: String)
    ensures
        section@ == cheat_sheet(doc@),
{
    let mut section = String::new();
    section.append("## Cheat Sheet\n");
    section.append("| Command | Category | Description |\n");
    section.append("| :--- | :--- | :--- |\n");
    let ghost head = section@;
    let ghost categories = doc@.categories;
    let mut i: usize = 0;
    while i < doc.categories.len()
        invariant
            i <= doc.categories.len(),
            categories == doc@.categories,
            section@ == head + cheat_sheet_body(categories.take(i as int)),
        decreases doc.categories.len() - i,
    {
        let cat = &doc.categories[i];
        let link = cat.name.to_lowercase();
        let ghost commands = cat@.commands;
        let ghost start = section@;
        let mut j: usize = 0;
        while j < cat.commands.len()
            invariant
                j <= cat.commands.len(),
                commands == cat@.commands,
                section@ == start + cheat_sheet_rows(commands.take(j as int), cat.name@, link@),
            decreases cat.commands.len() - j,
        {
            let row = format_cheat_sheet_row(&cat.commands[j], cat.name.as_str(), link.as_str());
            section.append(row.as_str());
            assert(commands.take(j + 1).drop_last() =~= commands.take(j as int));
            j += 1;
        }
        assert(commands.take(j as int) =~= commands);
        assert(categories.take(i + 1).drop_last() =~= categories.take(i as int));
        i += 1;
    }
    assert(categories.take(i as int) =~= categories);
    section
}

/// Appends to `out` the edges from `command` to each of its dependencies.
fn push_edges(out: &mut String, command: &Command)
    ensures
        final(out)@ == old(out)@ + edges_to(command@.name, command@.dependencies),
{
    let ghost dependencies = command@.dependencies;
    let mut k: usize = 0;
    while k < command.dependencies.len()
        invariant
            k <= command.dependencies.len(),
            dependencies == command@.dependencies,
            out@ == old(out)@ + edges_to(command@.name, dependencies.take(k as int)),
        decreases command.dependencies.len() - k,
    {
        out.append("    ");
        out.append(command.name.as_str());
        out.append(" --> ");
        out.append(command.dependencies[k].as_str());
        out.append(";\n");
        assert(dependencies.take(k + 1).drop_last() =~= dependencies.take(k as int));
        k += 1;
    }
    assert(dependencies.take(k as int) =~= dependencies);
}

/// The second section: a Mermaid graph with one edge for each dependency of
/// each command, in traversal order.
pub fn generate_workflow_graph(doc: &MakefileDoc) -> (section: String)
    ensures
        section@ == workflow_graph(doc@),
{
    let mut section = String::new();
    section.append("## Workflow Graph\n");
    section.append("```mermaid\n");
    section.append("graph TD;\n");
    let ghost head = section@;
    let ghost categories = doc@.categories;
    let mut i: usize = 0;
    while i < doc.categories.len()
        invariant
            i <= doc.categories.len(),
            categories == doc@.categories,
            section@ == head + workflow_edges(categories.take(i as int)),
        decreases doc.categories.len() - i,
    {
        let cat = &doc.categories[i];
        let ghost commands = cat@.commands;
        let ghost start = section@;
        let mut j: usize = 0;
        while j < cat.commands.len()
            invariant
                j <= cat.commands.len(),
                commands == cat@.commands,
                section@ == start + edges_of(commands.take(j as int)),
            decreases cat.commands.len() - j,
        {
            push_edges(&mut section, &cat.commands[j]);
            assert(commands.take(j + 1).drop_last() =~= commands.take(j as int));
            j += 1;
        }
        assert(commands.take(j as int) =~= commands);
        assert(categories.take(i + 1).drop_last() =~= categories.take(i as int));
        i += 1;
    }
    assert(categories.take(i as int) =~= categories);
    section.append("```\n\n");
    section
}

/// The details table's row for `command`.
pub fn format_details_row(command: &Command) -> (row: String)
    ensures
        row@ == details_row(command@),
{
    let desc = format_description(command.description.as_str());
    let deps = format_list(command.dependencies.as_slice());
    let envs = format_list(command.env.as_slice());
    let mut row = String::new();
    row.append("| `make ");
    row.append(command.name.as_str());
    row.append("` | ");
    row.append(desc.as_str());
    row.append(" | ");
    row.append(deps.as_str());
    row.append(" | ");
    row.append(envs.as_str());
    row.append(" |\n");
    row
}

/// The third section: one subsection for each category, with a table of
/// its commands.
pub fn generate_section_details(doc: &MakefileDoc) -> (section: String)
    ensures
        section@ == section_details(doc@),
{
    let mut section = String::new();
    section.append("## Section Details\n");
    let ghost head = section@;
    let ghost categories = doc@.categories;
    let mut i: usize = 0;
    while i < doc.categories.len()
        invariant
            i <= doc.categories.len(),
            categories == doc@.categories,
            section@ == head + details_body(categories.take(i as int)),
        decreases doc.categories.len() - i,
    {
        let cat = &doc.categories[i];
        let ghost commands = cat@.commands;
        section.append("\n### ");
        section.append(cat.name.as_str());
        section.append("\n");
        section.append("| Command | Description | Dependencies | Required Variables |\n");
        section.append("| :--- | :--- | :--- | :--- |\n");
        let ghost start = section@;
        let mut j: usize = 0;
        while j < cat.commands.len()
            invariant
                j <= cat.commands.len(),
                commands == cat@.commands,
                section@ == start + details_rows(commands.take(j as int)),
            decreases cat.commands.len() - j,
        {
            let row = format_details_row(&cat.commands[j]);
            section.append(row.as_str());
            assert(commands.take(j + 1).drop_last() =~= commands.take(j as int));
            j += 1;
        }
        assert(commands.take(j as int) =~= commands);
        assert(categories.take(i + 1).drop_last() =~= categories.take(i as int));
        i += 1;
    }
    assert(categories.take(i as int) =~= categories);
    section
}

/// Renders `doc` as Markdown: a title, then the cheat sheet, the workflow
/// graph and the section details, with a horizontal rule between two sections.
pub fn generate(doc: &MakefileDoc) -> (md: String)
    ensures
        md@ == rendered(doc@),
{
    let mut md = String::new();
    md.append("# Makefile Documentation\n\n");
    md.append(generate_cheat_sheet(doc).as_str());
    md.append("\n---\n\n");
    md.append(generate_workflow_graph(doc).as_str());
    md.append("---\n\n");
    md.append(generate_section_details(doc).as_str());
    md
}

} // verus!
