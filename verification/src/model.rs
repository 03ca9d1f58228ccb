//! The document model: categories of documented commands, and the
//! mathematical values that contracts speak of.

use vstd::prelude::*;

verus! {

/// A documented target.
#[derive(Debug, PartialEq, Clone)]
pub struct Command {
    pub name: String,
    pub description: String,
    pub dependencies: Vec<String>,
    pub env: Vec<String>,
}

/// A named group of commands, in the order in which they were declared.
#[derive(Debug, PartialEq, Clone)]
pub struct Category {
    pub name: String,
    pub commands: Vec<Command>,
}

/// A parsed document: its categories, in the order in which each was first used.
#[derive(Debug, PartialEq, Clone)]
pub struct MakefileDoc {
    pub categories: Vec<Category>,
}

/// What a [`Command`] holds, as sequences of characters.
pub struct CommandView {
    pub name: Seq<char>,
    pub description: Seq<char>,
    pub dependencies: Seq<Seq<char>>,
    pub env: Seq<Seq<char>>,
}

/// What a [`Category`] holds.
pub struct CategoryView {
    pub name: Seq<char>,
    pub commands: Seq<CommandView>,
}

/// What a [`MakefileDoc`] holds.
pub struct DocView {
    pub categories: Seq<CategoryView>,
}

/// The contents of each string of `v`.
pub open spec fn strings_view(v: Seq<String>) -> Seq<Seq<char>> {
    Seq::new(v.len(), |i: int| v[i]@)
}

/// The contents of each command of `v`.
pub open spec fn commands_view(v: Seq<Command>) -> Seq<CommandView> {
    Seq::new(v.len(), |i: int| v[i]@)
}

/// The contents of each category of `v`.
pub open spec fn categories_view(v: Seq<Category>) -> Seq<CategoryView> {
    Seq::new(v.len(), |i: int| v[i]@)
}

impl View for Command {
    type V = CommandView;

    open spec fn view(&self) -> CommandView {
        CommandView {
            name: self.name@,
            description: self.description@,
            dependencies: strings_view(self.dependencies@),
            env: strings_view(self.env@),
        }
    }
}

impl View for Category {
    type V = CategoryView;

    open spec fn view(&self) -> CategoryView {
        CategoryView { name: self.name@, commands: commands_view(self.commands@) }
    }
}

impl View for MakefileDoc {
    type V = DocView;

    open spec fn view(&self) -> DocView {
        DocView { categories: categories_view(self.categories@) }
    }
}

/// No two of `categories` share a name.
pub open spec fn unique_names(categories: Seq<CategoryView>) -> bool {
    forall|i: int, j: int|
        0 <= i < j < categories.len() ==> categories[i].name != categories[j].name
}

impl DocView {
    /// What holds of every document that the parser builds: no two
    /// categories share a name.
    pub open spec fn well_formed(self) -> bool {
        unique_names(self.categories)
    }
}

} // verus!
