//! Documentation generator for annotated Makefiles.
//!
//! Comment lines of the form `## @category`, `## @description`, `## @depends`
//! and `## @env` above a target describe it. [`parser::parse`] reads them into
//! a [`model::MakefileDoc`], [`generator::generate`] renders that document as
//! Markdown, and [`process`] does both.

pub mod generator;
pub mod laws;
pub mod lines;
pub mod model;
pub mod parser;
pub mod text;

use crate::generator::{generate, rendered};
use crate::lines::{lines, lines_of, strs_view};
use crate::parser::{parse, parsed};
use crate::text::{has_prefix, starts_with, to_chars};
use vstd::prelude::*;

verus! {

/// The lines of `contents` that begin with the annotation marker `## @`.
pub open spec fn annotation_lines(contents: Seq<char>) -> Seq<Seq<char>> {
    lines_of(contents).filter(|l: Seq<char>| starts_with(l, "## @"@))
}

/// The lines of `contents` that begin with the annotation marker `## @`, in order.
pub fn search<'a>(contents: &'a str) -> (found: Vec<&'a str>)
    ensures
        strs_view(found@) == annotation_lines(contents@),
{
    let all = lines(contents);
    let marker = to_chars("## @");
    let mut found: Vec<&'a str> = Vec::new();
    let mut i: usize = 0;
    while i < all.len()
        invariant
            i <= all.len(),
            marker@ == "## @"@,
            strs_view(found@) == strs_view(all@).take(i as int).filter(
                |l: Seq<char>| starts_with(l, "## @"@),
            ),
        decreases all.len() - i,
    {
        let line = to_chars(all[i]);
        if has_prefix(line.as_slice(), marker.as_slice()) {
            found.push(all[i]);
        }
        proof {
            reveal(Seq::filter);
            assert(strs_view(all@).take(i + 1).drop_last() =~= strs_view(all@).take(i as int));
        }
        i += 1;
    }
    assert(strs_view(all@).take(i as int) =~= strs_view(all@));
    found
}

/// Turns the text of an annotated Makefile into its documentation.
pub fn process(content: &str) -> (md: String)
    ensures
        md@ == rendered(parsed(content@)),
{
    let doc = parse(content);
    generate(&doc)
}

} // verus!
