//! The extractor for stylesheets: `@import` directives only.
use vstd::prelude::*;

use crate::extract::{import_entries, push_import_entries, CapView};
use crate::patterns::{captures_view, find_matches, matches_of, Captures, CSS_IMPORT};
use crate::types::{FileAnalysis, FileView, ImportKind};

verus! {

/// The record of a stylesheet whose `@import` pattern matched `caps`: one
/// static import per directive, and nothing else.
pub open spec fn css_file(caps: Seq<CapView>, path: Seq<char>) -> FileView {
    FileView {
        path,
        loc: 0,
        imports: import_entries(caps, 1, ImportKind::Static),
        reexports: Seq::empty(),
        dynamic_imports: Seq::empty(),
        exports: Seq::empty(),
        command_calls: Seq::empty(),
        command_handlers: Seq::empty(),
    }
}

/// Builds the record of a stylesheet from the matches of its `@import` pattern.
pub fn css_record(caps: &Vec<Captures>, relative: String) -> (r: FileAnalysis)
    ensures
        r@ == css_file(captures_view(caps@), relative@),
{
    let mut imports = Vec::new();
    push_import_entries(&mut imports, caps, 1, ImportKind::Static);
    let r = FileAnalysis {
        path: relative,
        loc: 0,
        imports,
        reexports: Vec::new(),
        dynamic_imports: Vec::new(),
        exports: Vec::new(),
        command_calls: Vec::new(),
        command_handlers: Vec::new(),
    };
    assert(r@.imports =~= css_file(captures_view(caps@), relative@).imports);
    assert(r@.reexports =~= Seq::empty());
    assert(r@.dynamic_imports =~= Seq::empty());
    assert(r@.exports =~= Seq::empty());
    assert(r@.command_calls =~= Seq::empty());
    assert(r@.command_handlers =~= Seq::empty());
    r
}

/// Extracts the record of a stylesheet.
pub fn analyze_css_file(content: &str, relative: String) -> (r: FileAnalysis)
    ensures
        r@ == css_file(matches_of(CSS_IMPORT@, content@), relative@),
{
    let caps = find_matches(CSS_IMPORT, content);
    css_record(&caps, relative)
}

} // verus!
