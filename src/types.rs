//! The per-file record that every extractor produces, and its model.
use vstd::prelude::*;

use crate::text::{lemma_str_views_push, str_views};

verus! {

#[derive(Clone, Copy, Debug, PartialEq, Eq, Structural)]
pub enum ImportKind {
    /// A specifier bound to names.
    Static,
    /// A specifier imported for its effects only, with no binding.
    SideEffect,
}

pub struct ImportEntry {
    pub source: String,
    pub kind: ImportKind,
}

pub enum ReexportKind {
    Star,
    Named(Vec<String>),
}

pub struct ReexportEntry {
    pub source: String,
    pub kind: ReexportKind,
    /// The project-relative file the specifier resolves to, if any.
    pub resolved: Option<String>,
}

/// An exported symbol; `kind` records where the export came from
/// (`decl`, `default`, `named`, `reexport`, `__all__`, `def`, `class`).
pub struct ExportSymbol {
    pub name: String,
    pub kind: String,
}

/// A command call site or handler declaration, with the 1-based line of its name.
pub struct CommandRef {
    pub name: String,
    pub line: usize,
}

pub struct FileAnalysis {
    pub path: String,
    pub loc: usize,
    pub imports: Vec<ImportEntry>,
    pub reexports: Vec<ReexportEntry>,
    pub dynamic_imports: Vec<String>,
    pub exports: Vec<ExportSymbol>,
    pub command_calls: Vec<CommandRef>,
    pub command_handlers: Vec<CommandRef>,
}

pub struct ImportView {
    pub source: Seq<char>,
    pub kind: ImportKind,
}

pub enum ReexportKindView {
    Star,
    Named(Seq<Seq<char>>),
}

pub struct ReexportView {
    pub source: Seq<char>,
    pub kind: ReexportKindView,
    pub resolved: Option<Seq<char>>,
}

pub struct ExportView {
    pub name: Seq<char>,
    pub kind: Seq<char>,
}

pub struct CommandView {
    pub name: Seq<char>,
    pub line: nat,
}

pub struct FileView {
    pub path: Seq<char>,
    pub loc: nat,
    pub imports: Seq<ImportView>,
    pub reexports: Seq<ReexportView>,
    pub dynamic_imports: Seq<Seq<char>>,
    pub exports: Seq<ExportView>,
    pub command_calls: Seq<CommandView>,
    pub command_handlers: Seq<CommandView>,
}

impl View for ImportEntry {
    type V = ImportView;

    open spec fn view(&self) -> ImportView {
        ImportView { source: self.source@, kind: self.kind }
    }
}

pub open spec fn opt_view(o: Option<String>) -> Option<Seq<char>> {
    match o {
        Some(s) => Some(s@),
        None => None,
    }
}

impl View for ReexportEntry {
    type V = ReexportView;

    open spec fn view(&self) -> ReexportView {
        ReexportView {
            source: self.source@,
            kind: match self.kind {
                ReexportKind::Star => ReexportKindView::Star,
                ReexportKind::Named(names) => ReexportKindView::Named(str_views(names@)),
            },
            resolved: opt_view(self.resolved),
        }
    }
}

impl View for ExportSymbol {
    type V = ExportView;

    open spec fn view(&self) -> ExportView {
        ExportView { name: self.name@, kind: self.kind@ }
    }
}

impl View for CommandRef {
    type V = CommandView;

    open spec fn view(&self) -> CommandView {
        CommandView { name: self.name@, line: self.line as nat }
    }
}

pub open spec fn imports_view(v: Seq<ImportEntry>) -> Seq<ImportView> {
    v.map_values(|e: ImportEntry| e@)
}

pub open spec fn reexports_view(v: Seq<ReexportEntry>) -> Seq<ReexportView> {
    v.map_values(|e: ReexportEntry| e@)
}

pub open spec fn exports_view(v: Seq<ExportSymbol>) -> Seq<ExportView> {
    v.map_values(|e: ExportSymbol| e@)
}

pub open spec fn commands_view(v: Seq<CommandRef>) -> Seq<CommandView> {
    v.map_values(|e: CommandRef| e@)
}

impl View for FileAnalysis {
    type V = FileView;

    open spec fn view(&self) -> FileView {
        FileView {
            path: self.path@,
            loc: self.loc as nat,
            imports: imports_view(self.imports@),
            reexports: reexports_view(self.reexports@),
            dynamic_imports: str_views(self.dynamic_imports@),
            exports: exports_view(self.exports@),
            command_calls: commands_view(self.command_calls@),
            command_handlers: commands_view(self.command_handlers@),
        }
    }
}

/// Copies a vector of strings.
pub fn copy_strings(v: &Vec<String>) -> (r: Vec<String>)
    ensures
        str_views(r@) == str_views(v@),
{
    let mut r: Vec<String> = Vec::new();
    let mut i: usize = 0;
    while i < v.len()
        invariant
            i <= v@.len(),
            str_views(r@) == str_views(v@.subrange(0, i as int)),
        decreases v@.len() - i,
    {
        let ghost prev = r@;
        r.push(v[i].clone());
        proof {
            lemma_str_views_push(prev, v@[i as int]);
            lemma_str_views_push(v@.subrange(0, i as int), v@[i as int]);
            assert(v@.subrange(0, i + 1) =~= v@.subrange(0, i as int).push(v@[i as int]));
        }
        i = i + 1;
    }
    assert(v@.subrange(0, v@.len() as int) =~= v@);
    r
}

pub proof fn lemma_imports_push(s: Seq<ImportEntry>, x: ImportEntry)
    ensures
        imports_view(s.push(x)) == imports_view(s).push(x@),
{
    assert(imports_view(s.push(x)) =~= imports_view(s).push(x@));
}

pub proof fn lemma_reexports_push(s: Seq<ReexportEntry>, x: ReexportEntry)
    ensures
        reexports_view(s.push(x)) == reexports_view(s).push(x@),
{
    assert(reexports_view(s.push(x)) =~= reexports_view(s).push(x@));
}

pub proof fn lemma_exports_push(s: Seq<ExportSymbol>, x: ExportSymbol)
    ensures
        exports_view(s.push(x)) == exports_view(s).push(x@),
{
    assert(exports_view(s.push(x)) =~= exports_view(s).push(x@));
}

pub proof fn lemma_commands_push(s: Seq<CommandRef>, x: CommandRef)
    ensures
        commands_view(s.push(x)) == commands_view(s).push(x@),
{
    assert(commands_view(s.push(x)) =~= commands_view(s).push(x@));
}

} // verus!
