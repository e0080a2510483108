//! The extractor for ESM-style scripts (`.js`, `.jsx`, `.ts`, `.tsx`, `.mjs`, `.cjs`).
use vstd::prelude::*;

use crate::extract::{
    lemma_named_exports_names, lemma_no_reexport_concat, no_reexport_kind, command_refs, group_texts, import_entries, named_exports, push_command_refs, push_group_texts,
    push_import_entries, push_named_exports, push_reexport_exports, reexport_exports, CapView,
};
use crate::names::{brace_list_to_names, brace_names};
use crate::patterns::{
    captures_view, find_matches, group_text, has_group, matches_of, Captures, DYNAMIC_IMPORT,
    EXPORT_BRACE, EXPORT_DEFAULT, EXPORT_NAMED_DECL, IMPORT, INVOKE, INVOKE_AUDIO, INVOKE_SNAKE,
    REEXPORT_NAMED, REEXPORT_STAR, SAFE_INVOKE, SIDE_EFFECT_IMPORT,
};
use crate::text::{chars_of};
use crate::types::{
    exports_view, lemma_exports_push, lemma_reexports_push, reexports_view, ExportSymbol,
    ExportView, FileAnalysis, FileView, ImportKind, ReexportEntry, ReexportKind, ReexportKindView,
    ReexportView,
};

verus! {

/// The matches of every script pattern in one file.
pub struct ScriptMatches {
    pub imports: Vec<Captures>,
    pub side_effects: Vec<Captures>,
    pub safe_invokes: Vec<Captures>,
    pub invokes: Vec<Captures>,
    pub audio_invokes: Vec<Captures>,
    pub snake_invokes: Vec<Captures>,
    pub reexport_stars: Vec<Captures>,
    pub reexport_named: Vec<Captures>,
    pub dynamic_imports: Vec<Captures>,
    pub export_decls: Vec<Captures>,
    pub export_defaults: Vec<Captures>,
    pub export_braces: Vec<Captures>,
}

pub struct ScriptMatchesView {
    pub imports: Seq<CapView>,
    pub side_effects: Seq<CapView>,
    pub safe_invokes: Seq<CapView>,
    pub invokes: Seq<CapView>,
    pub audio_invokes: Seq<CapView>,
    pub snake_invokes: Seq<CapView>,
    pub reexport_stars: Seq<CapView>,
    pub reexport_named: Seq<CapView>,
    pub dynamic_imports: Seq<CapView>,
    pub export_decls: Seq<CapView>,
    pub export_defaults: Seq<CapView>,
    pub export_braces: Seq<CapView>,
}

impl View for ScriptMatches {
    type V = ScriptMatchesView;

    open spec fn view(&self) -> ScriptMatchesView {
        ScriptMatchesView {
            imports: captures_view(self.imports@),
            side_effects: captures_view(self.side_effects@),
            safe_invokes: captures_view(self.safe_invokes@),
            invokes: captures_view(self.invokes@),
            audio_invokes: captures_view(self.audio_invokes@),
            snake_invokes: captures_view(self.snake_invokes@),
            reexport_stars: captures_view(self.reexport_stars@),
            reexport_named: captures_view(self.reexport_named@),
            dynamic_imports: captures_view(self.dynamic_imports@),
            export_decls: captures_view(self.export_decls@),
            export_defaults: captures_view(self.export_defaults@),
            export_braces: captures_view(self.export_braces@),
        }
    }
}

/// What the script patterns match in `content`.
pub open spec fn script_matches(content: Seq<char>) -> ScriptMatchesView {
    ScriptMatchesView {
        imports: matches_of(IMPORT@, content),
        side_effects: matches_of(SIDE_EFFECT_IMPORT@, content),
        safe_invokes: matches_of(SAFE_INVOKE@, content),
        invokes: matches_of(INVOKE@, content),
        audio_invokes: matches_of(INVOKE_AUDIO@, content),
        snake_invokes: matches_of(INVOKE_SNAKE@, content),
        reexport_stars: matches_of(REEXPORT_STAR@, content),
        reexport_named: matches_of(REEXPORT_NAMED@, content),
        dynamic_imports: matches_of(DYNAMIC_IMPORT@, content),
        export_decls: matches_of(EXPORT_NAMED_DECL@, content),
        export_defaults: matches_of(EXPORT_DEFAULT@, content),
        export_braces: matches_of(EXPORT_BRACE@, content),
    }
}

/// `export * from "spec"`: a star re-export of group 1, not yet resolved.
pub open spec fn star_reexports(caps: Seq<CapView>) -> Seq<ReexportView>
    decreases caps.len(),
{
    if caps.len() == 0 {
        Seq::empty()
    } else {
        star_reexports(caps.drop_last()).push(
            ReexportView {
                source: group_text(caps.last(), 1),
                kind: ReexportKindView::Star,
                resolved: None,
            },
        )
    }
}

/// `export { a, b as c } from "spec"`: the names of group 1, from group 2.
pub open spec fn named_reexports(caps: Seq<CapView>) -> Seq<ReexportView>
    decreases caps.len(),
{
    if caps.len() == 0 {
        Seq::empty()
    } else {
        named_reexports(caps.drop_last()).push(
            ReexportView {
                source: group_text(caps.last(), 2),
                kind: ReexportKindView::Named(brace_names(group_text(caps.last(), 1))),
                resolved: None,
            },
        )
    }
}

/// Exported declarations: the non-empty names of group 1.
pub open spec fn decl_exports(caps: Seq<CapView>) -> Seq<ExportView>
    decreases caps.len(),
{
    if caps.len() == 0 {
        Seq::empty()
    } else {
        let rest = decl_exports(caps.drop_last());
        let name = group_text(caps.last(), 1);
        if name.len() > 0 {
            rest.push(ExportView { name, kind: "decl"@ })
        } else {
            rest
        }
    }
}

/// Default exports, named `default` when anonymous.
pub open spec fn default_exports(caps: Seq<CapView>) -> Seq<ExportView>
    decreases caps.len(),
{
    if caps.len() == 0 {
        Seq::empty()
    } else {
        let c = caps.last();
        default_exports(caps.drop_last()).push(
            ExportView {
                name: if has_group(c, 1) {
                    group_text(c, 1)
                } else {
                    "default"@
                },
                kind: "default"@,
            },
        )
    }
}

/// Local export lists: each name of group 1 as a `named` export.
pub open spec fn brace_exports(caps: Seq<CapView>) -> Seq<ExportView>
    decreases caps.len(),
{
    if caps.len() == 0 {
        Seq::empty()
    } else {
        brace_exports(caps.drop_last()) + named_exports(
            brace_names(group_text(caps.last(), 1)),
            "named"@,
        )
    }
}

pub open spec fn script_reexports(m: ScriptMatchesView) -> Seq<ReexportView> {
    star_reexports(m.reexport_stars) + named_reexports(m.reexport_named)
}

/// The record of a script file, given what its patterns matched.
pub open spec fn script_file(content: Seq<char>, m: ScriptMatchesView, path: Seq<char>) -> FileView {
    FileView {
        path,
        loc: 0,
        imports: import_entries(m.imports, 2, ImportKind::Static) + import_entries(
            m.side_effects,
            1,
            ImportKind::SideEffect,
        ),
        reexports: script_reexports(m),
        dynamic_imports: group_texts(m.dynamic_imports, 1),
        exports: decl_exports(m.export_decls) + default_exports(m.export_defaults) + brace_exports(
            m.export_braces,
        ) + reexport_exports(script_reexports(m)),
        command_calls: command_refs(content, m.safe_invokes, 1) + command_refs(
            content,
            m.invokes,
            1,
        ) + command_refs(content, m.audio_invokes, 1) + command_refs(content, m.snake_invokes, 1),
        command_handlers: Seq::empty(),
    }
}

fn push_star_reexports(out: &mut Vec<ReexportEntry>, caps: &Vec<Captures>)
    ensures
        reexports_view(final(out)@) == reexports_view(old(out)@) + star_reexports(
            captures_view(caps@),
        ),
{
    let ghost cv = captures_view(caps@);
    let mut i: usize = 0;
    while i < caps.len()
        invariant
            i <= caps@.len(),
            cv == captures_view(caps@),
            reexports_view(out@) == reexports_view(old(out)@) + star_reexports(
                cv.subrange(0, i as int),
            ),
        decreases caps@.len() - i,
    {
        assert(cv.subrange(0, i + 1).drop_last() =~= cv.subrange(0, i as int));
        let e = ReexportEntry { source: caps[i].text(1), kind: ReexportKind::Star, resolved: None };
        let ghost prev = out@;
        out.push(e);
        proof {
            lemma_reexports_push(prev, e);
        }
        i = i + 1;
    }
    assert(cv.subrange(0, caps@.len() as int) =~= cv);
}

fn push_named_reexports(out: &mut Vec<ReexportEntry>, caps: &Vec<Captures>)
    ensures
        reexports_view(final(out)@) == reexports_view(old(out)@) + named_reexports(
            captures_view(caps@),
        ),
{
    let ghost cv = captures_view(caps@);
    let mut i: usize = 0;
    while i < caps.len()
        invariant
            i <= caps@.len(),
            cv == captures_view(caps@),
            reexports_view(out@) == reexports_view(old(out)@) + named_reexports(
                cv.subrange(0, i as int),
            ),
        decreases caps@.len() - i,
    {
        assert(cv.subrange(0, i + 1).drop_last() =~= cv.subrange(0, i as int));
        let raw = caps[i].text(1);
        let names = brace_list_to_names(raw.as_str());
        let e = ReexportEntry {
            source: caps[i].text(2),
            kind: ReexportKind::Named(names),
            resolved: None,
        };
        let ghost prev = out@;
        out.push(e);
        proof {
            lemma_reexports_push(prev, e);
        }
        i = i + 1;
    }
    assert(cv.subrange(0, caps@.len() as int) =~= cv);
}

fn push_decl_exports(out: &mut Vec<ExportSymbol>, caps: &Vec<Captures>)
    ensures
        exports_view(final(out)@) == exports_view(old(out)@) + decl_exports(captures_view(caps@)),
{
    let ghost cv = captures_view(caps@);
    let mut i: usize = 0;
    while i < caps.len()
        invariant
            i <= caps@.len(),
            cv == captures_view(caps@),
            exports_view(out@) == exports_view(old(out)@) + decl_exports(cv.subrange(0, i as int)),
        decreases caps@.len() - i,
    {
        assert(cv.subrange(0, i + 1).drop_last() =~= cv.subrange(0, i as int));
        let name = caps[i].text(1);
        if !name.as_str().is_empty() {
            let e = ExportSymbol { name, kind: "decl".to_owned() };
            let ghost prev = out@;
            out.push(e);
            proof {
                lemma_exports_push(prev, e);
            }
        }
        i = i + 1;
    }
    assert(cv.subrange(0, caps@.len() as int) =~= cv);
}

fn push_default_exports(out: &mut Vec<ExportSymbol>, caps: &Vec<Captures>)
    ensures
        exports_view(final(out)@) == exports_view(old(out)@) + default_exports(
            captures_view(caps@),
        ),
{
    let ghost cv = captures_view(caps@);
    let mut i: usize = 0;
    while i < caps.len()
        invariant
            i <= caps@.len(),
            cv == captures_view(caps@),
            exports_view(out@) == exports_view(old(out)@) + default_exports(
                cv.subrange(0, i as int),
            ),
        decreases caps@.len() - i,
    {
        assert(cv.subrange(0, i + 1).drop_last() =~= cv.subrange(0, i as int));
        let name = if caps[i].has(1) {
            caps[i].text(1)
        } else {
            "default".to_owned()
        };
        let e = ExportSymbol { name, kind: "default".to_owned() };
        let ghost prev = out@;
        out.push(e);
        proof {
            lemma_exports_push(prev, e);
        }
        i = i + 1;
    }
    assert(cv.subrange(0, caps@.len() as int) =~= cv);
}

fn push_brace_exports(out: &mut Vec<ExportSymbol>, caps: &Vec<Captures>)
    ensures
        exports_view(final(out)@) == exports_view(old(out)@) + brace_exports(captures_view(caps@)),
{
    let ghost cv = captures_view(caps@);
    let mut i: usize = 0;
    while i < caps.len()
        invariant
            i <= caps@.len(),
            cv == captures_view(caps@),
            exports_view(out@) == exports_view(old(out)@) + brace_exports(cv.subrange(0, i as int)),
        decreases caps@.len() - i,
    {
        assert(cv.subrange(0, i + 1).drop_last() =~= cv.subrange(0, i as int));
        let raw = caps[i].text(1);
        let names = brace_list_to_names(raw.as_str());
        push_named_exports(out, &names, "named");
        assert(exports_view(out@) =~= exports_view(old(out)@) + brace_exports(
            cv.subrange(0, i + 1),
        ));
        i = i + 1;
    }
    assert(cv.subrange(0, caps@.len() as int) =~= cv);
}

/// Builds the record of a script file from the matches of its patterns.
pub fn script_record(content: &str, m: &ScriptMatches, relative: String) -> (r: FileAnalysis)
    requires
        content@.len() < usize::MAX,
    ensures
        r@ == script_file(content@, m@, relative@),
{
    let text = chars_of(content);
    let mut imports = Vec::new();
    push_import_entries(&mut imports, &m.imports, 2, ImportKind::Static);
    push_import_entries(&mut imports, &m.side_effects, 1, ImportKind::SideEffect);
    let mut command_calls = Vec::new();
    push_command_refs(&mut command_calls, &text, &m.safe_invokes, 1);
    push_command_refs(&mut command_calls, &text, &m.invokes, 1);
    push_command_refs(&mut command_calls, &text, &m.audio_invokes, 1);
    push_command_refs(&mut command_calls, &text, &m.snake_invokes, 1);
    let mut reexports = Vec::new();
    push_star_reexports(&mut reexports, &m.reexport_stars);
    push_named_reexports(&mut reexports, &m.reexport_named);
    let mut dynamic_imports = Vec::new();
    push_group_texts(&mut dynamic_imports, &m.dynamic_imports, 1);
    let mut exports = Vec::new();
    push_decl_exports(&mut exports, &m.export_decls);
    push_default_exports(&mut exports, &m.export_defaults);
    push_brace_exports(&mut exports, &m.export_braces);
    push_reexport_exports(&mut exports, &reexports);
    let r = FileAnalysis {
        path: relative,
        loc: 0,
        imports,
        reexports,
        dynamic_imports,
        exports,
        command_calls,
        command_handlers: Vec::new(),
    };
    assert(r@.imports =~= script_file(content@, m@, relative@).imports);
    assert(r@.reexports =~= script_file(content@, m@, relative@).reexports);
    assert(r@.dynamic_imports =~= script_file(content@, m@, relative@).dynamic_imports);
    assert(r@.exports =~= script_file(content@, m@, relative@).exports);
    assert(r@.command_calls =~= script_file(content@, m@, relative@).command_calls);
    assert(r@.command_handlers =~= script_file(content@, m@, relative@).command_handlers);
    r
}

/// Runs every script pattern over `content`.
pub fn script_pattern_matches(content: &str) -> (r: ScriptMatches)
    ensures
        r@ == script_matches(content@),
{
    ScriptMatches {
        imports: find_matches(IMPORT, content),
        side_effects: find_matches(SIDE_EFFECT_IMPORT, content),
        safe_invokes: find_matches(SAFE_INVOKE, content),
        invokes: find_matches(INVOKE, content),
        audio_invokes: find_matches(INVOKE_AUDIO, content),
        snake_invokes: find_matches(INVOKE_SNAKE, content),
        reexport_stars: find_matches(REEXPORT_STAR, content),
        reexport_named: find_matches(REEXPORT_NAMED, content),
        dynamic_imports: find_matches(DYNAMIC_IMPORT, content),
        export_decls: find_matches(EXPORT_NAMED_DECL, content),
        export_defaults: find_matches(EXPORT_DEFAULT, content),
        export_braces: find_matches(EXPORT_BRACE, content),
    }
}

/// Extracts the record of a script file; re-export targets are left
/// unresolved (see `resolve`).
pub fn analyze_js_file(content: &str, relative: String) -> (r: FileAnalysis)
    requires
        content@.len() < usize::MAX,
    ensures
        r@ == script_file(content@, script_matches(content@), relative@),
{
    let m = script_pattern_matches(content);
    script_record(content, &m, relative)
}


/// The local exports of a script (declarations, defaults, export lists)
/// carry no `reexport` kind.
pub proof fn lemma_local_exports_not_reexport(m: ScriptMatchesView)
    ensures
        no_reexport_kind(
            decl_exports(m.export_decls) + default_exports(m.export_defaults) + brace_exports(
                m.export_braces,
            ),
        ),
{
    reveal_strlit("decl");
    reveal_strlit("default");
    reveal_strlit("named");
    reveal_strlit("reexport");
    lemma_decl_kinds(m.export_decls);
    lemma_default_kinds(m.export_defaults);
    lemma_brace_kinds(m.export_braces);
    let a = decl_exports(m.export_decls);
    let b = default_exports(m.export_defaults);
    let c = brace_exports(m.export_braces);
    assert("decl"@.len() != "reexport"@.len());
    assert("default"@.len() != "reexport"@.len());
    assert("named"@.len() != "reexport"@.len());
    assert forall|i: int| 0 <= i < a.len() implies (#[trigger] a[i]).kind != "reexport"@ by {
        assert(a[i].kind == "decl"@);
    }
    assert forall|i: int| 0 <= i < b.len() implies (#[trigger] b[i]).kind != "reexport"@ by {
        assert(b[i].kind == "default"@);
    }
    assert forall|i: int| 0 <= i < c.len() implies (#[trigger] c[i]).kind != "reexport"@ by {
        assert(c[i].kind == "named"@);
    }
    lemma_no_reexport_concat(a, b);
    lemma_no_reexport_concat(a + b, c);
}

proof fn lemma_decl_kinds(caps: Seq<CapView>)
    ensures
        forall|i: int| 0 <= i < decl_exports(caps).len() ==> (#[trigger] decl_exports(caps)[i]).kind == "decl"@,
    decreases caps.len(),
{
    if caps.len() > 0 {
        lemma_decl_kinds(caps.drop_last());
        let rest = decl_exports(caps.drop_last());
        let all = decl_exports(caps);
        assert forall|i: int| 0 <= i < all.len() && i < rest.len() implies #[trigger] all[i] == rest[i] by {}
    }
}

proof fn lemma_default_kinds(caps: Seq<CapView>)
    ensures
        forall|i: int| 0 <= i < default_exports(caps).len() ==> (#[trigger] default_exports(caps)[i]).kind == "default"@,
    decreases caps.len(),
{
    if caps.len() > 0 {
        lemma_default_kinds(caps.drop_last());
        let rest = default_exports(caps.drop_last());
        let all = default_exports(caps);
        assert forall|i: int| 0 <= i < all.len() && i < rest.len() implies #[trigger] all[i] == rest[i] by {}
    }
}

proof fn lemma_brace_kinds(caps: Seq<CapView>)
    ensures
        forall|i: int| 0 <= i < brace_exports(caps).len() ==> (#[trigger] brace_exports(caps)[i]).kind == "named"@,
    decreases caps.len(),
{
    if caps.len() > 0 {
        lemma_brace_kinds(caps.drop_last());
        lemma_named_exports_names(brace_names(group_text(caps.last(), 1)), "named"@);
        let a = brace_exports(caps.drop_last());
        let b = named_exports(brace_names(group_text(caps.last(), 1)), "named"@);
        assert forall|i: int| 0 <= i < (a + b).len() implies (#[trigger] (a + b)[i]).kind == "named"@ by {
            if i >= a.len() {
                assert((a + b)[i] == b[i - a.len()]);
            }
        }
    }
}

} // verus!
