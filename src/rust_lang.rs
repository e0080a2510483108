//! The extractor for Rust modules: `use`, `pub use`, public items and
//! command handlers. Re-exports here are never resolved.
use vstd::prelude::*;

use crate::extract::{
    no_reexport_kind, command_refs, push_command_refs, push_reexport_exports, reexport_exports, CapView,
};
use crate::names::{parse_rust_brace_names, rust_brace_names};
use crate::patterns::{
    captures_view, find_matches, group_text, has_group, matches_of, rust_pub_decl_patterns,
    rust_pub_const_regexes, rust_pub_decl_regexes, Captures, COMMAND_HANDLER_FN, RUST_PUB_USE,
    RUST_USE,
};
use crate::text::{
    after_last, after_last_exec, chars_of, contains, contains_exec, ends_with, ends_with_exec,
    find_exec, find_from, slice_chars, str_views, string_of, strip_trailing, strip_trailing_exec,
    trim, trim_chars,
};
use crate::types::{
    exports_view, imports_view, lemma_exports_push, lemma_imports_push, lemma_reexports_push,
    reexports_view, ExportSymbol, ExportView, FileAnalysis, FileView, ImportEntry, ImportKind,
    ImportView, ReexportEntry, ReexportKind, ReexportKindView, ReexportView,
};

verus! {

/// The matches of every Rust pattern in one file.
pub struct RustMatches {
    pub uses: Vec<Captures>,
    pub pub_uses: Vec<Captures>,
    /// One list per public-item pattern, in the order of `rust_pub_decl_patterns`.
    pub decls: Vec<Vec<Captures>>,
    pub handlers: Vec<Captures>,
}

pub struct RustMatchesView {
    pub uses: Seq<CapView>,
    pub pub_uses: Seq<CapView>,
    pub decls: Seq<Seq<CapView>>,
    pub handlers: Seq<CapView>,
}

pub open spec fn nested_view(v: Seq<Vec<Captures>>) -> Seq<Seq<CapView>> {
    v.map_values(|c: Vec<Captures>| captures_view(c@))
}

impl View for RustMatches {
    type V = RustMatchesView;

    open spec fn view(&self) -> RustMatchesView {
        RustMatchesView {
            uses: captures_view(self.uses@),
            pub_uses: captures_view(self.pub_uses@),
            decls: nested_view(self.decls@),
            handlers: captures_view(self.handlers@),
        }
    }
}

/// The matches of each pattern in turn.
pub open spec fn matches_each(patterns: Seq<Seq<char>>, content: Seq<char>) -> Seq<Seq<CapView>>
    decreases patterns.len(),
{
    if patterns.len() == 0 {
        Seq::empty()
    } else {
        matches_each(patterns.drop_last(), content).push(matches_of(patterns.last(), content))
    }
}

pub open spec fn rust_matches(content: Seq<char>) -> RustMatchesView {
    RustMatchesView {
        uses: matches_of(RUST_USE@, content),
        pub_uses: matches_of(RUST_PUB_USE@, content),
        decls: matches_each(rust_pub_decl_patterns(), content),
        handlers: matches_of(COMMAND_HANDLER_FN@, content),
    }
}

/// `use path;`: a static import of the trimmed path, when it is not blank.
pub open spec fn use_imports(caps: Seq<CapView>) -> Seq<ImportView>
    decreases caps.len(),
{
    if caps.len() == 0 {
        Seq::empty()
    } else {
        let rest = use_imports(caps.drop_last());
        let src = trim(group_text(caps.last(), 1));
        if src.len() > 0 {
            rest.push(ImportView { source: src, kind: ImportKind::Static })
        } else {
            rest
        }
    }
}

/// The re-export that one `pub use` body gives: a brace list, a glob, or a
/// single item (its alias, else its last path segment).
pub open spec fn pub_use_entry(body: Seq<char>) -> Option<ReexportView> {
    let raw = trim(body);
    if raw.len() == 0 {
        None
    } else if contains(raw, "{"@) && contains(raw, "}"@) {
        let k = match find_from(raw, "{"@, 0) {
            Some(k) => k,
            None => 0,
        };
        let braces = trim(strip_trailing(raw.subrange(k + 1, raw.len() as int), '}'));
        Some(
            ReexportView {
                source: raw,
                kind: ReexportKindView::Named(rust_brace_names(braces)),
                resolved: None,
            },
        )
    } else if ends_with(raw, "::*"@) {
        Some(ReexportView { source: raw, kind: ReexportKindView::Star, resolved: None })
    } else {
        match find_from(raw, " as "@, 0) {
            Some(k) => Some(
                ReexportView {
                    source: trim(raw.subrange(0, k)),
                    kind: ReexportKindView::Named(
                        seq![trim(raw.subrange(k + " as "@.len(), raw.len() as int))],
                    ),
                    resolved: None,
                },
            ),
            None => Some(
                ReexportView {
                    source: raw,
                    kind: ReexportKindView::Named(seq![trim(after_last(raw, "::"@))]),
                    resolved: None,
                },
            ),
        }
    }
}

pub open spec fn pub_use_reexports(caps: Seq<CapView>) -> Seq<ReexportView>
    decreases caps.len(),
{
    if caps.len() == 0 {
        Seq::empty()
    } else {
        let rest = pub_use_reexports(caps.drop_last());
        match pub_use_entry(group_text(caps.last(), 1)) {
            Some(e) => rest.push(e),
            None => rest,
        }
    }
}

/// A `decl` export for each match whose name group took part.
pub open spec fn item_exports(caps: Seq<CapView>) -> Seq<ExportView>
    decreases caps.len(),
{
    if caps.len() == 0 {
        Seq::empty()
    } else {
        let rest = item_exports(caps.drop_last());
        if has_group(caps.last(), 1) {
            rest.push(ExportView { name: group_text(caps.last(), 1), kind: "decl"@ })
        } else {
            rest
        }
    }
}

pub open spec fn decl_exports_each(decls: Seq<Seq<CapView>>) -> Seq<ExportView>
    decreases decls.len(),
{
    if decls.len() == 0 {
        Seq::empty()
    } else {
        decl_exports_each(decls.drop_last()) + item_exports(decls.last())
    }
}

/// The record of a Rust module, given what its patterns matched.
pub open spec fn rust_file(content: Seq<char>, m: RustMatchesView, path: Seq<char>) -> FileView {
    FileView {
        path,
        loc: 0,
        imports: use_imports(m.uses),
        reexports: pub_use_reexports(m.pub_uses),
        dynamic_imports: Seq::empty(),
        exports: reexport_exports(pub_use_reexports(m.pub_uses)) + decl_exports_each(m.decls),
        command_calls: Seq::empty(),
        command_handlers: command_refs(content, m.handlers, 2),
    }
}

fn push_use_imports(out: &mut Vec<ImportEntry>, caps: &Vec<Captures>)
    ensures
        imports_view(final(out)@) == imports_view(old(out)@) + use_imports(captures_view(caps@)),
{
    let ghost cv = captures_view(caps@);
    let mut i: usize = 0;
    while i < caps.len()
        invariant
            i <= caps@.len(),
            cv == captures_view(caps@),
            imports_view(out@) == imports_view(old(out)@) + use_imports(cv.subrange(0, i as int)),
        decreases caps@.len() - i,
    {
        assert(cv.subrange(0, i + 1).drop_last() =~= cv.subrange(0, i as int));
        let raw = caps[i].text(1);
        let t = trim_chars(&chars_of(raw.as_str()));
        if t.len() > 0 {
            let e = ImportEntry { source: string_of(&t), kind: ImportKind::Static };
            let ghost prev = out@;
            out.push(e);
            proof {
                lemma_imports_push(prev, e);
            }
        }
        i = i + 1;
    }
    assert(cv.subrange(0, caps@.len() as int) =~= cv);
}

fn pub_use_entry_exec(body: &String) -> (r: Option<ReexportEntry>)
    ensures
        match r {
            Some(e) => pub_use_entry(body@) == Some(e@),
            None => pub_use_entry(body@) is None,
        },
{
    let raw = trim_chars(&chars_of(body.as_str()));
    if raw.len() == 0 {
        return None;
    }
    let source = string_of(&raw);
    if contains_exec(&raw, "{") && contains_exec(&raw, "}") {
        let open = chars_of("{");
        let n = raw.len();
        proof {
            reveal_strlit("{");
        }
        assert(open@.len() == 1);
        let k = match find_exec(&raw, &open, 0) {
            Some(k) => k,
            None => 0,
        };
        let rest = slice_chars(&raw, k + 1, n);
        let braces = trim_chars(&strip_trailing_exec(&rest, '}'));
        let names = parse_rust_brace_names(string_of(&braces).as_str());
        return Some(ReexportEntry { source, kind: ReexportKind::Named(names), resolved: None });
    }
    if ends_with_exec(&raw, "::*") {
        return Some(ReexportEntry { source, kind: ReexportKind::Star, resolved: None });
    }
    let sep = chars_of(" as ");
    let n = raw.len();
    match find_exec(&raw, &sep, 0) {
        Some(k) => {
            let path = trim_chars(&slice_chars(&raw, 0, k));
            let alias = trim_chars(&slice_chars(&raw, k + sep.len(), n));
            let names = vec![string_of(&alias)];
            assert(str_views(names@) =~= seq![alias@]);
            Some(
                ReexportEntry {
                    source: string_of(&path),
                    kind: ReexportKind::Named(names),
                    resolved: None,
                },
            )
        },
        None => {
            let last = trim_chars(&after_last_exec(&raw, "::"));
            let names = vec![string_of(&last)];
            assert(str_views(names@) =~= seq![last@]);
            Some(ReexportEntry { source, kind: ReexportKind::Named(names), resolved: None })
        },
    }
}

fn push_pub_use_reexports(out: &mut Vec<ReexportEntry>, caps: &Vec<Captures>)
    ensures
        reexports_view(final(out)@) == reexports_view(old(out)@) + pub_use_reexports(
            captures_view(caps@),
        ),
{
    let ghost cv = captures_view(caps@);
    let mut i: usize = 0;
    while i < caps.len()
        invariant
            i <= caps@.len(),
            cv == captures_view(caps@),
            reexports_view(out@) == reexports_view(old(out)@) + pub_use_reexports(
                cv.subrange(0, i as int),
            ),
        decreases caps@.len() - i,
    {
        assert(cv.subrange(0, i + 1).drop_last() =~= cv.subrange(0, i as int));
        let body = caps[i].text(1);
        match pub_use_entry_exec(&body) {
            Some(e) => {
                let ghost prev = out@;
                out.push(e);
                proof {
                    lemma_reexports_push(prev, e);
                }
            },
            None => {},
        }
        i = i + 1;
    }
    assert(cv.subrange(0, caps@.len() as int) =~= cv);
}

fn push_item_exports(out: &mut Vec<ExportSymbol>, caps: &Vec<Captures>)
    ensures
        exports_view(final(out)@) == exports_view(old(out)@) + item_exports(captures_view(caps@)),
{
    let ghost cv = captures_view(caps@);
    let mut i: usize = 0;
    while i < caps.len()
        invariant
            i <= caps@.len(),
            cv == captures_view(caps@),
            exports_view(out@) == exports_view(old(out)@) + item_exports(cv.subrange(0, i as int)),
        decreases caps@.len() - i,
    {
        assert(cv.subrange(0, i + 1).drop_last() =~= cv.subrange(0, i as int));
        if caps[i].has(1) {
            let e = ExportSymbol { name: caps[i].text(1), kind: "decl".to_owned() };
            let ghost prev = out@;
            out.push(e);
            proof {
                lemma_exports_push(prev, e);
            }
        }
        i = i + 1;
    }
    assert(cv.subrange(0, caps@.len() as int) =~= cv);
}

/// Builds the record of a Rust module from the matches of its patterns.
pub fn rust_record(content: &str, m: &RustMatches, relative: String) -> (r: FileAnalysis)
    requires
        content@.len() < usize::MAX,
    ensures
        r@ == rust_file(content@, m@, relative@),
{
    let text = chars_of(content);
    let mut imports = Vec::new();
    push_use_imports(&mut imports, &m.uses);
    let mut reexports = Vec::new();
    push_pub_use_reexports(&mut reexports, &m.pub_uses);
    let mut exports = Vec::new();
    push_reexport_exports(&mut exports, &reexports);
    let ghost dv = nested_view(m.decls@);
    let mut i: usize = 0;
    while i < m.decls.len()
        invariant
            i <= m.decls@.len(),
            dv == nested_view(m.decls@),
            exports_view(exports@) == reexport_exports(reexports_view(reexports@))
                + decl_exports_each(dv.subrange(0, i as int)),
        decreases m.decls@.len() - i,
    {
        assert(dv.subrange(0, i + 1).drop_last() =~= dv.subrange(0, i as int));
        assert(dv[i as int] == captures_view(m.decls@[i as int]@));
        push_item_exports(&mut exports, &m.decls[i]);
        i = i + 1;
    }
    assert(dv.subrange(0, m.decls@.len() as int) =~= dv);
    let mut command_handlers = Vec::new();
    push_command_refs(&mut command_handlers, &text, &m.handlers, 2);
    let r = FileAnalysis {
        path: relative,
        loc: 0,
        imports,
        reexports,
        dynamic_imports: Vec::new(),
        exports,
        command_calls: Vec::new(),
        command_handlers,
    };
    assert(r@.imports =~= rust_file(content@, m@, relative@).imports);
    assert(r@.dynamic_imports =~= Seq::empty());
    assert(r@.command_calls =~= Seq::empty());
    assert(r@.command_handlers =~= rust_file(content@, m@, relative@).command_handlers);
    r
}

/// Runs every Rust pattern over `content`.
pub fn rust_pattern_matches(content: &str) -> (r: RustMatches)
    ensures
        r@ == rust_matches(content@),
{
    let mut pats = rust_pub_decl_regexes();
    let mut consts = rust_pub_const_regexes();
    let ghost items = str_views(pats@);
    let ghost prev = pats@;
    pats.append(&mut consts);
    let ghost pv = str_views(pats@);
    assert(pv =~= rust_pub_decl_patterns());
    let mut decls: Vec<Vec<Captures>> = Vec::new();
    let mut i: usize = 0;
    while i < pats.len()
        invariant
            i <= pats@.len(),
            pv == str_views(pats@),
            nested_view(decls@) == matches_each(pv.subrange(0, i as int), content@),
        decreases pats@.len() - i,
    {
        assert(pv.subrange(0, i + 1).drop_last() =~= pv.subrange(0, i as int));
        let caps = find_matches(pats[i].as_str(), content);
        let ghost prev = decls@;
        decls.push(caps);
        assert(nested_view(decls@) =~= nested_view(prev).push(captures_view(caps@)));
        i = i + 1;
    }
    assert(pv.subrange(0, pats@.len() as int) =~= pv);
    RustMatches {
        uses: find_matches(RUST_USE, content),
        pub_uses: find_matches(RUST_PUB_USE, content),
        decls,
        handlers: find_matches(COMMAND_HANDLER_FN, content),
    }
}

/// Extracts the record of a Rust module.
pub fn analyze_rust_file(content: &str, relative: String) -> (r: FileAnalysis)
    requires
        content@.len() < usize::MAX,
    ensures
        r@ == rust_file(content@, rust_matches(content@), relative@),
{
    let m = rust_pattern_matches(content);
    rust_record(content, &m, relative)
}


/// The declaration exports of a Rust module carry no `reexport` kind.
pub proof fn lemma_decl_exports_not_reexport(decls: Seq<Seq<CapView>>)
    ensures
        no_reexport_kind(decl_exports_each(decls)),
    decreases decls.len(),
{
    reveal_strlit("decl");
    reveal_strlit("reexport");
    if decls.len() > 0 {
        lemma_decl_exports_not_reexport(decls.drop_last());
        lemma_item_kinds(decls.last());
        let a = decl_exports_each(decls.drop_last());
        let b = item_exports(decls.last());
        assert forall|i: int| 0 <= i < (a + b).len() implies (#[trigger] (a + b)[i]).kind != "reexport"@ by {
            if i >= a.len() {
                assert("decl"@.len() != "reexport"@.len());
                assert((a + b)[i] == b[i - a.len()]);
                assert(b[i - a.len()].kind == "decl"@);
            } else {
                assert((a + b)[i] == a[i]);
            }
        }
    }
}

proof fn lemma_item_kinds(caps: Seq<CapView>)
    ensures
        forall|i: int| 0 <= i < item_exports(caps).len() ==> (#[trigger] item_exports(caps)[i]).kind == "decl"@,
    decreases caps.len(),
{
    if caps.len() > 0 {
        lemma_item_kinds(caps.drop_last());
        let rest = item_exports(caps.drop_last());
        let all = item_exports(caps);
        assert forall|i: int| 0 <= i < all.len() && i < rest.len() implies #[trigger] all[i] == rest[i] by {}
    }
}

} // verus!
