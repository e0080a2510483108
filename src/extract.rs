//! Building blocks shared by the per-language extractors: turning the matches
//! of one pattern into record entries.
use vstd::prelude::*;

use crate::patterns::{captures_view, group_start, group_text, has_group, line_at, Captures};
use crate::text::{lemma_str_views_push, str_views};
use crate::types::{
    commands_view, exports_view, imports_view, lemma_commands_push, lemma_exports_push,
    lemma_imports_push, CommandRef, CommandView, ExportSymbol, ExportView, ImportEntry,
    ImportKind, ImportView, ReexportEntry, ReexportKind, ReexportKindView, ReexportView,
    reexports_view,
};

verus! {

/// The groups of one match.
pub type CapView = Seq<Option<(Seq<char>, usize)>>;

/// One import of `kind` per match, its source being group `g`.
pub open spec fn import_entries(caps: Seq<CapView>, g: int, kind: ImportKind) -> Seq<ImportView>
    decreases caps.len(),
{
    if caps.len() == 0 {
        Seq::empty()
    } else {
        import_entries(caps.drop_last(), g, kind).push(
            ImportView { source: group_text(caps.last(), g), kind },
        )
    }
}

/// The text of group `g` of each match.
pub open spec fn group_texts(caps: Seq<CapView>, g: int) -> Seq<Seq<char>>
    decreases caps.len(),
{
    if caps.len() == 0 {
        Seq::empty()
    } else {
        group_texts(caps.drop_last(), g).push(group_text(caps.last(), g))
    }
}

/// One command reference per match where group `g` took part: its text, and
/// the line of `content` on which it starts.
pub open spec fn command_refs(content: Seq<char>, caps: Seq<CapView>, g: int) -> Seq<CommandView>
    decreases caps.len(),
{
    if caps.len() == 0 {
        Seq::empty()
    } else {
        let rest = command_refs(content, caps.drop_last(), g);
        let c = caps.last();
        if has_group(c, g) {
            rest.push(
                CommandView {
                    name: group_text(c, g),
                    line: line_at(content, group_start(c, g) as int),
                },
            )
        } else {
            rest
        }
    }
}

/// One export of `kind` per name.
pub open spec fn named_exports(names: Seq<Seq<char>>, kind: Seq<char>) -> Seq<ExportView>
    decreases names.len(),
{
    if names.len() == 0 {
        Seq::empty()
    } else {
        named_exports(names.drop_last(), kind).push(ExportView { name: names.last(), kind })
    }
}

/// The `reexport` exports that the named re-exports of a file imply.
pub open spec fn reexport_exports(res: Seq<ReexportView>) -> Seq<ExportView>
    decreases res.len(),
{
    if res.len() == 0 {
        Seq::empty()
    } else {
        let rest = reexport_exports(res.drop_last());
        match res.last().kind {
            ReexportKindView::Named(names) => rest + named_exports(names, "reexport"@),
            ReexportKindView::Star => rest,
        }
    }
}

pub proof fn lemma_named_exports_contain(names: Seq<Seq<char>>, kind: Seq<char>, j: int)
    requires
        0 <= j < names.len(),
    ensures
        named_exports(names, kind).contains(ExportView { name: names[j], kind }),
    decreases names.len(),
{
    if j == names.len() - 1 {
        assert(named_exports(names, kind).last() == ExportView { name: names[j], kind });
    } else {
        lemma_named_exports_contain(names.drop_last(), kind, j);
        let e = ExportView { name: names[j], kind };
        let k = choose|k: int|
            0 <= k < named_exports(names.drop_last(), kind).len() && named_exports(
                names.drop_last(),
                kind,
            )[k] == e;
        assert(named_exports(names, kind)[k] == e);
    }
}

/// Every name of a named re-export is among the `reexport` exports.
pub proof fn lemma_reexport_exports_contain(res: Seq<ReexportView>, i: int, j: int)
    requires
        0 <= i < res.len(),
        res[i].kind is Named,
        0 <= j < res[i].kind->Named_0.len(),
    ensures
        reexport_exports(res).contains(
            ExportView { name: res[i].kind->Named_0[j], kind: "reexport"@ },
        ),
    decreases res.len(),
{
    let e = ExportView { name: res[i].kind->Named_0[j], kind: "reexport"@ };
    let rest = reexport_exports(res.drop_last());
    if i == res.len() - 1 {
        let names = res[i].kind->Named_0;
        lemma_named_exports_contain(names, "reexport"@, j);
        let k = choose|k: int|
            0 <= k < named_exports(names, "reexport"@).len() && named_exports(
                names,
                "reexport"@,
            )[k] == e;
        assert(reexport_exports(res) == rest + named_exports(names, "reexport"@));
        assert(reexport_exports(res)[rest.len() + k] == e);
    } else {
        lemma_reexport_exports_contain(res.drop_last(), i, j);
        let k = choose|k: int| 0 <= k < rest.len() && rest[k] == e;
        match res.last().kind {
            ReexportKindView::Named(names) => {
                assert(reexport_exports(res)[k] == e);
            },
            ReexportKindView::Star => {
                assert(reexport_exports(res)[k] == e);
            },
        }
    }
}

pub fn push_import_entries(
    out: &mut Vec<ImportEntry>,
    caps: &Vec<Captures>,
    g: usize,
    kind: ImportKind,
)
    ensures
        imports_view(final(out)@) == imports_view(old(out)@) + import_entries(
            captures_view(caps@),
            g as int,
            kind,
        ),
{
    let ghost cv = captures_view(caps@);
    let mut i: usize = 0;
    while i < caps.len()
        invariant
            i <= caps@.len(),
            cv == captures_view(caps@),
            imports_view(out@) == imports_view(old(out)@) + import_entries(
                cv.subrange(0, i as int),
                g as int,
                kind,
            ),
        decreases caps@.len() - i,
    {
        assert(cv.subrange(0, i + 1).drop_last() =~= cv.subrange(0, i as int));
        let source = caps[i].text(g);
        let e = ImportEntry { source, kind };
        let ghost prev = out@;
        out.push(e);
        proof {
            lemma_imports_push(prev, e);
        }
        i = i + 1;
    }
    assert(cv.subrange(0, caps@.len() as int) =~= cv);
}

pub fn push_group_texts(out: &mut Vec<String>, caps: &Vec<Captures>, g: usize)
    ensures
        str_views(final(out)@) == str_views(old(out)@) + group_texts(captures_view(caps@), g as int),
{
    let ghost cv = captures_view(caps@);
    let mut i: usize = 0;
    while i < caps.len()
        invariant
            i <= caps@.len(),
            cv == captures_view(caps@),
            str_views(out@) == str_views(old(out)@) + group_texts(cv.subrange(0, i as int), g as int),
        decreases caps@.len() - i,
    {
        assert(cv.subrange(0, i + 1).drop_last() =~= cv.subrange(0, i as int));
        let s = caps[i].text(g);
        let ghost prev = out@;
        out.push(s);
        proof {
            lemma_str_views_push(prev, s);
        }
        i = i + 1;
    }
    assert(cv.subrange(0, caps@.len() as int) =~= cv);
}

pub fn push_command_refs(out: &mut Vec<CommandRef>, content: &Vec<char>, caps: &Vec<Captures>, g: usize)
    requires
        content@.len() < usize::MAX,
    ensures
        commands_view(final(out)@) == commands_view(old(out)@) + command_refs(
            content@,
            captures_view(caps@),
            g as int,
        ),
{
    let ghost cv = captures_view(caps@);
    let mut i: usize = 0;
    while i < caps.len()
        invariant
            i <= caps@.len(),
            content@.len() < usize::MAX,
            cv == captures_view(caps@),
            commands_view(out@) == commands_view(old(out)@) + command_refs(
                content@,
                cv.subrange(0, i as int),
                g as int,
            ),
        decreases caps@.len() - i,
    {
        assert(cv.subrange(0, i + 1).drop_last() =~= cv.subrange(0, i as int));
        if caps[i].has(g) {
            let name = caps[i].text(g);
            let line = crate::patterns::offset_to_line(content, caps[i].start(g));
            let e = CommandRef { name, line };
            let ghost prev = out@;
            out.push(e);
            proof {
                lemma_commands_push(prev, e);
            }
        }
        i = i + 1;
    }
    assert(cv.subrange(0, caps@.len() as int) =~= cv);
}

pub fn push_named_exports(out: &mut Vec<ExportSymbol>, names: &Vec<String>, kind: &str)
    ensures
        exports_view(final(out)@) == exports_view(old(out)@) + named_exports(
            str_views(names@),
            kind@,
        ),
{
    let ghost nv = str_views(names@);
    let mut i: usize = 0;
    while i < names.len()
        invariant
            i <= names@.len(),
            nv == str_views(names@),
            exports_view(out@) == exports_view(old(out)@) + named_exports(
                nv.subrange(0, i as int),
                kind@,
            ),
        decreases names@.len() - i,
    {
        assert(nv.subrange(0, i + 1).drop_last() =~= nv.subrange(0, i as int));
        let e = ExportSymbol { name: names[i].clone(), kind: kind.to_owned() };
        let ghost prev = out@;
        out.push(e);
        proof {
            lemma_exports_push(prev, e);
        }
        i = i + 1;
    }
    assert(nv.subrange(0, names@.len() as int) =~= nv);
}

pub fn push_reexport_exports(out: &mut Vec<ExportSymbol>, res: &Vec<ReexportEntry>)
    ensures
        exports_view(final(out)@) == exports_view(old(out)@) + reexport_exports(
            reexports_view(res@),
        ),
{
    let ghost rv = reexports_view(res@);
    let mut i: usize = 0;
    while i < res.len()
        invariant
            i <= res@.len(),
            rv == reexports_view(res@),
            exports_view(out@) == exports_view(old(out)@) + reexport_exports(
                rv.subrange(0, i as int),
            ),
        decreases res@.len() - i,
    {
        assert(rv.subrange(0, i + 1).drop_last() =~= rv.subrange(0, i as int));
        match &res[i].kind {
            ReexportKind::Named(names) => {
                push_named_exports(out, names, "reexport");
            },
            ReexportKind::Star => {},
        }
        i = i + 1;
    }
    assert(rv.subrange(0, res@.len() as int) =~= rv);
}


/// The names of the exports of `kind`, in order.
pub open spec fn names_of_kind(ex: Seq<ExportView>, kind: Seq<char>) -> Seq<Seq<char>>
    decreases ex.len(),
{
    if ex.len() == 0 {
        Seq::empty()
    } else if ex.last().kind == kind {
        names_of_kind(ex.drop_last(), kind).push(ex.last().name)
    } else {
        names_of_kind(ex.drop_last(), kind)
    }
}

/// The names inside the named re-exports, in order.
pub open spec fn named_reexport_names(res: Seq<ReexportView>) -> Seq<Seq<char>>
    decreases res.len(),
{
    if res.len() == 0 {
        Seq::empty()
    } else {
        match res.last().kind {
            ReexportKindView::Named(names) => named_reexport_names(res.drop_last()) + names,
            ReexportKindView::Star => named_reexport_names(res.drop_last()),
        }
    }
}

/// No export in `ex` has kind `reexport`.
pub open spec fn no_reexport_kind(ex: Seq<ExportView>) -> bool {
    forall|i: int| 0 <= i < ex.len() ==> (#[trigger] ex[i]).kind != "reexport"@
}

pub proof fn lemma_names_of_kind_add(a: Seq<ExportView>, b: Seq<ExportView>, kind: Seq<char>)
    ensures
        names_of_kind(a + b, kind) == names_of_kind(a, kind) + names_of_kind(b, kind),
    decreases b.len(),
{
    if b.len() == 0 {
        assert(a + b =~= a);
        assert(names_of_kind(a, kind) + Seq::empty() =~= names_of_kind(a, kind));
    } else {
        lemma_names_of_kind_add(a, b.drop_last(), kind);
        assert((a + b).drop_last() =~= a + b.drop_last());
        let n = b.last().name;
        assert(names_of_kind(a, kind) + names_of_kind(b.drop_last(), kind).push(n)
            =~= (names_of_kind(a, kind) + names_of_kind(b.drop_last(), kind)).push(n));
    }
}

pub proof fn lemma_no_reexport_names(ex: Seq<ExportView>)
    requires
        no_reexport_kind(ex),
    ensures
        names_of_kind(ex, "reexport"@) == Seq::<Seq<char>>::empty(),
    decreases ex.len(),
{
    if ex.len() > 0 {
        assert(no_reexport_kind(ex.drop_last()));
        lemma_no_reexport_names(ex.drop_last());
        assert(ex[ex.len() - 1].kind != "reexport"@);
    }
}

pub proof fn lemma_named_exports_names(names: Seq<Seq<char>>, kind: Seq<char>)
    ensures
        names_of_kind(named_exports(names, kind), kind) == names,
        forall|i: int|
            0 <= i < named_exports(names, kind).len() ==> (#[trigger] named_exports(
                names,
                kind,
            )[i]).kind == kind,
    decreases names.len(),
{
    if names.len() > 0 {
        lemma_named_exports_names(names.drop_last(), kind);
        let rest = named_exports(names.drop_last(), kind);
        let all = named_exports(names, kind);
        assert(all.drop_last() =~= rest);
        assert(names.drop_last().push(names.last()) =~= names);
        assert forall|i: int| 0 <= i < all.len() implies (#[trigger] all[i]).kind == kind by {
            if i < rest.len() {
                assert(all[i] == rest[i]);
            }
        }
    }
}

/// The `reexport` exports name exactly the names inside the named re-exports, in order.
pub proof fn lemma_reexport_exports_names(res: Seq<ReexportView>)
    ensures
        names_of_kind(reexport_exports(res), "reexport"@) == named_reexport_names(res),
    decreases res.len(),
{
    if res.len() > 0 {
        lemma_reexport_exports_names(res.drop_last());
        match res.last().kind {
            ReexportKindView::Named(names) => {
                lemma_names_of_kind_add(
                    reexport_exports(res.drop_last()),
                    named_exports(names, "reexport"@),
                    "reexport"@,
                );
                lemma_named_exports_names(names, "reexport"@);
            },
            ReexportKindView::Star => {},
        }
    }
}

/// Exports of a kind other than `reexport` have no `reexport` kind.
pub proof fn lemma_named_exports_other_kind(names: Seq<Seq<char>>, kind: Seq<char>)
    requires
        kind != "reexport"@,
    ensures
        no_reexport_kind(named_exports(names, kind)),
{
    lemma_named_exports_names(names, kind);
}


pub proof fn lemma_no_reexport_concat(a: Seq<ExportView>, b: Seq<ExportView>)
    requires
        no_reexport_kind(a),
        no_reexport_kind(b),
    ensures
        no_reexport_kind(a + b),
{
    assert forall|i: int| 0 <= i < (a + b).len() implies (#[trigger] (a + b)[i]).kind != "reexport"@ by {
        if i < a.len() {
            assert((a + b)[i] == a[i]);
        } else {
            assert((a + b)[i] == b[i - a.len()]);
        }
    }
}

} // verus!
