//! The cross-file aggregator: the export index, ranked duplicate exports,
//! re-export cascades and dynamic-import summaries of one analysis root.
use vstd::prelude::*;

use crate::order::{insert_sorted, strictly_sorted};
use crate::text::{chars_of, contains, contains_exec, lemma_str_views_push, str_views};
use crate::types::{ExportView, FileAnalysis, FileView, ReexportView};

verus! {

pub open spec fn files_view(v: Seq<FileAnalysis>) -> Seq<FileView> {
    v.map_values(|a: FileAnalysis| a@)
}

/// A path that follows test or story naming conventions.
pub open spec fn is_dev_path(p: Seq<char>) -> bool {
    contains(p, "__tests__"@) || contains(p, "stories"@) || contains(p, ".stories."@) || contains(
        p,
        "story."@,
    )
}

/// Whether `path` names a development file (tests, stories).
pub fn is_dev_file(path: &str) -> (r: bool)
    ensures
        r == is_dev_path(path@),
{
    let p = chars_of(path);
    contains_exec(&p, "__tests__") || contains_exec(&p, "stories") || contains_exec(
        &p,
        ".stories.",
    ) || contains_exec(&p, "story.")
}

/// The distinct values of `s`, in order of first appearance.
pub open spec fn dedup(s: Seq<Seq<char>>) -> Seq<Seq<char>>
    decreases s.len(),
{
    if s.len() == 0 {
        Seq::empty()
    } else {
        let d = dedup(s.drop_last());
        if d.contains(s.last()) {
            d
        } else {
            d.push(s.last())
        }
    }
}

/// The names of a sequence of exports.
pub open spec fn export_names(exports: Seq<ExportView>) -> Seq<Seq<char>>
    decreases exports.len(),
{
    if exports.len() == 0 {
        Seq::empty()
    } else {
        export_names(exports.drop_last()).push(exports.last().name)
    }
}

/// Every exported name of every file, in processing order.
pub open spec fn all_export_names(files: Seq<FileView>) -> Seq<Seq<char>>
    decreases files.len(),
{
    if files.len() == 0 {
        Seq::empty()
    } else {
        all_export_names(files.drop_last()) + export_names(files.last().exports)
    }
}

/// The distinct files that export `name`, in processing order.
pub open spec fn owners(files: Seq<FileView>, name: Seq<char>) -> Seq<Seq<char>>
    decreases files.len(),
{
    if files.len() == 0 {
        Seq::empty()
    } else {
        let o = owners(files.drop_last(), name);
        let f = files.last();
        if export_names(f.exports).contains(name) && !o.contains(f.path) {
            o.push(f.path)
        } else {
            o
        }
    }
}

/// The export index: each exported name, in order of first appearance, with
/// the files that export it.
pub open spec fn index_of(files: Seq<FileView>, names: Seq<Seq<char>>) -> Seq<
    (Seq<char>, Seq<Seq<char>>),
>
    decreases names.len(),
{
    if names.len() == 0 {
        Seq::empty()
    } else {
        index_of(files, names.drop_last()).push((names.last(), owners(files, names.last())))
    }
}

pub open spec fn export_index(files: Seq<FileView>) -> Seq<(Seq<char>, Seq<Seq<char>>)> {
    index_of(files, dedup(all_export_names(files)))
}

/// One entry of the export index.
pub struct IndexEntry {
    pub name: String,
    pub files: Vec<String>,
}

impl View for IndexEntry {
    type V = (Seq<char>, Seq<Seq<char>>);

    open spec fn view(&self) -> (Seq<char>, Seq<Seq<char>>) {
        (self.name@, str_views(self.files@))
    }
}

pub open spec fn entries_view(v: Seq<IndexEntry>) -> Seq<(Seq<char>, Seq<Seq<char>>)> {
    v.map_values(|e: IndexEntry| e@)
}

pub proof fn lemma_owners_len(files: Seq<FileView>, name: Seq<char>)
    ensures
        owners(files, name).len() <= files.len(),
    decreases files.len(),
{
    if files.len() > 0 {
        lemma_owners_len(files.drop_last(), name);
    }
}

pub proof fn lemma_owners_distinct(files: Seq<FileView>, name: Seq<char>)
    ensures
        owners(files, name).no_duplicates(),
    decreases files.len(),
{
    if files.len() > 0 {
        lemma_owners_distinct(files.drop_last(), name);
    }
}

/// Whether `v` holds a string equal to `s`.
pub fn contains_string(v: &Vec<String>, s: &String) -> (r: bool)
    ensures
        r == str_views(v@).contains(s@),
{
    let mut i: usize = 0;
    while i < v.len()
        invariant
            i <= v@.len(),
            forall|k: int| 0 <= k < i ==> v@[k]@ != s@,
        decreases v@.len() - i,
    {
        if v[i] == *s {
            assert(str_views(v@)[i as int] == s@);
            return true;
        }
        i = i + 1;
    }
    assert(!str_views(v@).contains(s@)) by {
        if str_views(v@).contains(s@) {
            let k = choose|k: int| 0 <= k < v@.len() && str_views(v@)[k] == s@;
            assert(v@[k]@ == s@);
        }
    }
    false
}

fn exports_name(f: &FileAnalysis, name: &String) -> (r: bool)
    ensures
        r == export_names(f@.exports).contains(name@),
{
    let mut i: usize = 0;
    let ghost ev = f@.exports;
    while i < f.exports.len()
        invariant
            i <= f.exports@.len(),
            ev == f@.exports,
            !export_names(ev.subrange(0, i as int)).contains(name@),
        decreases f.exports@.len() - i,
    {
        assert(ev.subrange(0, i + 1).drop_last() =~= ev.subrange(0, i as int));
        if f.exports[i].name == *name {
            assert(export_names(ev.subrange(0, i + 1)).last() == name@);
            proof {
                lemma_export_names_prefix(ev, i as int + 1);
            }
            assert(export_names(ev)[i as int] == name@);
            return true;
        }
        i = i + 1;
    }
    assert(ev.subrange(0, ev.len() as int) =~= ev);
    false
}

proof fn lemma_export_names_prefix(ev: Seq<ExportView>, k: int)
    requires
        0 <= k <= ev.len(),
    ensures
        export_names(ev.subrange(0, k)) == export_names(ev).subrange(0, k),
        export_names(ev).len() == ev.len(),
    decreases ev.len(),
{
    if ev.len() > 0 {
        lemma_export_names_prefix(ev.drop_last(), if k == ev.len() {
            k - 1
        } else {
            k
        });
        if k == ev.len() {
            assert(ev.subrange(0, k) =~= ev);
            assert(export_names(ev).subrange(0, k) =~= export_names(ev));
        } else {
            assert(ev.drop_last().subrange(0, k) =~= ev.subrange(0, k));
            assert(export_names(ev).subrange(0, k) =~= export_names(ev.drop_last()).subrange(0, k));
        }
    }
}

fn owners_exec(files: &Vec<FileAnalysis>, name: &String) -> (r: Vec<String>)
    ensures
        str_views(r@) == owners(files_view(files@), name@),
{
    let ghost fv = files_view(files@);
    let mut out: Vec<String> = Vec::new();
    let mut i: usize = 0;
    while i < files.len()
        invariant
            i <= files@.len(),
            fv == files_view(files@),
            str_views(out@) == owners(fv.subrange(0, i as int), name@),
        decreases files@.len() - i,
    {
        assert(fv.subrange(0, i + 1).drop_last() =~= fv.subrange(0, i as int));
        if exports_name(&files[i], name) && !contains_string(&out, &files[i].path) {
            let ghost prev = out@;
            out.push(files[i].path.clone());
            proof {
                lemma_str_views_push(prev, files@[i as int].path);
            }
        }
        i = i + 1;
    }
    assert(fv.subrange(0, files@.len() as int) =~= fv);
    out
}

fn all_export_names_exec(files: &Vec<FileAnalysis>) -> (r: Vec<String>)
    ensures
        str_views(r@) == all_export_names(files_view(files@)),
{
    let ghost fv = files_view(files@);
    let mut out: Vec<String> = Vec::new();
    let mut i: usize = 0;
    while i < files.len()
        invariant
            i <= files@.len(),
            fv == files_view(files@),
            str_views(out@) == all_export_names(fv.subrange(0, i as int)),
        decreases files@.len() - i,
    {
        assert(fv.subrange(0, i + 1).drop_last() =~= fv.subrange(0, i as int));
        let ghost base = str_views(out@);
        let ghost ev = fv[i as int].exports;
        let mut k: usize = 0;
        while k < files[i].exports.len()
            invariant
                i < files@.len(),
                fv == files_view(files@),
                ev == fv[i as int].exports,
                k <= ev.len(),
                str_views(out@) == base + export_names(ev.subrange(0, k as int)),
            decreases ev.len() - k,
        {
            assert(ev.subrange(0, k + 1).drop_last() =~= ev.subrange(0, k as int));
            let ghost prev = out@;
            out.push(files[i].exports[k].name.clone());
            proof {
                lemma_str_views_push(prev, files@[i as int].exports@[k as int].name);
            }
            k = k + 1;
        }
        assert(ev.subrange(0, ev.len() as int) =~= ev);
        i = i + 1;
    }
    assert(fv.subrange(0, files@.len() as int) =~= fv);
    out
}

/// The distinct strings of `v`, in order of first appearance.
pub fn dedup_strings(v: &Vec<String>) -> (r: Vec<String>)
    ensures
        str_views(r@) == dedup(str_views(v@)),
{
    let ghost sv = str_views(v@);
    let mut out: Vec<String> = Vec::new();
    let mut i: usize = 0;
    while i < v.len()
        invariant
            i <= v@.len(),
            sv == str_views(v@),
            str_views(out@) == dedup(sv.subrange(0, i as int)),
        decreases v@.len() - i,
    {
        assert(sv.subrange(0, i + 1).drop_last() =~= sv.subrange(0, i as int));
        if !contains_string(&out, &v[i]) {
            let ghost prev = out@;
            out.push(v[i].clone());
            proof {
                lemma_str_views_push(prev, v@[i as int]);
            }
        }
        i = i + 1;
    }
    assert(sv.subrange(0, v@.len() as int) =~= sv);
    out
}

/// Builds the export index of a root's records.
pub fn build_export_index(files: &Vec<FileAnalysis>) -> (r: Vec<IndexEntry>)
    ensures
        entries_view(r@) == export_index(files_view(files@)),
{
    let all = all_export_names_exec(files);
    let names = dedup_strings(&all);
    let ghost nv = str_views(names@);
    let ghost fv = files_view(files@);
    let mut out: Vec<IndexEntry> = Vec::new();
    let mut i: usize = 0;
    while i < names.len()
        invariant
            i <= names@.len(),
            nv == str_views(names@),
            fv == files_view(files@),
            nv == dedup(all_export_names(fv)),
            entries_view(out@) == index_of(fv, nv.subrange(0, i as int)),
        decreases names@.len() - i,
    {
        assert(nv.subrange(0, i + 1).drop_last() =~= nv.subrange(0, i as int));
        let e = IndexEntry { name: names[i].clone(), files: owners_exec(files, &names[i]) };
        let ghost prev = out@;
        out.push(e);
        assert(entries_view(out@) =~= entries_view(prev).push(e@));
        i = i + 1;
    }
    assert(nv.subrange(0, names@.len() as int) =~= nv);
    out
}

/// The index entries whose name at least two distinct files export.
pub open spec fn duplicate_entries(index: Seq<(Seq<char>, Seq<Seq<char>>)>) -> Seq<
    (Seq<char>, Seq<Seq<char>>),
>
    decreases index.len(),
{
    if index.len() == 0 {
        Seq::empty()
    } else {
        let rest = duplicate_entries(index.drop_last());
        if index.last().1.len() >= 2 {
            rest.push(index.last())
        } else {
            rest
        }
    }
}

fn copy_entry(e: &IndexEntry) -> (r: IndexEntry)
    ensures
        r@ == e@,
{
    IndexEntry { name: e.name.clone(), files: crate::types::copy_strings(&e.files) }
}

/// The duplicate exports: entries of the index with two or more files.
pub fn duplicate_exports(index: &Vec<IndexEntry>) -> (r: Vec<IndexEntry>)
    ensures
        entries_view(r@) == duplicate_entries(entries_view(index@)),
{
    let ghost iv = entries_view(index@);
    let mut out: Vec<IndexEntry> = Vec::new();
    let mut i: usize = 0;
    while i < index.len()
        invariant
            i <= index@.len(),
            iv == entries_view(index@),
            entries_view(out@) == duplicate_entries(iv.subrange(0, i as int)),
        decreases index@.len() - i,
    {
        assert(iv.subrange(0, i + 1).drop_last() =~= iv.subrange(0, i as int));
        if index[i].files.len() >= 2 {
            let e = copy_entry(&index[i]);
            let ghost prev = out@;
            out.push(e);
            assert(entries_view(out@) =~= entries_view(prev).push(e@));
        }
        i = i + 1;
    }
    assert(iv.subrange(0, index@.len() as int) =~= iv);
    out
}

/// The number of development files among `files`.
pub open spec fn dev_count(files: Seq<Seq<char>>) -> nat
    decreases files.len(),
{
    if files.len() == 0 {
        0
    } else {
        dev_count(files.drop_last()) + if is_dev_path(files.last()) {
            1nat
        } else {
            0nat
        }
    }
}

/// The weight of a duplicate group: production files count double.
pub open spec fn dup_score(prod: nat, dev: nat) -> nat {
    2 * prod + dev
}

/// The first production file, else the first file.
pub open spec fn canonical_file(files: Seq<Seq<char>>) -> Seq<char>
    decreases files.len(),
{
    if files.len() == 0 {
        Seq::empty()
    } else if !is_dev_path(files[0]) {
        files[0]
    } else {
        let rest = files.drop_first();
        if exists|i: int| 0 <= i < rest.len() && !is_dev_path(#[trigger] rest[i]) {
            canonical_file(rest)
        } else {
            files[0]
        }
    }
}

pub struct RankedDup {
    pub name: String,
    pub files: Vec<String>,
    pub score: usize,
    pub prod_count: usize,
    pub dev_count: usize,
    pub canonical: String,
    pub refactors: Vec<String>,
}

pub struct RankedDupView {
    pub name: Seq<char>,
    pub files: Seq<Seq<char>>,
    pub score: nat,
    pub prod_count: nat,
    pub dev_count: nat,
    pub canonical: Seq<char>,
    pub refactors: Seq<Seq<char>>,
}

impl View for RankedDup {
    type V = RankedDupView;

    open spec fn view(&self) -> RankedDupView {
        RankedDupView {
            name: self.name@,
            files: str_views(self.files@),
            score: self.score as nat,
            prod_count: self.prod_count as nat,
            dev_count: self.dev_count as nat,
            canonical: self.canonical@,
            refactors: str_views(self.refactors@),
        }
    }
}

/// What a duplicate group of `name` over the distinct `files` is.
pub open spec fn is_group_of(g: RankedDupView, name: Seq<char>, files: Seq<Seq<char>>) -> bool {
    &&& g.name == name
    &&& g.files == files
    &&& g.dev_count == dev_count(files)
    &&& g.prod_count == files.len() - dev_count(files)
    &&& g.score == dup_score(g.prod_count, g.dev_count)
    &&& g.canonical == canonical_file(files)
    &&& strictly_sorted(g.refactors)
    &&& g.refactors.to_set() == files.to_set().remove(canonical_file(files))
}

proof fn lemma_dev_count_le(files: Seq<Seq<char>>)
    ensures
        dev_count(files) <= files.len(),
    decreases files.len(),
{
    if files.len() > 0 {
        lemma_dev_count_le(files.drop_last());
    }
}

proof fn lemma_canonical_in(files: Seq<Seq<char>>)
    requires
        files.len() > 0,
    ensures
        files.contains(canonical_file(files)),
    decreases files.len(),
{
    if is_dev_path(files[0]) {
        let rest = files.drop_first();
        if exists|i: int| 0 <= i < rest.len() && !is_dev_path(#[trigger] rest[i]) {
            lemma_canonical_in(rest);
            let k = choose|k: int| 0 <= k < rest.len() && rest[k] == canonical_file(rest);
            assert(files[k + 1] == canonical_file(files));
        } else {
            assert(files[0] == canonical_file(files));
        }
    } else {
        assert(files[0] == canonical_file(files));
    }
}

fn canonical_index(files: &Vec<String>) -> (r: usize)
    requires
        files@.len() > 0,
    ensures
        r < files@.len(),
        files@[r as int]@ == canonical_file(str_views(files@)),
{
    let ghost fv = str_views(files@);
    let mut i: usize = 0;
    proof {
        assert(fv.subrange(0, fv.len() as int) =~= fv);
        if !(exists|k: int| 0 <= k < fv.len() && !is_dev_path(#[trigger] fv[k])) {
            assert(is_dev_path(fv[0]));
            let rest = fv.drop_first();
            assert(!exists|k: int| 0 <= k < rest.len() && !is_dev_path(#[trigger] rest[k])) by {
                if exists|k: int| 0 <= k < rest.len() && !is_dev_path(#[trigger] rest[k]) {
                    let k = choose|k: int| 0 <= k < rest.len() && !is_dev_path(#[trigger] rest[k]);
                    assert(!is_dev_path(fv[k + 1]));
                }
            }
        }
    }
    while i < files.len()
        invariant
            i <= files@.len(),
            fv == str_views(files@),
            files@.len() > 0,
            forall|k: int| 0 <= k < i ==> is_dev_path(#[trigger] fv[k]),
            i < files@.len() ==> canonical_file(fv) == (if exists|k: int|
                i <= k < fv.len() && !is_dev_path(#[trigger] fv[k]) {
                canonical_file(fv.subrange(i as int, fv.len() as int))
            } else {
                fv[0]
            }),
        decreases files@.len() - i,
    {
        let ghost rest = fv.subrange(i as int, fv.len() as int);
        if !is_dev_file(files[i].as_str()) {
            assert(rest[0] == fv[i as int]);
            assert(exists|k: int| i <= k < fv.len() && !is_dev_path(#[trigger] fv[k]));
            return i;
        }
        assert(rest.drop_first() =~= fv.subrange(i + 1, fv.len() as int));
        proof {
            if i + 1 < fv.len() {
                if exists|k: int| i + 1 <= k < fv.len() && !is_dev_path(#[trigger] fv[k]) {
                    let k = choose|k: int| i + 1 <= k < fv.len() && !is_dev_path(#[trigger] fv[k]);
                    assert(!is_dev_path(rest.drop_first()[k - i - 1]));
                } else {
                    assert(!exists|k: int|
                        0 <= k < rest.drop_first().len() && !is_dev_path(
                            #[trigger] rest.drop_first()[k],
                        )) by {
                        if exists|k: int|
                            0 <= k < rest.drop_first().len() && !is_dev_path(
                                #[trigger] rest.drop_first()[k],
                            ) {
                            let k = choose|k: int|
                                0 <= k < rest.drop_first().len() && !is_dev_path(
                                    #[trigger] rest.drop_first()[k],
                                );
                            assert(!is_dev_path(fv[k + i + 1]));
                        }
                    }
                }
            }
        }
        i = i + 1;
    }
    0
}

fn dev_count_exec(files: &Vec<String>) -> (r: usize)
    ensures
        r as nat == dev_count(str_views(files@)),
{
    let ghost fv = str_views(files@);
    let mut n: usize = 0;
    let mut i: usize = 0;
    while i < files.len()
        invariant
            i <= files@.len(),
            fv == str_views(files@),
            n as nat == dev_count(fv.subrange(0, i as int)),
            n <= i,
        decreases files@.len() - i,
    {
        assert(fv.subrange(0, i + 1).drop_last() =~= fv.subrange(0, i as int));
        if is_dev_file(files[i].as_str()) {
            n = n + 1;
        }
        i = i + 1;
    }
    assert(fv.subrange(0, files@.len() as int) =~= fv);
    n
}

/// Scores one duplicate group and picks its canonical file and refactor targets.
pub fn make_group(name: &String, files: &Vec<String>) -> (r: RankedDup)
    requires
        files@.len() > 0,
        files@.len() <= usize::MAX / 2,
        str_views(files@).no_duplicates(),
    ensures
        is_group_of(r@, name@, str_views(files@)),
{
    let ghost fv = str_views(files@);
    let dev = dev_count_exec(files);
    proof {
        lemma_dev_count_le(fv);
    }
    let prod = files.len() - dev;
    let score = prod * 2 + dev;
    let c = canonical_index(files);
    let canonical = files[c].clone();
    let mut refactors: Vec<String> = Vec::new();
    let mut i: usize = 0;
    while i < files.len()
        invariant
            i <= files@.len(),
            c < files@.len(),
            fv == str_views(files@),
            fv.no_duplicates(),
            canonical@ == fv[c as int],
            strictly_sorted(str_views(refactors@)),
            str_views(refactors@).to_set() == fv.subrange(0, i as int).to_set().remove(
                canonical@,
            ),
        decreases files@.len() - i,
    {
        let ghost before = str_views(refactors@).to_set();
        assert(fv.subrange(0, i + 1) =~= fv.subrange(0, i as int).push(fv[i as int]));
        assert(fv.subrange(0, i + 1).to_set() =~= fv.subrange(0, i as int).to_set().insert(
            fv[i as int],
        )) by {
            fv.subrange(0, i as int).lemma_push_to_set_commute(fv[i as int]);
        }
        if i != c {
            assert(fv[i as int] != canonical@);
            assert(!str_views(refactors@).contains(files@[i as int]@)) by {
                if str_views(refactors@).contains(files@[i as int]@) {
                    assert(str_views(refactors@).to_set().contains(fv[i as int]));
                    let k = choose|k: int| 0 <= k < i && fv.subrange(0, i as int)[k] == fv[i as int];
                    assert(fv[k] == fv[i as int]);
                }
            }
            insert_sorted(&mut refactors, files[i].clone());
            assert(str_views(refactors@).to_set() =~= fv.subrange(0, i + 1).to_set().remove(
                canonical@,
            ));
        } else {
            assert(str_views(refactors@).to_set() =~= fv.subrange(0, i + 1).to_set().remove(
                canonical@,
            ));
        }
        i = i + 1;
    }
    assert(fv.subrange(0, files@.len() as int) =~= fv);
    RankedDup {
        name: name.clone(),
        files: crate::types::copy_strings(files),
        score,
        prod_count: prod,
        dev_count: dev,
        canonical,
        refactors,
    }
}

/// The score of the group over `files`.
pub open spec fn group_score(files: Seq<Seq<char>>) -> nat {
    dup_score((files.len() - dev_count(files)) as nat, dev_count(files))
}

/// Whether duplicate entry `a` ranks before entry `b`: higher score first,
/// then more files, then earlier in the index.
pub open spec fn ranks_before(dups: Seq<(Seq<char>, Seq<Seq<char>>)>, a: int, b: int) -> bool {
    let sa = group_score(dups[a].1);
    let sb = group_score(dups[b].1);
    sa > sb || (sa == sb && (dups[a].1.len() > dups[b].1.len() || (dups[a].1.len()
        == dups[b].1.len() && a < b)))
}

/// `order` lists every entry of `dups` once, from best-ranked to worst.
pub open spec fn is_ranking(dups: Seq<(Seq<char>, Seq<Seq<char>>)>, order: Seq<usize>) -> bool {
    &&& order.len() == dups.len()
    &&& forall|i: int| 0 <= i < order.len() ==> #[trigger] order[i] < dups.len()
    &&& forall|i: int, j: int|
        0 <= i < j < order.len() ==> ranks_before(dups, #[trigger] order[i] as int, #[trigger] order[j] as int)
}

/// The entries of a duplicate list are groups that can be scored.
pub open spec fn scorable(dups: Seq<(Seq<char>, Seq<Seq<char>>)>) -> bool {
    forall|i: int|
        0 <= i < dups.len() ==> {
            &&& (#[trigger] dups[i]).1.len() > 0
            &&& dups[i].1.len() <= usize::MAX / 2
            &&& dups[i].1.no_duplicates()
        }
}

/// Ranking is a strict total order on the entries: irreflexive, transitive,
/// and any two distinct entries are ranked one way or the other.
pub proof fn lemma_ranking_total_order(dups: Seq<(Seq<char>, Seq<Seq<char>>)>, a: int, b: int, c: int)
    ensures
        !ranks_before(dups, a, a),
        a != b ==> ranks_before(dups, a, b) || ranks_before(dups, b, a),
        ranks_before(dups, a, b) ==> !ranks_before(dups, b, a),
        ranks_before(dups, a, b) && ranks_before(dups, b, c) ==> ranks_before(dups, a, c),
{
}

/// The score does not decrease when either count grows.
pub proof fn lemma_score_monotone(prod1: nat, dev1: nat, prod2: nat, dev2: nat)
    requires
        prod1 <= prod2,
        dev1 <= dev2,
    ensures
        dup_score(prod1, dev1) <= dup_score(prod2, dev2),
{
}

fn copy_group(g: &RankedDup) -> (r: RankedDup)
    ensures
        r@ == g@,
{
    RankedDup {
        name: g.name.clone(),
        files: crate::types::copy_strings(&g.files),
        score: g.score,
        prod_count: g.prod_count,
        dev_count: g.dev_count,
        canonical: g.canonical.clone(),
        refactors: crate::types::copy_strings(&g.refactors),
    }
}

/// The ranking order of scored groups.
fn rank_order(groups: &Vec<RankedDup>, Ghost(dups): Ghost<Seq<(Seq<char>, Seq<Seq<char>>)>>) -> (r: Vec<usize>)
    requires
        groups@.len() == dups.len(),
        forall|i: int| 0 <= i < dups.len() ==> is_group_of(#[trigger] groups@[i]@, dups[i].0, dups[i].1),
    ensures
        is_ranking(dups, r@),
{
    let mut order: Vec<usize> = Vec::new();
    let mut i: usize = 0;
    while i < groups.len()
        invariant
            i <= groups@.len(),
            groups@.len() == dups.len(),
            forall|k: int| 0 <= k < dups.len() ==> is_group_of(#[trigger] groups@[k]@, dups[k].0, dups[k].1),
            order@.len() == i,
            forall|k: int| 0 <= k < order@.len() ==> #[trigger] order@[k] < i,
            forall|a: int, b: int|
                0 <= a < b < order@.len() ==> ranks_before(dups, #[trigger] order@[a] as int, #[trigger] order@[b] as int),
        decreases groups@.len() - i,
    {
        let mut p: usize = 0;
        while p < order.len() && !(groups[i].score > groups[order[p]].score || (groups[i].score
            == groups[order[p]].score && groups[i].files.len() > groups[order[p]].files.len()))
            invariant
                i < groups@.len(),
                groups@.len() == dups.len(),
                forall|k: int| 0 <= k < dups.len() ==> is_group_of(#[trigger] groups@[k]@, dups[k].0, dups[k].1),
                p <= order@.len(),
                forall|k: int| 0 <= k < order@.len() ==> #[trigger] order@[k] < i,
                forall|k: int| 0 <= k < p ==> ranks_before(dups, #[trigger] order@[k] as int, i as int),
            decreases order@.len() - p,
        {
            assert(is_group_of(groups@[i as int]@, dups[i as int].0, dups[i as int].1));
            assert(is_group_of(
                groups@[order@[p as int] as int]@,
                dups[order@[p as int] as int].0,
                dups[order@[p as int] as int].1,
            ));
            p = p + 1;
        }
        proof {
            if p < order@.len() {
                assert(is_group_of(groups@[i as int]@, dups[i as int].0, dups[i as int].1));
                assert(is_group_of(
                    groups@[order@[p as int] as int]@,
                    dups[order@[p as int] as int].0,
                    dups[order@[p as int] as int].1,
                ));
                assert(ranks_before(dups, i as int, order@[p as int] as int));
            }
        }
        let ghost old_order = order@;
        order.insert(p, i);
        assert(order@ =~= old_order.subrange(0, p as int).push(i) + old_order.subrange(p as int, old_order.len() as int));
        assert forall|a: int, b: int|
            0 <= a < b < order@.len() implies ranks_before(dups, #[trigger] order@[a] as int, #[trigger] order@[b] as int) by {
            if a < p && b == p {
            } else if a < p && b > p {
                assert(order@[b] == old_order[b - 1]);
            } else if a == p {
                assert(order@[b] == old_order[b - 1]);
                if b - 1 > p {
                    assert(ranks_before(dups, old_order[p as int] as int, old_order[b - 1] as int));
                }
            } else if b < p {
            } else {
                assert(order@[a] == old_order[a - 1]);
                assert(order@[b] == old_order[b - 1]);
            }
        }
        i = i + 1;
    }
    order
}

pub open spec fn groups_view(v: Seq<RankedDup>) -> Seq<RankedDupView> {
    v.map_values(|g: RankedDup| g@)
}

/// `ranked` holds the group of each entry of `dups`, in the order `order`.
pub open spec fn ranked_by(
    dups: Seq<(Seq<char>, Seq<Seq<char>>)>,
    ranked: Seq<RankedDupView>,
    order: Seq<usize>,
) -> bool {
    &&& is_ranking(dups, order)
    &&& ranked.len() == order.len()
    &&& forall|k: int|
        0 <= k < order.len() ==> is_group_of(
            #[trigger] ranked[k],
            dups[order[k] as int].0,
            dups[order[k] as int].1,
        )
}

/// `ranked` holds the group of each entry of `dups`, best-ranked first.
pub open spec fn is_ranked_groups(
    dups: Seq<(Seq<char>, Seq<Seq<char>>)>,
    ranked: Seq<RankedDupView>,
) -> bool {
    exists|order: Seq<usize>| #[trigger] ranked_by(dups, ranked, order)
}

/// Scores every duplicate entry and ranks the groups.
pub fn rank_duplicates(dups: &Vec<IndexEntry>) -> (r: Vec<RankedDup>)
    requires
        scorable(entries_view(dups@)),
    ensures
        is_ranked_groups(entries_view(dups@), groups_view(r@)),
{
    let ghost dv = entries_view(dups@);
    let mut groups: Vec<RankedDup> = Vec::new();
    let mut i: usize = 0;
    while i < dups.len()
        invariant
            i <= dups@.len(),
            dv == entries_view(dups@),
            scorable(dv),
            groups@.len() == i,
            forall|k: int| 0 <= k < i ==> is_group_of(#[trigger] groups@[k]@, dv[k].0, dv[k].1),
        decreases dups@.len() - i,
    {
        assert(dv[i as int].1.len() > 0);
        let g = make_group(&dups[i].name, &dups[i].files);
        groups.push(g);
        i = i + 1;
    }
    let order = rank_order(&groups, Ghost(dv));
    let mut ranked: Vec<RankedDup> = Vec::new();
    let mut k: usize = 0;
    while k < order.len()
        invariant
            k <= order@.len(),
            is_ranking(dv, order@),
            groups@.len() == dv.len(),
            forall|j: int| 0 <= j < dv.len() ==> is_group_of(#[trigger] groups@[j]@, dv[j].0, dv[j].1),
            ranked@.len() == k,
            forall|j: int|
                0 <= j < k ==> is_group_of(#[trigger] ranked@[j]@, dv[order@[j] as int].0, dv[order@[j] as int].1),
        decreases order@.len() - k,
    {
        assert(order@[k as int] < dv.len());
        let g = copy_group(&groups[order[k]]);
        ranked.push(g);
        k = k + 1;
    }
    assert(ranked_by(dv, groups_view(ranked@), order@));
    ranked
}

/// The paths of the files with at least one re-export.
pub open spec fn reexport_paths(files: Seq<FileView>) -> Seq<Seq<char>>
    decreases files.len(),
{
    if files.len() == 0 {
        Seq::empty()
    } else {
        let rest = reexport_paths(files.drop_last());
        if files.last().reexports.len() > 0 {
            rest.push(files.last().path)
        } else {
            rest
        }
    }
}

/// The cascade edges from one file: each resolved re-export target that is
/// itself a re-exporting file.
pub open spec fn file_cascades(from: Seq<char>, res: Seq<ReexportView>, targets: Seq<Seq<char>>) -> Seq<
    (Seq<char>, Seq<char>),
>
    decreases res.len(),
{
    if res.len() == 0 {
        Seq::empty()
    } else {
        let rest = file_cascades(from, res.drop_last(), targets);
        match res.last().resolved {
            Some(t) => if targets.contains(t) {
                rest.push((from, t))
            } else {
                rest
            },
            None => rest,
        }
    }
}

pub open spec fn cascades_of(files: Seq<FileView>, targets: Seq<Seq<char>>) -> Seq<
    (Seq<char>, Seq<char>),
>
    decreases files.len(),
{
    if files.len() == 0 {
        Seq::empty()
    } else {
        cascades_of(files.drop_last(), targets) + file_cascades(
            files.last().path,
            files.last().reexports,
            targets,
        )
    }
}

/// The re-export cascades of a root, in processing order.
pub open spec fn reexport_cascades(files: Seq<FileView>) -> Seq<(Seq<char>, Seq<char>)> {
    cascades_of(files, reexport_paths(files))
}

pub open spec fn pairs_view(v: Seq<(String, String)>) -> Seq<(Seq<char>, Seq<char>)> {
    v.map_values(|p: (String, String)| (p.0@, p.1@))
}

fn reexport_paths_exec(files: &Vec<FileAnalysis>) -> (r: Vec<String>)
    ensures
        str_views(r@) == reexport_paths(files_view(files@)),
{
    let ghost fv = files_view(files@);
    let mut out: Vec<String> = Vec::new();
    let mut i: usize = 0;
    while i < files.len()
        invariant
            i <= files@.len(),
            fv == files_view(files@),
            str_views(out@) == reexport_paths(fv.subrange(0, i as int)),
        decreases files@.len() - i,
    {
        assert(fv.subrange(0, i + 1).drop_last() =~= fv.subrange(0, i as int));
        if files[i].reexports.len() > 0 {
            let ghost prev = out@;
            out.push(files[i].path.clone());
            proof {
                lemma_str_views_push(prev, files@[i as int].path);
            }
        }
        i = i + 1;
    }
    assert(fv.subrange(0, files@.len() as int) =~= fv);
    out
}

/// Finds the re-export edges whose target is itself a re-exporting file.
pub fn find_cascades(files: &Vec<FileAnalysis>) -> (r: Vec<(String, String)>)
    ensures
        pairs_view(r@) == reexport_cascades(files_view(files@)),
{
    let targets = reexport_paths_exec(files);
    let ghost tv = str_views(targets@);
    let ghost fv = files_view(files@);
    let mut out: Vec<(String, String)> = Vec::new();
    let mut i: usize = 0;
    while i < files.len()
        invariant
            i <= files@.len(),
            fv == files_view(files@),
            tv == str_views(targets@),
            tv == reexport_paths(fv),
            pairs_view(out@) == cascades_of(fv.subrange(0, i as int), tv),
        decreases files@.len() - i,
    {
        assert(fv.subrange(0, i + 1).drop_last() =~= fv.subrange(0, i as int));
        let f = &files[i];
        let ghost base = pairs_view(out@);
        let ghost rv = fv[i as int].reexports;
        let mut k: usize = 0;
        while k < f.reexports.len()
            invariant
                i < files@.len(),
                fv == files_view(files@),
                *f == files@[i as int],
                tv == str_views(targets@),
                rv == fv[i as int].reexports,
                k <= rv.len(),
                pairs_view(out@) == base + file_cascades(fv[i as int].path, rv.subrange(0, k as int), tv),
            decreases rv.len() - k,
        {
            assert(rv.subrange(0, k + 1).drop_last() =~= rv.subrange(0, k as int));
            match &f.reexports[k].resolved {
                Some(t) => {
                    if contains_string(&targets, t) {
                        let ghost prev = out@;
                        let e = (f.path.clone(), t.clone());
                        out.push(e);
                        assert(pairs_view(out@) =~= pairs_view(prev).push((e.0@, e.1@)));
                    }
                },
                None => {},
            }
            k = k + 1;
        }
        assert(rv.subrange(0, rv.len() as int) =~= rv);
        i = i + 1;
    }
    assert(fv.subrange(0, files@.len() as int) =~= fv);
    out
}

/// Whether some value occurs twice in `s`.
pub open spec fn has_repeat(s: Seq<Seq<char>>) -> bool {
    exists|i: int, j: int| 0 <= i < j < s.len() && s[i] == s[j]
}

/// The dynamic imports of one file, with its two flags.
pub struct DynamicSummary {
    pub file: String,
    pub sources: Vec<String>,
    /// More than five dynamic specifiers.
    pub many_sources: bool,
    /// Some specifier occurs more than once.
    pub self_import: bool,
}

pub struct DynamicView {
    pub file: Seq<char>,
    pub sources: Seq<Seq<char>>,
    pub many_sources: bool,
    pub self_import: bool,
}

impl View for DynamicSummary {
    type V = DynamicView;

    open spec fn view(&self) -> DynamicView {
        DynamicView {
            file: self.file@,
            sources: str_views(self.sources@),
            many_sources: self.many_sources,
            self_import: self.self_import,
        }
    }
}

pub open spec fn dynamic_view(file: Seq<char>, sources: Seq<Seq<char>>) -> DynamicView {
    DynamicView { file, sources, many_sources: sources.len() > 5, self_import: has_repeat(sources) }
}

/// One summary per file with at least one dynamic import, in processing order.
pub open spec fn dynamic_summaries(files: Seq<FileView>) -> Seq<DynamicView>
    decreases files.len(),
{
    if files.len() == 0 {
        Seq::empty()
    } else {
        let rest = dynamic_summaries(files.drop_last());
        let f = files.last();
        if f.dynamic_imports.len() > 0 {
            rest.push(dynamic_view(f.path, f.dynamic_imports))
        } else {
            rest
        }
    }
}

pub open spec fn dynamics_view(v: Seq<DynamicSummary>) -> Seq<DynamicView> {
    v.map_values(|d: DynamicSummary| d@)
}

pub fn has_repeated(v: &Vec<String>) -> (r: bool)
    ensures
        r == has_repeat(str_views(v@)),
{
    let ghost sv = str_views(v@);
    let mut j: usize = 0;
    while j < v.len()
        invariant
            j <= v@.len(),
            sv == str_views(v@),
            forall|a: int, b: int| 0 <= a < b < j ==> sv[a] != sv[b],
        decreases v@.len() - j,
    {
        let mut i: usize = 0;
        while i < j
            invariant
                i <= j < v@.len(),
                sv == str_views(v@),
                forall|a: int| 0 <= a < i ==> sv[a] != sv[j as int],
            decreases j - i,
        {
            if v[i] == v[j] {
                assert(sv[i as int] == sv[j as int]);
                return true;
            }
            i = i + 1;
        }
        j = j + 1;
    }
    false
}

/// Summarises the dynamic imports of a root's records.
pub fn summarize_dynamic(files: &Vec<FileAnalysis>) -> (r: Vec<DynamicSummary>)
    ensures
        dynamics_view(r@) == dynamic_summaries(files_view(files@)),
{
    let ghost fv = files_view(files@);
    let mut out: Vec<DynamicSummary> = Vec::new();
    let mut i: usize = 0;
    while i < files.len()
        invariant
            i <= files@.len(),
            fv == files_view(files@),
            dynamics_view(out@) == dynamic_summaries(fv.subrange(0, i as int)),
        decreases files@.len() - i,
    {
        assert(fv.subrange(0, i + 1).drop_last() =~= fv.subrange(0, i as int));
        let f = &files[i];
        if f.dynamic_imports.len() > 0 {
            let d = DynamicSummary {
                file: f.path.clone(),
                sources: crate::types::copy_strings(&f.dynamic_imports),
                many_sources: f.dynamic_imports.len() > 5,
                self_import: has_repeated(&f.dynamic_imports),
            };
            let ghost prev = out@;
            out.push(d);
            assert(dynamics_view(out@) =~= dynamics_view(prev).push(d@));
        }
        i = i + 1;
    }
    assert(fv.subrange(0, files@.len() as int) =~= fv);
    out
}

/// Whether summary `a` is listed before summary `b`: more sources first,
/// then processing order.
pub open spec fn dynamic_before(ds: Seq<DynamicView>, a: int, b: int) -> bool {
    ds[a].sources.len() > ds[b].sources.len() || (ds[a].sources.len() == ds[b].sources.len()
        && a < b)
}

/// `order` lists every summary once, those with the most sources first.
pub open spec fn is_dynamic_order(ds: Seq<DynamicView>, order: Seq<usize>) -> bool {
    &&& order.len() == ds.len()
    &&& forall|i: int| 0 <= i < order.len() ==> #[trigger] order[i] < ds.len()
    &&& forall|i: int, j: int|
        0 <= i < j < order.len() ==> dynamic_before(
            ds,
            #[trigger] order[i] as int,
            #[trigger] order[j] as int,
        )
}

/// The display order of dynamic-import summaries: by number of sources,
/// largest first, ties in processing order.
pub fn dynamic_display_order(ds: &Vec<DynamicSummary>) -> (r: Vec<usize>)
    ensures
        is_dynamic_order(dynamics_view(ds@), r@),
{
    let ghost dv = dynamics_view(ds@);
    let mut order: Vec<usize> = Vec::new();
    let mut i: usize = 0;
    while i < ds.len()
        invariant
            i <= ds@.len(),
            dv == dynamics_view(ds@),
            order@.len() == i,
            forall|k: int| 0 <= k < order@.len() ==> #[trigger] order@[k] < i,
            forall|a: int, b: int|
                0 <= a < b < order@.len() ==> dynamic_before(
                    dv,
                    #[trigger] order@[a] as int,
                    #[trigger] order@[b] as int,
                ),
        decreases ds@.len() - i,
    {
        let mut p: usize = 0;
        while p < order.len() && !(ds[i].sources.len() > ds[order[p]].sources.len())
            invariant
                i < ds@.len(),
                dv == dynamics_view(ds@),
                p <= order@.len(),
                forall|k: int| 0 <= k < order@.len() ==> #[trigger] order@[k] < i,
                forall|k: int| 0 <= k < p ==> dynamic_before(dv, #[trigger] order@[k] as int, i as int),
            decreases order@.len() - p,
        {
            assert(dv[i as int] == ds@[i as int]@);
            assert(dv[order@[p as int] as int] == ds@[order@[p as int] as int]@);
            p = p + 1;
        }
        proof {
            if p < order@.len() {
                assert(dv[i as int] == ds@[i as int]@);
                assert(dv[order@[p as int] as int] == ds@[order@[p as int] as int]@);
                assert(dynamic_before(dv, i as int, order@[p as int] as int));
            }
        }
        let ghost old_order = order@;
        order.insert(p, i);
        assert(order@ =~= old_order.subrange(0, p as int).push(i) + old_order.subrange(
            p as int,
            old_order.len() as int,
        ));
        assert forall|a: int, b: int|
            0 <= a < b < order@.len() implies dynamic_before(
            dv,
            #[trigger] order@[a] as int,
            #[trigger] order@[b] as int,
        ) by {
            if a < p && b == p {
            } else if a < p && b > p {
                assert(order@[b] == old_order[b - 1]);
            } else if a == p {
                assert(order@[b] == old_order[b - 1]);
                if b - 1 > p {
                    assert(dynamic_before(dv, old_order[p as int] as int, old_order[b - 1] as int));
                }
            } else if b < p {
            } else {
                assert(order@[a] == old_order[a - 1]);
                assert(order@[b] == old_order[b - 1]);
            }
        }
        i = i + 1;
    }
    order
}

/// The graph edges of resolved re-exports: `(from, to, "reexport")`, in
/// processing order.
pub open spec fn file_reexport_edges(from: Seq<char>, res: Seq<ReexportView>) -> Seq<
    (Seq<char>, Seq<char>, Seq<char>),
>
    decreases res.len(),
{
    if res.len() == 0 {
        Seq::empty()
    } else {
        let rest = file_reexport_edges(from, res.drop_last());
        match res.last().resolved {
            Some(t) => rest.push((from, t, "reexport"@)),
            None => rest,
        }
    }
}

pub open spec fn reexport_edges(files: Seq<FileView>) -> Seq<(Seq<char>, Seq<char>, Seq<char>)>
    decreases files.len(),
{
    if files.len() == 0 {
        Seq::empty()
    } else {
        reexport_edges(files.drop_last()) + file_reexport_edges(
            files.last().path,
            files.last().reexports,
        )
    }
}

pub open spec fn edges_view(v: Seq<(String, String, String)>) -> Seq<
    (Seq<char>, Seq<char>, Seq<char>),
> {
    v.map_values(|e: (String, String, String)| (e.0@, e.1@, e.2@))
}

/// The re-export edges of a root's import graph.
pub fn graph_reexport_edges(files: &Vec<FileAnalysis>) -> (r: Vec<(String, String, String)>)
    ensures
        edges_view(r@) == reexport_edges(files_view(files@)),
{
    let ghost fv = files_view(files@);
    let mut out: Vec<(String, String, String)> = Vec::new();
    let mut i: usize = 0;
    while i < files.len()
        invariant
            i <= files@.len(),
            fv == files_view(files@),
            edges_view(out@) == reexport_edges(fv.subrange(0, i as int)),
        decreases files@.len() - i,
    {
        assert(fv.subrange(0, i + 1).drop_last() =~= fv.subrange(0, i as int));
        let f = &files[i];
        let ghost base = edges_view(out@);
        let ghost rv = fv[i as int].reexports;
        let mut k: usize = 0;
        while k < f.reexports.len()
            invariant
                i < files@.len(),
                fv == files_view(files@),
                *f == files@[i as int],
                rv == fv[i as int].reexports,
                k <= rv.len(),
                edges_view(out@) == base + file_reexport_edges(fv[i as int].path, rv.subrange(0, k as int)),
            decreases rv.len() - k,
        {
            assert(rv.subrange(0, k + 1).drop_last() =~= rv.subrange(0, k as int));
            match &f.reexports[k].resolved {
                Some(t) => {
                    let ghost prev = out@;
                    let e = (f.path.clone(), t.clone(), "reexport".to_owned());
                    out.push(e);
                    assert(edges_view(out@) =~= edges_view(prev).push((e.0@, e.1@, e.2@)));
                },
                None => {},
            }
            k = k + 1;
        }
        assert(rv.subrange(0, rv.len() as int) =~= rv);
        i = i + 1;
    }
    assert(fv.subrange(0, files@.len() as int) =~= fv);
    out
}

} // verus!
