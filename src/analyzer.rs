//! Per-root analysis: dispatching files to their extractor by extension,
//! filling in resolved re-export targets, and the findings over all records.
use vstd::prelude::*;

use crate::aggregate::{
    build_export_index, duplicate_entries, duplicate_exports, dynamic_summaries, dynamics_view,
    entries_view, export_index, files_view, find_cascades, groups_view, index_of, is_ranked_groups,
    lemma_owners_distinct, lemma_owners_len, owners, pairs_view, rank_duplicates, reexport_cascades,
    scorable, summarize_dynamic, DynamicSummary, IndexEntry, RankedDup,
};
use crate::commands::{command_gaps, gaps_view, missing_handlers, unused_handlers, CommandGap};
use crate::css::{analyze_css_file, css_file};
use crate::extract::{
    lemma_names_of_kind_add, lemma_no_reexport_names, lemma_reexport_exports_contain,
    lemma_reexport_exports_names, reexport_exports,
};
use crate::js::{analyze_js_file, script_file, script_matches, script_reexports};
use crate::patterns::{matches_of, CSS_IMPORT};
use crate::py::{analyze_py_file, lines_of, lines_reexports, py_file, py_matches};
use crate::resolve::{file_name_of, has_extension, last_index_of};
use crate::rust_lang::{analyze_rust_file, pub_use_reexports, rust_file, rust_matches};
use crate::text::{chars_of, eq_str, slice_chars, str_views};
use crate::types::{
    lemma_reexports_push, opt_view, reexports_view, ExportView, FileAnalysis, FileView,
    ReexportEntry, ReexportKind, ReexportView,
};

verus! {

/// The language families the analyzer recognizes.
#[derive(Clone, Copy, Debug, PartialEq, Eq, Structural)]
pub enum Language {
    Script,
    Stylesheet,
    Python,
    Rust,
}

/// The extension of a path: what follows the last `.` of its file name,
/// when the name carries one.
pub open spec fn extension_of(path: Seq<char>) -> Option<Seq<char>> {
    let name = file_name_of(path);
    if has_extension(name) {
        match last_index_of(name, '.') {
            Some(k) => Some(name.subrange(k + 1, name.len() as int)),
            None => None,
        }
    } else {
        None
    }
}

pub open spec fn language_for(ext: Seq<char>) -> Option<Language> {
    if ext == "js"@ || ext == "jsx"@ || ext == "ts"@ || ext == "tsx"@ || ext == "mjs"@ || ext
        == "cjs"@ {
        Some(Language::Script)
    } else if ext == "css"@ {
        Some(Language::Stylesheet)
    } else if ext == "py"@ {
        Some(Language::Python)
    } else if ext == "rs"@ {
        Some(Language::Rust)
    } else {
        None
    }
}

/// A character in ASCII lower case.
pub open spec fn ascii_lower_char(c: char) -> char {
    if 'A' <= c && c <= 'Z' {
        ((c as u32 + 32) as u8) as char
    } else {
        c
    }
}

/// Text with its ASCII letters in lower case.
pub open spec fn ascii_lower(s: Seq<char>) -> Seq<char>
    decreases s.len(),
{
    if s.len() == 0 {
        Seq::empty()
    } else {
        ascii_lower(s.drop_last()).push(ascii_lower_char(s.last()))
    }
}

fn ascii_lower_exec(s: &Vec<char>) -> (r: Vec<char>)
    ensures
        r@ == ascii_lower(s@),
{
    let mut out: Vec<char> = Vec::new();
    let mut i: usize = 0;
    while i < s.len()
        invariant
            i <= s@.len(),
            out@ == ascii_lower(s@.subrange(0, i as int)),
        decreases s@.len() - i,
    {
        assert(s@.subrange(0, i + 1).drop_last() =~= s@.subrange(0, i as int));
        let c = s[i];
        if 'A' <= c && c <= 'Z' {
            out.push(((c as u32 + 32) as u8) as char);
        } else {
            out.push(c);
        }
        i = i + 1;
    }
    assert(s@.subrange(0, s@.len() as int) =~= s@);
    out
}

/// The family of a file, by its extension, whatever the case of its letters.
pub open spec fn language_of_path(path: Seq<char>) -> Option<Language> {
    match extension_of(path) {
        Some(e) => language_for(ascii_lower(e)),
        None => None,
    }
}

pub fn language_of(path: &str) -> (r: Option<Language>)
    ensures
        r == language_of_path(path@),
{
    let p = chars_of(path);
    let n = p.len();
    let mut s: usize = n;
    assert(p@.subrange(0, n as int) =~= p@);
    while s > 0 && p[s - 1] != '/'
        invariant
            s <= n == p@.len(),
            forall|k: int| s <= k < n ==> p@[k] != '/',
            last_index_of(p@, '/') == last_index_of(p@.subrange(0, s as int), '/'),
        decreases s,
    {
        assert(p@.subrange(0, s as int).drop_last() =~= p@.subrange(0, s - 1));
        s = s - 1;
    }
    proof {
        if s > 0 {
            assert(p@.subrange(0, s as int).last() == '/');
        }
    }
    let name = slice_chars(&p, s, n);
    assert(name@ == file_name_of(p@));
    let mut d: usize = name.len();
    let ghost nv = name@;
    assert(nv.subrange(0, nv.len() as int) =~= nv);
    while d > 0 && name[d - 1] != '.'
        invariant
            d <= name@.len(),
            nv == name@,
            last_index_of(nv, '.') == last_index_of(nv.subrange(0, d as int), '.'),
            forall|k: int| d <= k < nv.len() ==> nv[k] != '.',
        decreases d,
    {
        assert(nv.subrange(0, d as int).drop_last() =~= nv.subrange(0, d - 1));
        d = d - 1;
    }
    let is_parent = name.len() == 2 && name[0] == '.' && name[1] == '.';
    proof {
        if d > 0 {
            assert(nv.subrange(0, d as int).last() == '.');
        }
        if nv == seq!['.', '.'] {
            assert(is_parent);
        }
        if is_parent {
            assert(nv =~= seq!['.', '.']);
        }
    }
    if d <= 1 || is_parent {
        assert(!has_extension(nv)) by {
            if !is_parent && (exists|k: int| 0 < k < nv.len() && nv[k] == '.') {
                let k = choose|k: int| 0 < k < nv.len() && nv[k] == '.';
                assert(k >= d);
            }
        }
        return None;
    }
    assert(has_extension(nv)) by {
        assert(nv[d - 1] == '.');
    }
    let ext = ascii_lower_exec(&slice_chars(&name, d, name.len()));
    if eq_str(&ext, "js") || eq_str(&ext, "jsx") || eq_str(&ext, "ts") || eq_str(&ext, "tsx")
        || eq_str(&ext, "mjs") || eq_str(&ext, "cjs") {
        Some(Language::Script)
    } else if eq_str(&ext, "css") {
        Some(Language::Stylesheet)
    } else if eq_str(&ext, "py") {
        Some(Language::Python)
    } else if eq_str(&ext, "rs") {
        Some(Language::Rust)
    } else {
        None
    }
}

/// The extensions analyzed when none are configured.
pub open spec fn default_exts() -> Seq<Seq<char>> {
    seq!["ts"@, "tsx"@, "js"@, "jsx"@, "mjs"@, "cjs"@]
}

pub fn default_analyzer_exts() -> (r: Vec<String>)
    ensures
        str_views(r@) == default_exts(),
{
    let r = vec![
        "ts".to_owned(),
        "tsx".to_owned(),
        "js".to_owned(),
        "jsx".to_owned(),
        "mjs".to_owned(),
        "cjs".to_owned(),
    ];
    assert(str_views(r@) =~= default_exts());
    r
}

/// The record that extraction gives for a file of family `lang`.
pub open spec fn file_record(lang: Language, content: Seq<char>, path: Seq<char>) -> FileView {
    match lang {
        Language::Script => script_file(content, script_matches(content), path),
        Language::Stylesheet => css_file(matches_of(CSS_IMPORT@, content), path),
        Language::Python => py_file(content, py_matches(content), path),
        Language::Rust => rust_file(content, rust_matches(content), path),
    }
}

/// Extracts the record of one file with the extractor of its family.
pub fn analyze_content(lang: Language, content: &str, relative: String) -> (r: FileAnalysis)
    requires
        content@.len() < usize::MAX,
    ensures
        r@ == file_record(lang, content@, relative@),
{
    match lang {
        Language::Script => analyze_js_file(content, relative),
        Language::Stylesheet => analyze_css_file(content, relative),
        Language::Python => analyze_py_file(content, relative),
        Language::Rust => analyze_rust_file(content, relative),
    }
}

/// Whether the family's re-export specifiers are resolved against the disk.
pub open spec fn resolves_specifiers(lang: Language) -> bool {
    lang == Language::Script || lang == Language::Python
}

pub fn resolves(lang: Language) -> (r: bool)
    ensures
        r == resolves_specifiers(lang),
{
    match lang {
        Language::Script => true,
        Language::Python => true,
        _ => false,
    }
}

/// A record whose re-exports are those of `f` with the given targets.
pub open spec fn with_targets(f: FileView, targets: Seq<Option<Seq<char>>>) -> FileView {
    FileView {
        reexports: f.reexports.map(
            |i: int, r: ReexportView| ReexportView { resolved: targets[i], ..r },
        ),
        ..f
    }
}

fn copy_reexport(r: &ReexportEntry, resolved: Option<String>) -> (e: ReexportEntry)
    ensures
        e@ == (ReexportView { resolved: opt_view(resolved), ..r@ }),
{
    let kind = match &r.kind {
        ReexportKind::Star => ReexportKind::Star,
        ReexportKind::Named(names) => ReexportKind::Named(crate::types::copy_strings(names)),
    };
    ReexportEntry { source: r.source.clone(), kind, resolved }
}

/// Fills in the resolved target of each re-export, in order.
pub fn with_resolutions(record: FileAnalysis, targets: Vec<Option<String>>) -> (r: FileAnalysis)
    requires
        targets@.len() == record.reexports@.len(),
    ensures
        r@ == with_targets(record@, targets@.map_values(|t: Option<String>| opt_view(t))),
{
    let ghost tv = targets@.map_values(|t: Option<String>| opt_view(t));
    let ghost old_res = record@.reexports;
    let mut reexports: Vec<ReexportEntry> = Vec::new();
    let mut i: usize = 0;
    let n = record.reexports.len();
    while i < n
        invariant
            i <= n == record.reexports@.len() == old_res.len(),
            old_res == record@.reexports,
            targets@.len() == n,
            forall|k: int| i <= k < n ==> opt_view(#[trigger] targets@[k]) == tv[k],
            tv.len() == n,
            reexports_view(reexports@) == old_res.subrange(0, i as int).map(
                |k: int, r: ReexportView| ReexportView { resolved: tv[k], ..r },
            ),
        decreases n - i,
    {
        let t = match &targets[i] {
            Some(s) => Some(s.clone()),
            None => None,
        };
        let e = copy_reexport(&record.reexports[i], t);
        let ghost prev = reexports@;
        reexports.push(e);
        proof {
            lemma_reexports_push(prev, e);
        }
        assert(old_res.subrange(0, i + 1).map(
            |k: int, r: ReexportView| ReexportView { resolved: tv[k], ..r },
        ) =~= old_res.subrange(0, i as int).map(
            |k: int, r: ReexportView| ReexportView { resolved: tv[k], ..r },
        ).push(e@));
        i = i + 1;
    }
    assert(old_res.subrange(0, n as int) =~= old_res);
    let r = FileAnalysis { reexports, ..record };
    assert(r@.reexports =~= with_targets(record@, tv).reexports);
    r
}

/// Every entry lists exactly the owners of its name.
pub open spec fn all_owned(files: Seq<FileView>, es: Seq<(Seq<char>, Seq<Seq<char>>)>) -> bool {
    forall|i: int| 0 <= i < es.len() ==> (#[trigger] es[i]).1 == owners(files, es[i].0)
}

proof fn lemma_index_owned(files: Seq<FileView>, names: Seq<Seq<char>>)
    ensures
        all_owned(files, index_of(files, names)),
    decreases names.len(),
{
    if names.len() > 0 {
        lemma_index_owned(files, names.drop_last());
    }
}

proof fn lemma_duplicates_owned(files: Seq<FileView>, es: Seq<(Seq<char>, Seq<Seq<char>>)>)
    requires
        all_owned(files, es),
    ensures
        all_owned(files, duplicate_entries(es)),
        forall|i: int|
            0 <= i < duplicate_entries(es).len() ==> (#[trigger] duplicate_entries(es)[i]).1.len()
                >= 2,
    decreases es.len(),
{
    if es.len() > 0 {
        assert(all_owned(files, es.drop_last()));
        lemma_duplicates_owned(files, es.drop_last());
    }
}

proof fn lemma_duplicates_scorable(files: Seq<FileView>)
    requires
        files.len() <= usize::MAX / 2,
    ensures
        scorable(duplicate_entries(export_index(files))),
{
    let idx = export_index(files);
    lemma_index_owned(files, crate::aggregate::dedup(crate::aggregate::all_export_names(files)));
    lemma_duplicates_owned(files, idx);
    let d = duplicate_entries(idx);
    assert forall|i: int| 0 <= i < d.len() implies {
        &&& (#[trigger] d[i]).1.len() > 0
        &&& d[i].1.len() <= usize::MAX / 2
        &&& d[i].1.no_duplicates()
    } by {
        lemma_owners_len(files, d[i].0);
        lemma_owners_distinct(files, d[i].0);
    }
}

/// The findings over all records of one root.
pub struct RootSummary {
    pub files_analyzed: usize,
    pub export_index: Vec<IndexEntry>,
    /// Index entries with two or more owning files, in index order.
    pub duplicates: Vec<IndexEntry>,
    /// The scored duplicate groups, best-ranked first.
    pub ranked: Vec<RankedDup>,
    pub cascades: Vec<(String, String)>,
    pub dynamic: Vec<DynamicSummary>,
    pub missing_handlers: Vec<CommandGap>,
    pub unused_handlers: Vec<CommandGap>,
}

/// Runs the aggregator and the command matcher over a root's records, in
/// processing order.
pub fn summarize_root(files: &Vec<FileAnalysis>) -> (r: RootSummary)
    requires
        files@.len() <= usize::MAX / 2,
    ensures
        r.files_analyzed == files@.len(),
        entries_view(r.export_index@) == export_index(files_view(files@)),
        entries_view(r.duplicates@) == duplicate_entries(export_index(files_view(files@))),
        is_ranked_groups(
            duplicate_entries(export_index(files_view(files@))),
            groups_view(r.ranked@),
        ),
        pairs_view(r.cascades@) == reexport_cascades(files_view(files@)),
        dynamics_view(r.dynamic@) == dynamic_summaries(files_view(files@)),
        gaps_view(r.missing_handlers@) == command_gaps(files_view(files@), true),
        gaps_view(r.unused_handlers@) == command_gaps(files_view(files@), false),
{
    let index = build_export_index(files);
    let duplicates = duplicate_exports(&index);
    proof {
        lemma_duplicates_scorable(files_view(files@));
    }
    let ranked = rank_duplicates(&duplicates);
    RootSummary {
        files_analyzed: files.len(),
        export_index: index,
        duplicates,
        ranked,
        cascades: find_cascades(files),
        dynamic: summarize_dynamic(files),
        missing_handlers: missing_handlers(files),
        unused_handlers: unused_handlers(files),
    }
}

/// Every name of a named re-export is also an export of kind `reexport`.
pub open spec fn reexports_exported(f: FileView) -> bool {
    forall|i: int, j: int|
        0 <= i < f.reexports.len() && f.reexports[i].kind is Named && 0 <= j
            < f.reexports[i].kind->Named_0.len() ==> f.exports.contains(
            ExportView { name: #[trigger] f.reexports[i].kind->Named_0[j], kind: "reexport"@ },
        )
}

proof fn lemma_suffix_exports(pre: Seq<ExportView>, res: Seq<ReexportView>)
    ensures
        reexports_exported(
            FileView {
                path: Seq::empty(),
                loc: 0,
                imports: Seq::empty(),
                reexports: res,
                dynamic_imports: Seq::empty(),
                exports: pre + reexport_exports(res),
                command_calls: Seq::empty(),
                command_handlers: Seq::empty(),
            },
        ),
{
    assert forall|i: int, j: int|
        0 <= i < res.len() && res[i].kind is Named && 0 <= j
            < res[i].kind->Named_0.len() implies (pre + reexport_exports(res)).contains(
        ExportView { name: #[trigger] res[i].kind->Named_0[j], kind: "reexport"@ },
    ) by {
        lemma_reexport_exports_contain(res, i, j);
        let e = ExportView { name: res[i].kind->Named_0[j], kind: "reexport"@ };
        let k = choose|k: int| 0 <= k < reexport_exports(res).len() && reexport_exports(res)[k] == e;
        assert((pre + reexport_exports(res))[pre.len() + k] == e);
    }
}

proof fn lemma_line_reexports_star(lines: Seq<Seq<char>>)
    ensures
        forall|i: int|
            0 <= i < lines_reexports(lines).len() ==> (#[trigger] lines_reexports(lines)[i]).kind
                is Star,
    decreases lines.len(),
{
    if lines.len() > 0 {
        lemma_line_reexports_star(lines.drop_last());
    }
}

/// For every family and every file text, each name inside a named re-export
/// also appears among the file's exports with kind `reexport`.
pub proof fn lemma_named_reexports_exported(lang: Language, content: Seq<char>, path: Seq<char>)
    ensures
        reexports_exported(file_record(lang, content, path)),
{
    let f = file_record(lang, content, path);
    match lang {
        Language::Script => {
            let m = script_matches(content);
            let res = script_reexports(m);
            let pre = crate::js::decl_exports(m.export_decls) + crate::js::default_exports(
                m.export_defaults,
            ) + crate::js::brace_exports(m.export_braces);
            lemma_suffix_exports(pre, res);
        },
        Language::Rust => {
            let m = rust_matches(content);
            let res = pub_use_reexports(m.pub_uses);
            lemma_suffix_exports(Seq::empty(), res);
            let ex = reexport_exports(res) + crate::rust_lang::decl_exports_each(m.decls);
            assert forall|i: int, j: int|
                0 <= i < res.len() && res[i].kind is Named && 0 <= j
                    < res[i].kind->Named_0.len() implies ex.contains(
                ExportView { name: #[trigger] res[i].kind->Named_0[j], kind: "reexport"@ },
            ) by {
                let e = ExportView { name: res[i].kind->Named_0[j], kind: "reexport"@ };
                assert((Seq::<ExportView>::empty() + reexport_exports(res)) =~= reexport_exports(res));
                assert(reexport_exports(res).contains(e));
                let k = choose|k: int| 0 <= k < reexport_exports(res).len() && reexport_exports(res)[k] == e;
                assert(ex[k] == e);
            }
        },
        Language::Python => {
            lemma_line_reexports_star(lines_of(content));
        },
        Language::Stylesheet => {},
    }
}

/// Extraction is a function of the file's family, text and path alone:
/// running it again on unchanged input gives the same record.
pub proof fn lemma_extraction_repeatable(
    lang: Language,
    content1: Seq<char>,
    content2: Seq<char>,
    path1: Seq<char>,
    path2: Seq<char>,
)
    requires
        content1 == content2,
        path1 == path2,
    ensures
        file_record(lang, content1, path1) == file_record(lang, content2, path2),
{
}

proof fn lemma_star_only_names(res: Seq<ReexportView>)
    requires
        forall|i: int| 0 <= i < res.len() ==> (#[trigger] res[i]).kind is Star,
    ensures
        crate::extract::named_reexport_names(res) == Seq::<Seq<char>>::empty(),
    decreases res.len(),
{
    if res.len() > 0 {
        assert(res[res.len() - 1].kind is Star);
        lemma_star_only_names(res.drop_last());
    }
}

/// For every family and every file text, the exports of kind `reexport` name
/// exactly the names inside the named re-exports, in the same order.
pub proof fn lemma_reexport_names_in_order(lang: Language, content: Seq<char>, path: Seq<char>)
    ensures
        crate::extract::names_of_kind(file_record(lang, content, path).exports, "reexport"@)
            == crate::extract::named_reexport_names(file_record(lang, content, path).reexports),
{
    match lang {
        Language::Script => {
            let m = script_matches(content);
            let res = script_reexports(m);
            let pre = crate::js::decl_exports(m.export_decls) + crate::js::default_exports(
                m.export_defaults,
            ) + crate::js::brace_exports(m.export_braces);
            crate::js::lemma_local_exports_not_reexport(m);
            lemma_no_reexport_names(pre);
            lemma_names_of_kind_add(pre, reexport_exports(res), "reexport"@);
            lemma_reexport_exports_names(res);
            assert(Seq::<Seq<char>>::empty() + crate::extract::named_reexport_names(res)
                =~= crate::extract::named_reexport_names(res));
        },
        Language::Rust => {
            let m = rust_matches(content);
            let res = pub_use_reexports(m.pub_uses);
            let decls = crate::rust_lang::decl_exports_each(m.decls);
            crate::rust_lang::lemma_decl_exports_not_reexport(m.decls);
            lemma_no_reexport_names(decls);
            lemma_names_of_kind_add(reexport_exports(res), decls, "reexport"@);
            lemma_reexport_exports_names(res);
            assert(crate::extract::named_reexport_names(res) + Seq::<Seq<char>>::empty()
                =~= crate::extract::named_reexport_names(res));
        },
        Language::Python => {
            let m = py_matches(content);
            crate::py::lemma_py_exports_not_reexport(m);
            lemma_no_reexport_names(file_record(lang, content, path).exports);
            lemma_line_reexports_star(lines_of(content));
            lemma_star_only_names(lines_reexports(lines_of(content)));
        },
        Language::Stylesheet => {},
    }
}

} // verus!
