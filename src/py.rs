//! The extractor for Python modules: line-based `import` / `from` handling,
//! dynamic imports, `__all__`, and public top-level `def` / `class`.
use vstd::prelude::*;

use crate::extract::{lemma_no_reexport_concat, no_reexport_kind, CapView};
use crate::patterns::{
    captures_view, find_matches, group_text, has_group, matches_of, Captures, PY_ALL, PY_CLASS,
    PY_DEF, PY_DUNDER_IMPORT, PY_IMPORTLIB,
};
use crate::text::{
    before_first, before_first_exec, chars_eq, chars_of, find_exec, find_from, lemma_str_views_push,
    slice_chars, split, split_on, starts_with, starts_with_exec, str_views, string_of,
    strip_leading, strip_leading_exec, strip_quotes, strip_quotes_exec, strip_trailing,
    strip_trailing_exec, trim, trim_chars, trim_end, trim_end_chars, trim_start, trim_start_chars,
    views,
};
use crate::types::{
    exports_view, imports_view, lemma_exports_push, lemma_imports_push, lemma_reexports_push,
    reexports_view, ExportSymbol, ExportView, FileAnalysis, FileView, ImportEntry, ImportKind,
    ImportView, ReexportEntry, ReexportKind, ReexportKindView, ReexportView,
};

verus! {

/// A line without one trailing carriage return.
pub open spec fn strip_cr(l: Seq<char>) -> Seq<char> {
    if l.len() > 0 && l.last() == '\r' {
        l.drop_last()
    } else {
        l
    }
}

pub open spec fn stripped_lines(pieces: Seq<Seq<char>>) -> Seq<Seq<char>>
    decreases pieces.len(),
{
    if pieces.len() == 0 {
        Seq::empty()
    } else {
        stripped_lines(pieces.drop_last()).push(strip_cr(pieces.last()))
    }
}

/// The lines of a text, as `str::lines` gives them: split at `\n`, each
/// terminated line without a trailing `\r`, and no empty final line.
pub open spec fn lines_of(s: Seq<char>) -> Seq<Seq<char>> {
    let p = split(s, '\n');
    let body = stripped_lines(p.drop_last());
    if p.last().len() > 0 {
        body.push(p.last())
    } else {
        body
    }
}

/// The module of one item of `import a, b as c`: the name before any alias.
pub open spec fn import_item(part: Seq<char>) -> Seq<char> {
    let name = trim(part);
    match find_from(name, " as "@, 0) {
        Some(k) => trim(name.subrange(0, k)),
        None => name,
    }
}

pub open spec fn import_items(parts: Seq<Seq<char>>) -> Seq<ImportView>
    decreases parts.len(),
{
    if parts.len() == 0 {
        Seq::empty()
    } else {
        let rest = import_items(parts.drop_last());
        let n = import_item(parts.last());
        if n.len() > 0 {
            rest.push(ImportView { source: n, kind: ImportKind::Static })
        } else {
            rest
        }
    }
}

/// The code of a line: before any `#`, without trailing or leading blanks.
pub open spec fn line_code(line: Seq<char>) -> Seq<char> {
    trim_start(trim_end(before_first(line, '#')))
}

/// The module of `from module import names`, without trailing dots.
pub open spec fn from_module(head: Seq<char>) -> Seq<char> {
    strip_trailing(trim(head), '.')
}

/// The imported names of `from module import names`, without parentheses.
pub open spec fn from_names(tail: Seq<char>) -> Seq<char> {
    trim(
        before_first(
            strip_trailing(
                strip_leading(strip_trailing(strip_leading(trim(tail), '('), '('), ')'),
                ')',
            ),
            '#',
        ),
    )
}

/// The imports and star re-exports that one line gives.
pub open spec fn line_effects(line: Seq<char>) -> (Seq<ImportView>, Seq<ReexportView>) {
    let t = line_code(line);
    if starts_with(t, "import "@) {
        (import_items(split(t.subrange("import "@.len() as int, t.len() as int), ',')), Seq::empty())
    } else if starts_with(t, "from "@) {
        let rest = t.subrange("from "@.len() as int, t.len() as int);
        match find_from(rest, " import "@, 0) {
            Some(k) => {
                let module = from_module(rest.subrange(0, k));
                let names = from_names(rest.subrange(k + " import "@.len(), rest.len() as int));
                let imports = if module.len() > 0 {
                    seq![ImportView { source: module, kind: ImportKind::Static }]
                } else {
                    Seq::empty()
                };
                let reexports = if names == "*"@ {
                    seq![
                        ReexportView {
                            source: module,
                            kind: ReexportKindView::Star,
                            resolved: None,
                        },
                    ]
                } else {
                    Seq::empty()
                };
                (imports, reexports)
            },
            None => (Seq::empty(), Seq::empty()),
        }
    } else {
        (Seq::empty(), Seq::empty())
    }
}

pub open spec fn lines_imports(lines: Seq<Seq<char>>) -> Seq<ImportView>
    decreases lines.len(),
{
    if lines.len() == 0 {
        Seq::empty()
    } else {
        lines_imports(lines.drop_last()) + line_effects(lines.last()).0
    }
}

pub open spec fn lines_reexports(lines: Seq<Seq<char>>) -> Seq<ReexportView>
    decreases lines.len(),
{
    if lines.len() == 0 {
        Seq::empty()
    } else {
        lines_reexports(lines.drop_last()) + line_effects(lines.last()).1
    }
}

/// The text of group 1 of each match where it took part.
pub open spec fn present_texts(caps: Seq<CapView>) -> Seq<Seq<char>>
    decreases caps.len(),
{
    if caps.len() == 0 {
        Seq::empty()
    } else {
        let rest = present_texts(caps.drop_last());
        if has_group(caps.last(), 1) {
            rest.push(group_text(caps.last(), 1))
        } else {
            rest
        }
    }
}

/// The names listed in one `__all__` body.
pub open spec fn all_names(items: Seq<Seq<char>>) -> Seq<ExportView>
    decreases items.len(),
{
    if items.len() == 0 {
        Seq::empty()
    } else {
        let rest = all_names(items.drop_last());
        let n = trim(strip_quotes(trim(items.last())));
        if n.len() > 0 {
            rest.push(ExportView { name: n, kind: "__all__"@ })
        } else {
            rest
        }
    }
}

pub open spec fn all_exports(caps: Seq<CapView>) -> Seq<ExportView>
    decreases caps.len(),
{
    if caps.len() == 0 {
        Seq::empty()
    } else {
        all_exports(caps.drop_last()) + all_names(split(group_text(caps.last(), 1), ','))
    }
}

/// Top-level definitions whose name does not start with `_`, as `kind`.
pub open spec fn public_defs(caps: Seq<CapView>, kind: Seq<char>) -> Seq<ExportView>
    decreases caps.len(),
{
    if caps.len() == 0 {
        Seq::empty()
    } else {
        let rest = public_defs(caps.drop_last(), kind);
        let c = caps.last();
        if has_group(c, 1) && !starts_with(group_text(c, 1), "_"@) {
            rest.push(ExportView { name: group_text(c, 1), kind })
        } else {
            rest
        }
    }
}

/// The matches of every Python pattern in one file.
pub struct PyMatches {
    pub importlib: Vec<Captures>,
    pub dunder: Vec<Captures>,
    pub all: Vec<Captures>,
    pub defs: Vec<Captures>,
    pub classes: Vec<Captures>,
}

pub struct PyMatchesView {
    pub importlib: Seq<CapView>,
    pub dunder: Seq<CapView>,
    pub all: Seq<CapView>,
    pub defs: Seq<CapView>,
    pub classes: Seq<CapView>,
}

impl View for PyMatches {
    type V = PyMatchesView;

    open spec fn view(&self) -> PyMatchesView {
        PyMatchesView {
            importlib: captures_view(self.importlib@),
            dunder: captures_view(self.dunder@),
            all: captures_view(self.all@),
            defs: captures_view(self.defs@),
            classes: captures_view(self.classes@),
        }
    }
}

pub open spec fn py_matches(content: Seq<char>) -> PyMatchesView {
    PyMatchesView {
        importlib: matches_of(PY_IMPORTLIB@, content),
        dunder: matches_of(PY_DUNDER_IMPORT@, content),
        all: matches_of(PY_ALL@, content),
        defs: matches_of(PY_DEF@, content),
        classes: matches_of(PY_CLASS@, content),
    }
}

/// The record of a Python module, given its text and what its patterns matched.
pub open spec fn py_file(content: Seq<char>, m: PyMatchesView, path: Seq<char>) -> FileView {
    FileView {
        path,
        loc: 0,
        imports: lines_imports(lines_of(content)),
        reexports: lines_reexports(lines_of(content)),
        dynamic_imports: present_texts(m.importlib) + present_texts(m.dunder),
        exports: all_exports(m.all) + public_defs(m.defs, "def"@) + public_defs(
            m.classes,
            "class"@,
        ),
        command_calls: Seq::empty(),
        command_handlers: Seq::empty(),
    }
}

fn lines_exec(s: &Vec<char>) -> (r: Vec<Vec<char>>)
    ensures
        views(r@) == lines_of(s@),
{
    let mut pieces = split_on(s, '\n');
    proof {
        crate::text::lemma_split_nonempty(s@, '\n', Seq::empty());
    }
    let ghost pv = views(pieces@);
    let last = pieces.pop().unwrap();
    assert(views(pieces@) =~= pv.drop_last());
    assert(last@ == pv.last());
    let ghost bv = pv.drop_last();
    let mut out: Vec<Vec<char>> = Vec::new();
    let mut i: usize = 0;
    while i < pieces.len()
        invariant
            i <= pieces@.len(),
            bv == views(pieces@),
            views(out@) == stripped_lines(bv.subrange(0, i as int)),
        decreases pieces@.len() - i,
    {
        assert(bv.subrange(0, i + 1).drop_last() =~= bv.subrange(0, i as int));
        let p = &pieces[i];
        let n = p.len();
        let l = if n > 0 && p[n - 1] == '\r' {
            slice_chars(p, 0, n - 1)
        } else {
            slice_chars(p, 0, n)
        };
        assert(l@ =~= strip_cr(p@));
        let ghost prev = out@;
        out.push(l);
        proof {
            crate::text::lemma_views_push(prev, l);
        }
        i = i + 1;
    }
    assert(bv.subrange(0, pieces@.len() as int) =~= bv);
    if last.len() > 0 {
        let ghost prev = out@;
        out.push(last);
        proof {
            crate::text::lemma_views_push(prev, last);
        }
    }
    out
}

fn push_import_items(out: &mut Vec<ImportEntry>, rest: &Vec<char>)
    ensures
        imports_view(final(out)@) == imports_view(old(out)@) + import_items(split(rest@, ',')),
{
    let parts = split_on(rest, ',');
    let ghost pv = views(parts@);
    let sep = chars_of(" as ");
    let mut i: usize = 0;
    while i < parts.len()
        invariant
            i <= parts@.len(),
            pv == views(parts@),
            pv == split(rest@, ','),
            sep@ == " as "@,
            imports_view(out@) == imports_view(old(out)@) + import_items(pv.subrange(0, i as int)),
        decreases parts@.len() - i,
    {
        assert(pv.subrange(0, i + 1).drop_last() =~= pv.subrange(0, i as int));
        let name = trim_chars(&parts[i]);
        let n = name.len();
        let item = match find_exec(&name, &sep, 0) {
            Some(k) => trim_chars(&slice_chars(&name, 0, k)),
            None => name,
        };
        if item.len() > 0 {
            let e = ImportEntry { source: string_of(&item), kind: ImportKind::Static };
            let ghost prev = out@;
            out.push(e);
            proof {
                lemma_imports_push(prev, e);
            }
        }
        i = i + 1;
    }
    assert(pv.subrange(0, parts@.len() as int) =~= pv);
}

fn from_names_exec(tail: &Vec<char>) -> (r: Vec<char>)
    ensures
        r@ == from_names(tail@),
{
    let a = trim_chars(tail);
    let b = strip_trailing_exec(&strip_leading_exec(&a, '('), '(');
    let c = strip_trailing_exec(&strip_leading_exec(&b, ')'), ')');
    trim_chars(&before_first_exec(&c, '#'))
}

fn push_line_effects(imports: &mut Vec<ImportEntry>, reexports: &mut Vec<ReexportEntry>, line: &Vec<char>)
    ensures
        imports_view(final(imports)@) == imports_view(old(imports)@) + line_effects(line@).0,
        reexports_view(final(reexports)@) == reexports_view(old(reexports)@) + line_effects(line@).1,
{
    let t = trim_start_chars(&trim_end_chars(&before_first_exec(line, '#')));
    let n = t.len();
    proof {
        reveal_strlit("import ");
        reveal_strlit("from ");
        reveal_strlit(" import ");
    }
    if starts_with_exec(&t, "import ") {
        let rest = slice_chars(&t, 7, n);
        push_import_items(imports, &rest);
        assert(reexports_view(reexports@) =~= reexports_view(old(reexports)@) + Seq::empty());
    } else if starts_with_exec(&t, "from ") {
        let rest = slice_chars(&t, 5, n);
        let sep = chars_of(" import ");
        let rn = rest.len();
        match find_exec(&rest, &sep, 0) {
            Some(k) => {
                let module = strip_trailing_exec(&trim_chars(&slice_chars(&rest, 0, k)), '.');
                let names = from_names_exec(&slice_chars(&rest, k + 8, rn));
                if module.len() > 0 {
                    let e = ImportEntry { source: string_of(&module), kind: ImportKind::Static };
                    let ghost prev = imports@;
                    imports.push(e);
                    proof {
                        lemma_imports_push(prev, e);
                    }
                } else {
                    assert(imports_view(imports@) =~= imports_view(old(imports)@) + Seq::empty());
                }
                let star = chars_of("*");
                if chars_eq(&names, &star) {
                    let e = ReexportEntry {
                        source: string_of(&module),
                        kind: ReexportKind::Star,
                        resolved: None,
                    };
                    let ghost prev = reexports@;
                    reexports.push(e);
                    proof {
                        lemma_reexports_push(prev, e);
                    }
                } else {
                    assert(reexports_view(reexports@) =~= reexports_view(old(reexports)@) + Seq::empty());
                }
            },
            None => {
                assert(imports_view(imports@) =~= imports_view(old(imports)@) + Seq::empty());
                assert(reexports_view(reexports@) =~= reexports_view(old(reexports)@) + Seq::empty());
            },
        }
    } else {
        assert(imports_view(imports@) =~= imports_view(old(imports)@) + Seq::empty());
        assert(reexports_view(reexports@) =~= reexports_view(old(reexports)@) + Seq::empty());
    }
}

fn push_present_texts(out: &mut Vec<String>, caps: &Vec<Captures>)
    ensures
        str_views(final(out)@) == str_views(old(out)@) + present_texts(captures_view(caps@)),
{
    let ghost cv = captures_view(caps@);
    let mut i: usize = 0;
    while i < caps.len()
        invariant
            i <= caps@.len(),
            cv == captures_view(caps@),
            str_views(out@) == str_views(old(out)@) + present_texts(cv.subrange(0, i as int)),
        decreases caps@.len() - i,
    {
        assert(cv.subrange(0, i + 1).drop_last() =~= cv.subrange(0, i as int));
        if caps[i].has(1) {
            let s = caps[i].text(1);
            let ghost prev = out@;
            out.push(s);
            proof {
                lemma_str_views_push(prev, s);
            }
        }
        i = i + 1;
    }
    assert(cv.subrange(0, caps@.len() as int) =~= cv);
}

fn push_all_exports(out: &mut Vec<ExportSymbol>, caps: &Vec<Captures>)
    ensures
        exports_view(final(out)@) == exports_view(old(out)@) + all_exports(captures_view(caps@)),
{
    let ghost cv = captures_view(caps@);
    let mut i: usize = 0;
    while i < caps.len()
        invariant
            i <= caps@.len(),
            cv == captures_view(caps@),
            exports_view(out@) == exports_view(old(out)@) + all_exports(cv.subrange(0, i as int)),
        decreases caps@.len() - i,
    {
        assert(cv.subrange(0, i + 1).drop_last() =~= cv.subrange(0, i as int));
        let body = caps[i].text(1);
        let items = split_on(&chars_of(body.as_str()), ',');
        let ghost iv = views(items@);
        let ghost base = exports_view(out@);
        let mut k: usize = 0;
        while k < items.len()
            invariant
                k <= items@.len(),
                iv == views(items@),
                exports_view(out@) == base + all_names(iv.subrange(0, k as int)),
            decreases items@.len() - k,
        {
            assert(iv.subrange(0, k + 1).drop_last() =~= iv.subrange(0, k as int));
            let name = trim_chars(&strip_quotes_exec(&trim_chars(&items[k])));
            if name.len() > 0 {
                let e = ExportSymbol { name: string_of(&name), kind: "__all__".to_owned() };
                let ghost prev = out@;
                out.push(e);
                proof {
                    lemma_exports_push(prev, e);
                }
            }
            k = k + 1;
        }
        assert(iv.subrange(0, items@.len() as int) =~= iv);
        i = i + 1;
    }
    assert(cv.subrange(0, caps@.len() as int) =~= cv);
}

fn push_public_defs(out: &mut Vec<ExportSymbol>, caps: &Vec<Captures>, kind: &str)
    ensures
        exports_view(final(out)@) == exports_view(old(out)@) + public_defs(
            captures_view(caps@),
            kind@,
        ),
{
    let ghost cv = captures_view(caps@);
    let mut i: usize = 0;
    while i < caps.len()
        invariant
            i <= caps@.len(),
            cv == captures_view(caps@),
            exports_view(out@) == exports_view(old(out)@) + public_defs(cv.subrange(0, i as int), kind@),
        decreases caps@.len() - i,
    {
        assert(cv.subrange(0, i + 1).drop_last() =~= cv.subrange(0, i as int));
        if caps[i].has(1) {
            let name = caps[i].text(1);
            if !starts_with_exec(&chars_of(name.as_str()), "_") {
                let e = ExportSymbol { name, kind: kind.to_owned() };
                let ghost prev = out@;
                out.push(e);
                proof {
                    lemma_exports_push(prev, e);
                }
            }
        }
        i = i + 1;
    }
    assert(cv.subrange(0, caps@.len() as int) =~= cv);
}

/// Builds the record of a Python module from its text and pattern matches.
pub fn py_record(content: &str, m: &PyMatches, relative: String) -> (r: FileAnalysis)
    ensures
        r@ == py_file(content@, m@, relative@),
{
    let text = chars_of(content);
    let lines = lines_exec(&text);
    let ghost lv = views(lines@);
    let mut imports: Vec<ImportEntry> = Vec::new();
    let mut reexports: Vec<ReexportEntry> = Vec::new();
    let mut i: usize = 0;
    assert(imports_view(imports@) =~= Seq::empty());
    assert(reexports_view(reexports@) =~= Seq::empty());
    while i < lines.len()
        invariant
            i <= lines@.len(),
            lv == views(lines@),
            imports_view(imports@) == lines_imports(lv.subrange(0, i as int)),
            reexports_view(reexports@) == lines_reexports(lv.subrange(0, i as int)),
        decreases lines@.len() - i,
    {
        assert(lv.subrange(0, i + 1).drop_last() =~= lv.subrange(0, i as int));
        push_line_effects(&mut imports, &mut reexports, &lines[i]);
        i = i + 1;
    }
    assert(lv.subrange(0, lines@.len() as int) =~= lv);
    let mut dynamic_imports: Vec<String> = Vec::new();
    assert(str_views(dynamic_imports@) =~= Seq::empty());
    push_present_texts(&mut dynamic_imports, &m.importlib);
    push_present_texts(&mut dynamic_imports, &m.dunder);
    let mut exports: Vec<ExportSymbol> = Vec::new();
    assert(exports_view(exports@) =~= Seq::empty());
    push_all_exports(&mut exports, &m.all);
    push_public_defs(&mut exports, &m.defs, "def");
    push_public_defs(&mut exports, &m.classes, "class");
    let r = FileAnalysis {
        path: relative,
        loc: 0,
        imports,
        reexports,
        dynamic_imports,
        exports,
        command_calls: Vec::new(),
        command_handlers: Vec::new(),
    };
    assert(r@.dynamic_imports =~= py_file(content@, m@, relative@).dynamic_imports);
    assert(r@.exports =~= py_file(content@, m@, relative@).exports);
    assert(r@.command_calls =~= Seq::empty());
    assert(r@.command_handlers =~= Seq::empty());
    r
}

pub fn py_pattern_matches(content: &str) -> (r: PyMatches)
    ensures
        r@ == py_matches(content@),
{
    PyMatches {
        importlib: find_matches(PY_IMPORTLIB, content),
        dunder: find_matches(PY_DUNDER_IMPORT, content),
        all: find_matches(PY_ALL, content),
        defs: find_matches(PY_DEF, content),
        classes: find_matches(PY_CLASS, content),
    }
}

/// Extracts the record of a Python module; star re-exports are left
/// unresolved (see `resolve`).
pub fn analyze_py_file(content: &str, relative: String) -> (r: FileAnalysis)
    ensures
        r@ == py_file(content@, py_matches(content@), relative@),
{
    let m = py_pattern_matches(content);
    py_record(content, &m, relative)
}


/// The exports of a Python module carry no `reexport` kind.
pub proof fn lemma_py_exports_not_reexport(m: PyMatchesView)
    ensures
        no_reexport_kind(
            all_exports(m.all) + public_defs(m.defs, "def"@) + public_defs(m.classes, "class"@),
        ),
{
    reveal_strlit("__all__");
    reveal_strlit("def");
    reveal_strlit("class");
    reveal_strlit("reexport");
    lemma_all_kinds(m.all);
    lemma_def_kinds(m.defs, "def"@);
    lemma_def_kinds(m.classes, "class"@);
    let a = all_exports(m.all);
    let b = public_defs(m.defs, "def"@);
    let c = public_defs(m.classes, "class"@);
    assert("__all__"@.len() != "reexport"@.len());
    assert("def"@.len() != "reexport"@.len());
    assert("class"@.len() != "reexport"@.len());
    assert forall|i: int| 0 <= i < a.len() implies (#[trigger] a[i]).kind != "reexport"@ by {
        assert(a[i].kind == "__all__"@);
    }
    assert forall|i: int| 0 <= i < b.len() implies (#[trigger] b[i]).kind != "reexport"@ by {
        assert(b[i].kind == "def"@);
    }
    assert forall|i: int| 0 <= i < c.len() implies (#[trigger] c[i]).kind != "reexport"@ by {
        assert(c[i].kind == "class"@);
    }
    lemma_no_reexport_concat(a, b);
    lemma_no_reexport_concat(a + b, c);
}

proof fn lemma_all_names_kinds(items: Seq<Seq<char>>)
    ensures
        forall|i: int| 0 <= i < all_names(items).len() ==> (#[trigger] all_names(items)[i]).kind == "__all__"@,
    decreases items.len(),
{
    if items.len() > 0 {
        lemma_all_names_kinds(items.drop_last());
        let rest = all_names(items.drop_last());
        let all = all_names(items);
        assert forall|i: int| 0 <= i < all.len() && i < rest.len() implies #[trigger] all[i] == rest[i] by {}
    }
}

proof fn lemma_all_kinds(caps: Seq<CapView>)
    ensures
        forall|i: int| 0 <= i < all_exports(caps).len() ==> (#[trigger] all_exports(caps)[i]).kind == "__all__"@,
    decreases caps.len(),
{
    if caps.len() > 0 {
        lemma_all_kinds(caps.drop_last());
        let a = all_exports(caps.drop_last());
        let b = all_names(split(group_text(caps.last(), 1), ','));
        lemma_all_names_kinds(split(group_text(caps.last(), 1), ','));
        assert forall|i: int| 0 <= i < (a + b).len() implies (#[trigger] (a + b)[i]).kind == "__all__"@ by {
            if i >= a.len() {
                assert((a + b)[i] == b[i - a.len()]);
            } else {
                assert((a + b)[i] == a[i]);
            }
        }
    }
}

proof fn lemma_def_kinds(caps: Seq<CapView>, kind: Seq<char>)
    ensures
        forall|i: int| 0 <= i < public_defs(caps, kind).len() ==> (#[trigger] public_defs(caps, kind)[i]).kind == kind,
    decreases caps.len(),
{
    if caps.len() > 0 {
        lemma_def_kinds(caps.drop_last(), kind);
        let rest = public_defs(caps.drop_last(), kind);
        let all = public_defs(caps, kind);
        assert forall|i: int| 0 <= i < all.len() && i < rest.len() implies #[trigger] all[i] == rest[i] by {}
    }
}

} // verus!
