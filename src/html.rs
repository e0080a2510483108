//! The self-contained HTML report: one section per root with the ranked
//! duplicates, cascades, dynamic imports, command coverage and import graph.
//! All paths and symbol names are escaped before they are inserted.
use vstd::prelude::*;

use crate::aggregate::{RankedDup, RankedDupView};
use crate::commands::{locations_view, CommandGap};
use crate::open::{url_encode, url_encode_component};
use crate::text::{
    chars_of, decimal, join_with, push_decimal, push_joined, push_str, str_views, string_of,
};

verus! {

/// The HTML-escaped form of one character.
pub open spec fn escape_char(c: char) -> Seq<char> {
    if c == '&' {
        "&amp;"@
    } else if c == '<' {
        "&lt;"@
    } else if c == '>' {
        "&gt;"@
    } else if c == '"' {
        "&quot;"@
    } else {
        seq![c]
    }
}

/// Text with `&`, `<`, `>` and `"` escaped.
pub open spec fn escape(s: Seq<char>) -> Seq<char>
    decreases s.len(),
{
    if s.len() == 0 {
        Seq::empty()
    } else {
        escape(s.drop_last()) + escape_char(s.last())
    }
}

fn push_escaped_chars(out: &mut Vec<char>, s: &Vec<char>)
    ensures
        final(out)@ == old(out)@ + escape(s@),
{
    let mut i: usize = 0;
    while i < s.len()
        invariant
            i <= s@.len(),
            out@ == old(out)@ + escape(s@.subrange(0, i as int)),
        decreases s@.len() - i,
    {
        assert(s@.subrange(0, i + 1).drop_last() =~= s@.subrange(0, i as int));
        let c = s[i];
        if c == '&' {
            push_str(out, "&amp;");
        } else if c == '<' {
            push_str(out, "&lt;");
        } else if c == '>' {
            push_str(out, "&gt;");
        } else if c == '"' {
            push_str(out, "&quot;");
        } else {
            out.push(c);
        }
        assert(out@ =~= old(out)@ + escape(s@.subrange(0, i + 1)));
        i = i + 1;
    }
    assert(s@.subrange(0, s@.len() as int) =~= s@);
}

fn push_escaped(out: &mut Vec<char>, s: &str)
    ensures
        final(out)@ == old(out)@ + escape(s@),
{
    let v = chars_of(s);
    push_escaped_chars(out, &v);
}

/// Escapes text for insertion into HTML.
pub fn escape_html(raw: &str) -> (r: String)
    ensures
        r@ == escape(raw@),
{
    let mut out: Vec<char> = Vec::new();
    push_escaped(&mut out, raw);
    string_of(&out)
}

/// A `file:line` location, as a link to the open server when its base URL
/// is known.
pub open spec fn link(base: Option<Seq<char>>, file: Seq<char>, line: nat) -> Seq<char> {
    match base {
        Some(b) => "<a href=\""@ + escape(b) + "/open?f="@ + url_encode(
            vstd::utf8::encode_utf8(file),
        ) + "&l="@ + decimal(line) + "\">"@ + escape(file) + ":"@ + decimal(line) + "</a>"@,
        None => escape(file) + ":"@ + decimal(line),
    }
}

fn push_link(out: &mut Vec<char>, base: &Option<String>, file: &str, line: usize)
    ensures
        final(out)@ == old(out)@ + link(crate::types::opt_view(*base), file@, line as nat),
{
    match base {
        Some(b) => {
            push_str(out, "<a href=\"");
            push_escaped(out, b.as_str());
            push_str(out, "/open?f=");
            let enc = url_encode_component(file);
            push_str(out, enc.as_str());
            push_str(out, "&l=");
            push_decimal(out, line);
            push_str(out, "\">");
            push_escaped(out, file);
            push_str(out, ":");
            push_decimal(out, line);
            push_str(out, "</a>");
        },
        None => {
            push_escaped(out, file);
            push_str(out, ":");
            push_decimal(out, line);
        },
    }
    assert(final(out)@ =~= old(out)@ + link(crate::types::opt_view(*base), file@, line as nat));
}

/// Renders one location of a command gap.
pub fn linkify(base: Option<&str>, file: &str, line: usize) -> (r: String)
    ensures
        r@ == link(
            match base {
                Some(b) => Some(b@),
                None => None,
            },
            file@,
            line as nat,
        ),
{
    let owned: Option<String> = match base {
        Some(b) => Some(b.to_owned()),
        None => None,
    };
    let mut out: Vec<char> = Vec::new();
    push_link(&mut out, &owned, file, line);
    string_of(&out)
}

/// The pre-serialized node and edge lists of a root's import graph, as JSON;
/// the report escapes `<`, `>` and `&` in them (see `script_escape`).
pub struct GraphJson {
    pub nodes_json: String,
    pub edges_json: String,
}

/// One root's part of the report.
pub struct ReportSection {
    pub root: String,
    pub files_analyzed: usize,
    pub ranked_dups: Vec<RankedDup>,
    pub cascades: Vec<(String, String)>,
    pub dynamic: Vec<(String, Vec<String>)>,
    pub analyze_limit: usize,
    pub missing_handlers: Vec<CommandGap>,
    pub unused_handlers: Vec<CommandGap>,
    pub command_counts: (usize, usize),
    pub open_base: Option<String>,
    pub graph: Option<GraphJson>,
}

pub open spec fn dup_row(d: RankedDupView) -> Seq<char> {
    "<tr><td><code>"@ + escape(d.name) + "</code></td><td>"@ + decimal(d.files.len())
        + "</td><td>"@ + decimal(d.prod_count) + "</td><td>"@ + decimal(d.dev_count)
        + "</td><td><code>"@ + escape(d.canonical) + "</code></td><td>"@ + escape(
        join_with(d.refactors, ", "@),
    ) + "</td></tr>"@
}

pub open spec fn dup_rows(ds: Seq<RankedDupView>) -> Seq<char>
    decreases ds.len(),
{
    if ds.len() == 0 {
        Seq::empty()
    } else {
        dup_rows(ds.drop_last()) + dup_row(ds.last())
    }
}

pub open spec fn cascade_items(cs: Seq<(Seq<char>, Seq<char>)>) -> Seq<char>
    decreases cs.len(),
{
    if cs.len() == 0 {
        Seq::empty()
    } else {
        cascade_items(cs.drop_last()) + "<li><code>"@ + escape(cs.last().0)
            + "</code> \u{2192} <code>"@ + escape(cs.last().1) + "</code></li>"@
    }
}

pub open spec fn dynamic_rows(ds: Seq<(Seq<char>, Seq<Seq<char>>)>) -> Seq<char>
    decreases ds.len(),
{
    if ds.len() == 0 {
        Seq::empty()
    } else {
        dynamic_rows(ds.drop_last()) + "<tr><td><code>"@ + escape(ds.last().0)
            + "</code></td><td>"@ + escape(join_with(ds.last().1, ", "@)) + "</td></tr>"@
    }
}

pub open spec fn link_list(base: Option<Seq<char>>, locs: Seq<(Seq<char>, nat)>) -> Seq<Seq<char>>
    decreases locs.len(),
{
    if locs.len() == 0 {
        Seq::empty()
    } else {
        link_list(base, locs.drop_last()).push(link(base, locs.last().0, locs.last().1))
    }
}

pub open spec fn gap_line(base: Option<Seq<char>>, g: (Seq<char>, Seq<(Seq<char>, nat)>)) -> Seq<
    char,
> {
    escape(g.0) + " ("@ + join_with(link_list(base, g.1), "; "@) + ")"@
}

pub open spec fn gap_lines(base: Option<Seq<char>>, gs: Seq<(Seq<char>, Seq<(Seq<char>, nat)>)>) -> Seq<
    Seq<char>,
>
    decreases gs.len(),
{
    if gs.len() == 0 {
        Seq::empty()
    } else {
        gap_lines(base, gs.drop_last()).push(gap_line(base, gs.last()))
    }
}

pub open spec fn gap_cell(base: Option<Seq<char>>, gs: Seq<(Seq<char>, Seq<(Seq<char>, nat)>)>) -> Seq<
    char,
> {
    if gs.len() == 0 {
        "<span class=\"muted\">None</span>"@
    } else {
        join_with(gap_lines(base, gs), " \u{b7} "@)
    }
}

/// One character of JSON placed in a script: `<`, `>` and `&` written as
/// JSON unicode escapes, so no path in it can close the script or open markup.
pub open spec fn script_escape_char(c: char) -> Seq<char> {
    if c == '<' {
        "\\u003c"@
    } else if c == '>' {
        "\\u003e"@
    } else if c == '&' {
        "\\u0026"@
    } else {
        seq![c]
    }
}

/// JSON text made safe for a `<script>` element.
pub open spec fn script_escape(s: Seq<char>) -> Seq<char>
    decreases s.len(),
{
    if s.len() == 0 {
        Seq::empty()
    } else {
        script_escape(s.drop_last()) + script_escape_char(s.last())
    }
}

fn push_script_escaped(out: &mut Vec<char>, text: &str)
    ensures
        final(out)@ == old(out)@ + script_escape(text@),
{
    let s = chars_of(text);
    let mut i: usize = 0;
    while i < s.len()
        invariant
            i <= s@.len(),
            s@ == text@,
            out@ == old(out)@ + script_escape(s@.subrange(0, i as int)),
        decreases s@.len() - i,
    {
        assert(s@.subrange(0, i + 1).drop_last() =~= s@.subrange(0, i as int));
        let c = s[i];
        if c == '<' {
            push_str(out, "\\u003c");
        } else if c == '>' {
            push_str(out, "\\u003e");
        } else if c == '&' {
            push_str(out, "\\u0026");
        } else {
            out.push(c);
        }
        assert(out@ =~= old(out)@ + script_escape(s@.subrange(0, i + 1)));
        i = i + 1;
    }
    assert(s@.subrange(0, s@.len() as int) =~= s@);
}

/// The id of a root's graph: the root with every character that is not an
/// ASCII letter or digit replaced by `_`.
pub open spec fn graph_id(root: Seq<char>) -> Seq<char>
    decreases root.len(),
{
    if root.len() == 0 {
        Seq::empty()
    } else {
        let c = root.last();
        graph_id(root.drop_last()).push(
            if ('a' <= c && c <= 'z') || ('A' <= c && c <= 'Z') || ('0' <= c && c <= '9') {
                c
            } else {
                '_'
            },
        )
    }
}

pub struct SectionView {
    pub root: Seq<char>,
    pub files_analyzed: nat,
    pub ranked_dups: Seq<RankedDupView>,
    pub cascades: Seq<(Seq<char>, Seq<char>)>,
    pub dynamic: Seq<(Seq<char>, Seq<Seq<char>>)>,
    pub analyze_limit: nat,
    pub missing_handlers: Seq<(Seq<char>, Seq<(Seq<char>, nat)>)>,
    pub unused_handlers: Seq<(Seq<char>, Seq<(Seq<char>, nat)>)>,
    pub open_base: Option<Seq<char>>,
    pub graph: Option<(Seq<char>, Seq<char>)>,
}

impl View for ReportSection {
    type V = SectionView;

    open spec fn view(&self) -> SectionView {
        SectionView {
            root: self.root@,
            files_analyzed: self.files_analyzed as nat,
            ranked_dups: crate::aggregate::groups_view(self.ranked_dups@),
            cascades: crate::aggregate::pairs_view(self.cascades@),
            dynamic: self.dynamic@.map_values(
                |d: (String, Vec<String>)| (d.0@, str_views(d.1@)),
            ),
            analyze_limit: self.analyze_limit as nat,
            missing_handlers: crate::commands::gaps_view(self.missing_handlers@),
            unused_handlers: crate::commands::gaps_view(self.unused_handlers@),
            open_base: crate::types::opt_view(self.open_base),
            graph: match self.graph {
                Some(g) => Some((g.nodes_json@, g.edges_json@)),
                None => None,
            },
        }
    }
}

/// The first `n` items of `s`.
pub open spec fn take<A>(s: Seq<A>, n: nat) -> Seq<A> {
    if n < s.len() {
        s.subrange(0, n as int)
    } else {
        s
    }
}

pub open spec fn muted_none() -> Seq<char> {
    "<p class=\"muted\">None</p>"@
}

pub open spec fn duplicates_block(s: SectionView) -> Seq<char> {
    "<h3>Top duplicate exports</h3>"@ + if s.ranked_dups.len() == 0 {
        muted_none()
    } else {
        "<table><tr><th>Symbol</th><th>Files</th><th>Prod</th><th>Dev</th><th>Canonical</th><th>Refactor targets</th></tr>"@
            + dup_rows(take(s.ranked_dups, s.analyze_limit)) + "</table>"@
    }
}

pub open spec fn cascades_block(s: SectionView) -> Seq<char> {
    "<h3>Re-export cascades</h3>"@ + if s.cascades.len() == 0 {
        muted_none()
    } else {
        "<ul>"@ + cascade_items(s.cascades) + "</ul>"@
    }
}

pub open spec fn dynamic_block(s: SectionView) -> Seq<char> {
    "<h3>Dynamic imports</h3>"@ + if s.dynamic.len() == 0 {
        muted_none()
    } else {
        "<table><tr><th>File</th><th>Sources</th></tr>"@ + dynamic_rows(
            take(s.dynamic, s.analyze_limit),
        ) + "</table>"@
    }
}

pub open spec fn coverage_block(s: SectionView) -> Seq<char> {
    "<h3>Tauri command coverage</h3>"@ + if s.missing_handlers.len() == 0
        && s.unused_handlers.len() == 0 {
        "<p class=\"muted\">All frontend calls have matching handlers.</p>"@
    } else {
        "<table><tr><th>Missing handlers (FE\u{2192}BE)</th><th>Handlers unused by FE</th></tr><tr><td>"@
            + gap_cell(s.open_base, s.missing_handlers) + "</td><td>"@ + gap_cell(
            s.open_base,
            s.unused_handlers,
        ) + "</td></tr></table>"@
    }
}

pub open spec fn graph_block(s: SectionView) -> Seq<char> {
    match s.graph {
        Some((nodes, edges)) => "<h3>Import graph</h3><div class=\"graph\" id=\"graph-"@ + escape(
            graph_id(s.root),
        ) + "\"></div>"@ + "<script>"@
            + "window.__LOCTREE_GRAPHS = window.__LOCTREE_GRAPHS || [];"@
            + "window.__LOCTREE_GRAPHS.push({"@ + "id:\"graph-"@ + escape(graph_id(s.root))
            + "\",nodes:"@ + script_escape(nodes) + ",edges:"@ + script_escape(edges)
            + "});</script>"@,
        None => Seq::empty(),
    }
}

/// The HTML of one root's section.
pub open spec fn section_html(s: SectionView) -> Seq<char> {
    "<h2>"@ + escape(s.root) + "</h2><p class=\"muted\">Files analyzed: "@ + decimal(
        s.files_analyzed,
    ) + "</p>"@ + duplicates_block(s) + cascades_block(s) + dynamic_block(s) + coverage_block(s)
        + graph_block(s)
}

pub open spec fn sections_html(ss: Seq<SectionView>) -> Seq<char>
    decreases ss.len(),
{
    if ss.len() == 0 {
        Seq::empty()
    } else {
        sections_html(ss.drop_last()) + section_html(ss.last())
    }
}

pub const REPORT_HEAD: &'static str = r#"<!DOCTYPE html>
<html>
<head>
<meta charset="UTF-8" />
<title>loctree import/export report</title>
<style>
body{font-family:system-ui,-apple-system,Segoe UI,Helvetica,Arial,sans-serif;margin:24px;line-height:1.5;}
h1,h2,h3{margin-bottom:0.2em;}
table{border-collapse:collapse;width:100%;margin:0.5em 0;}
th,td{border:1px solid #ddd;padding:6px 8px;font-size:14px;}
th{background:#f5f5f5;text-align:left;}
code{background:#f6f8fa;padding:2px 4px;border-radius:4px;}
.muted{color:#666;}
.graph{height:520px;border:1px solid #ddd;border-radius:8px;margin:12px 0;}
</style>
</head><body>
<h1>loctree import/export analysis</h1>
"#;

pub const REPORT_TAIL: &'static str = r#"<script src="https://unpkg.com/cytoscape@3.26.0/dist/cytoscape.min.js"></script>
<script>
(function(){
  const graphs = window.__LOCTREE_GRAPHS || [];
  graphs.forEach(g => {
    const container = document.getElementById(g.id);
    if (!container) return;
    const nodes = Array.from(new Set([].concat(g.nodes || []))).map(n => ({ data: { id: n, label: n }}));
    const edges = (g.edges || []).map((e, idx) => ({
      data: { id: 'e'+idx, source: e[0], target: e[1], label: e[2] }
    }));
    cytoscape({
      container,
      elements: { nodes, edges },
      style: [
        { selector: 'node', style: { 'label': 'data(label)', 'font-size': 10, 'text-wrap': 'wrap', 'text-max-width': 120, 'background-color': '#4f81e1', 'color': '#fff', 'width': 22, 'height': 22 } },
        { selector: 'edge', style: { 'curve-style': 'bezier', 'width': 1.5, 'line-color': '#888', 'target-arrow-color': '#888', 'target-arrow-shape': 'triangle', 'arrow-scale': 0.8, 'label': 'data(label)', 'font-size': 9, 'text-background-color': '#fff', 'text-background-opacity': 0.8, 'text-background-padding': 2 } }
      ],
      layout: { name: 'cose', idealEdgeLength: 120, nodeOverlap: 8, padding: 20 }
    });
  });
})();
</script></body></html>"#;

/// The whole report over the sections of every root.
pub open spec fn report_html(ss: Seq<SectionView>) -> Seq<char> {
    REPORT_HEAD@ + sections_html(ss) + REPORT_TAIL@
}

fn push_dup_rows(out: &mut Vec<char>, ds: &Vec<RankedDup>, limit: usize)
    ensures
        final(out)@ == old(out)@ + dup_rows(
            take(crate::aggregate::groups_view(ds@), limit as nat),
        ),
{
    let ghost gv = crate::aggregate::groups_view(ds@);
    let n: usize = if limit < ds.len() {
        limit
    } else {
        ds.len()
    };
    assert(take(gv, limit as nat) =~= gv.subrange(0, n as int));
    let mut i: usize = 0;
    while i < n
        invariant
            i <= n <= ds@.len(),
            gv == crate::aggregate::groups_view(ds@),
            out@ == old(out)@ + dup_rows(gv.subrange(0, i as int)),
        decreases n - i,
    {
        assert(gv.subrange(0, i + 1).drop_last() =~= gv.subrange(0, i as int));
        let d = &ds[i];
        assert(gv[i as int] == d@);
        let ghost before = out@;
        push_str(out, "<tr><td><code>");
        push_escaped(out, d.name.as_str());
        push_str(out, "</code></td><td>");
        push_decimal(out, d.files.len());
        push_str(out, "</td><td>");
        push_decimal(out, d.prod_count);
        push_str(out, "</td><td>");
        push_decimal(out, d.dev_count);
        push_str(out, "</td><td><code>");
        push_escaped(out, d.canonical.as_str());
        push_str(out, "</code></td><td>");
        let mut joined: Vec<char> = Vec::new();
        push_joined(&mut joined, &d.refactors, ", ");
        assert(joined@ =~= join_with(d@.refactors, ", "@));
        push_escaped_chars(out, &joined);
        push_str(out, "</td></tr>");
        assert(out@ =~= before + dup_row(d@));
        i = i + 1;
    }
}

fn push_cascade_items(out: &mut Vec<char>, cs: &Vec<(String, String)>)
    ensures
        final(out)@ == old(out)@ + cascade_items(crate::aggregate::pairs_view(cs@)),
{
    let ghost cv = crate::aggregate::pairs_view(cs@);
    let mut i: usize = 0;
    while i < cs.len()
        invariant
            i <= cs@.len(),
            cv == crate::aggregate::pairs_view(cs@),
            out@ == old(out)@ + cascade_items(cv.subrange(0, i as int)),
        decreases cs@.len() - i,
    {
        assert(cv.subrange(0, i + 1).drop_last() =~= cv.subrange(0, i as int));
        let ghost before = out@;
        push_str(out, "<li><code>");
        push_escaped(out, cs[i].0.as_str());
        push_str(out, "</code> \u{2192} <code>");
        push_escaped(out, cs[i].1.as_str());
        push_str(out, "</code></li>");
        assert(out@ =~= old(out)@ + cascade_items(cv.subrange(0, i + 1)));
        i = i + 1;
    }
    assert(cv.subrange(0, cs@.len() as int) =~= cv);
}

pub open spec fn dyn_view(v: Seq<(String, Vec<String>)>) -> Seq<(Seq<char>, Seq<Seq<char>>)> {
    v.map_values(|d: (String, Vec<String>)| (d.0@, str_views(d.1@)))
}

fn push_dynamic_rows(out: &mut Vec<char>, ds: &Vec<(String, Vec<String>)>, limit: usize)
    ensures
        final(out)@ == old(out)@ + dynamic_rows(take(dyn_view(ds@), limit as nat)),
{
    let ghost dv = dyn_view(ds@);
    let n: usize = if limit < ds.len() {
        limit
    } else {
        ds.len()
    };
    assert(take(dv, limit as nat) =~= dv.subrange(0, n as int));
    let mut i: usize = 0;
    while i < n
        invariant
            i <= n <= ds@.len(),
            dv == dyn_view(ds@),
            out@ == old(out)@ + dynamic_rows(dv.subrange(0, i as int)),
        decreases n - i,
    {
        assert(dv.subrange(0, i + 1).drop_last() =~= dv.subrange(0, i as int));
        let ghost before = out@;
        push_str(out, "<tr><td><code>");
        push_escaped(out, ds[i].0.as_str());
        push_str(out, "</code></td><td>");
        let mut joined: Vec<char> = Vec::new();
        push_joined(&mut joined, &ds[i].1, ", ");
        push_escaped_chars(out, &joined);
        push_str(out, "</td></tr>");
        assert(out@ =~= old(out)@ + dynamic_rows(dv.subrange(0, i + 1)));
        i = i + 1;
    }
}

fn push_gap_line(out: &mut Vec<char>, base: &Option<String>, g: &CommandGap)
    ensures
        final(out)@ == old(out)@ + gap_line(crate::types::opt_view(*base), g@),
{
    let ghost b = crate::types::opt_view(*base);
    let ghost lv = locations_view(g.locations@);
    push_escaped(out, g.name.as_str());
    push_str(out, " (");
    let ghost mid = out@;
    let mut i: usize = 0;
    while i < g.locations.len()
        invariant
            i <= g.locations@.len(),
            lv == locations_view(g.locations@),
            b == crate::types::opt_view(*base),
            out@ == mid + join_with(link_list(b, lv.subrange(0, i as int)), "; "@),
        decreases g.locations@.len() - i,
    {
        let ghost prefix = lv.subrange(0, i + 1);
        assert(prefix.drop_last() =~= lv.subrange(0, i as int));
        let ghost ll = link_list(b, prefix);
        assert(ll.drop_last() == link_list(b, lv.subrange(0, i as int)));
        if i > 0 {
            push_str(out, "; ");
        } else {
            assert(ll =~= seq![ll[0]]);
        }
        push_link(out, base, g.locations[i].0.as_str(), g.locations[i].1);
        assert(out@ =~= mid + join_with(ll, "; "@));
        i = i + 1;
    }
    assert(lv.subrange(0, g.locations@.len() as int) =~= lv);
    push_str(out, ")");
}

fn push_gap_cell(out: &mut Vec<char>, base: &Option<String>, gs: &Vec<CommandGap>)
    ensures
        final(out)@ == old(out)@ + gap_cell(
            crate::types::opt_view(*base),
            crate::commands::gaps_view(gs@),
        ),
{
    let ghost b = crate::types::opt_view(*base);
    let ghost gv = crate::commands::gaps_view(gs@);
    if gs.len() == 0 {
        push_str(out, "<span class=\"muted\">None</span>");
        return;
    }
    let mut i: usize = 0;
    while i < gs.len()
        invariant
            i <= gs@.len(),
            gv == crate::commands::gaps_view(gs@),
            b == crate::types::opt_view(*base),
            out@ == old(out)@ + join_with(gap_lines(b, gv.subrange(0, i as int)), " \u{b7} "@),
        decreases gs@.len() - i,
    {
        let ghost prefix = gv.subrange(0, i + 1);
        assert(prefix.drop_last() =~= gv.subrange(0, i as int));
        let ghost gl = gap_lines(b, prefix);
        assert(gl.drop_last() == gap_lines(b, gv.subrange(0, i as int)));
        if i > 0 {
            push_str(out, " \u{b7} ");
        } else {
            assert(gl =~= seq![gl[0]]);
        }
        push_gap_line(out, base, &gs[i]);
        assert(out@ =~= old(out)@ + join_with(gl, " \u{b7} "@));
        i = i + 1;
    }
    assert(gv.subrange(0, gs@.len() as int) =~= gv);
}

fn push_graph_id(out: &mut Vec<char>, root: &str)
    ensures
        final(out)@ == old(out)@ + escape(graph_id(root@)),
{
    let r = chars_of(root);
    let mut id: Vec<char> = Vec::new();
    let mut i: usize = 0;
    while i < r.len()
        invariant
            i <= r@.len(),
            r@ == root@,
            id@ == graph_id(r@.subrange(0, i as int)),
        decreases r@.len() - i,
    {
        assert(r@.subrange(0, i + 1).drop_last() =~= r@.subrange(0, i as int));
        let c = r[i];
        if ('a' <= c && c <= 'z') || ('A' <= c && c <= 'Z') || ('0' <= c && c <= '9') {
            id.push(c);
        } else {
            id.push('_');
        }
        i = i + 1;
    }
    assert(r@.subrange(0, r@.len() as int) =~= r@);
    push_escaped_chars(out, &id);
}

fn push_duplicates_block(out: &mut Vec<char>, s: &ReportSection)
    ensures
        final(out)@ == old(out)@ + duplicates_block(s@),
{
    push_str(out, "<h3>Top duplicate exports</h3>");
    if s.ranked_dups.len() == 0 {
        push_str(out, "<p class=\"muted\">None</p>");
    } else {
        push_str(
            out,
            "<table><tr><th>Symbol</th><th>Files</th><th>Prod</th><th>Dev</th><th>Canonical</th><th>Refactor targets</th></tr>",
        );
        push_dup_rows(out, &s.ranked_dups, s.analyze_limit);
        push_str(out, "</table>");
    }
    assert(final(out)@ =~= old(out)@ + duplicates_block(s@));
}

fn push_cascades_block(out: &mut Vec<char>, s: &ReportSection)
    ensures
        final(out)@ == old(out)@ + cascades_block(s@),
{
    push_str(out, "<h3>Re-export cascades</h3>");
    if s.cascades.len() == 0 {
        push_str(out, "<p class=\"muted\">None</p>");
    } else {
        push_str(out, "<ul>");
        push_cascade_items(out, &s.cascades);
        push_str(out, "</ul>");
    }
    assert(final(out)@ =~= old(out)@ + cascades_block(s@));
}

fn push_dynamic_block(out: &mut Vec<char>, s: &ReportSection)
    ensures
        final(out)@ == old(out)@ + dynamic_block(s@),
{
    push_str(out, "<h3>Dynamic imports</h3>");
    if s.dynamic.len() == 0 {
        push_str(out, "<p class=\"muted\">None</p>");
    } else {
        push_str(out, "<table><tr><th>File</th><th>Sources</th></tr>");
        push_dynamic_rows(out, &s.dynamic, s.analyze_limit);
        push_str(out, "</table>");
    }
    assert(s@.dynamic == dyn_view(s.dynamic@));
    assert(final(out)@ =~= old(out)@ + dynamic_block(s@));
}

fn push_coverage_block(out: &mut Vec<char>, s: &ReportSection)
    ensures
        final(out)@ == old(out)@ + coverage_block(s@),
{
    push_str(out, "<h3>Tauri command coverage</h3>");
    if s.missing_handlers.len() == 0 && s.unused_handlers.len() == 0 {
        push_str(out, "<p class=\"muted\">All frontend calls have matching handlers.</p>");
    } else {
        push_str(
            out,
            "<table><tr><th>Missing handlers (FE\u{2192}BE)</th><th>Handlers unused by FE</th></tr><tr><td>",
        );
        push_gap_cell(out, &s.open_base, &s.missing_handlers);
        push_str(out, "</td><td>");
        push_gap_cell(out, &s.open_base, &s.unused_handlers);
        push_str(out, "</td></tr></table>");
    }
    assert(final(out)@ =~= old(out)@ + coverage_block(s@));
}

fn push_graph_block(out: &mut Vec<char>, s: &ReportSection)
    ensures
        final(out)@ == old(out)@ + graph_block(s@),
{
    match &s.graph {
        Some(g) => {
            push_str(out, "<h3>Import graph</h3><div class=\"graph\" id=\"graph-");
            push_graph_id(out, s.root.as_str());
            push_str(out, "\"></div>");
            push_str(out, "<script>");
            push_str(out, "window.__LOCTREE_GRAPHS = window.__LOCTREE_GRAPHS || [];");
            push_str(out, "window.__LOCTREE_GRAPHS.push({");
            push_str(out, "id:\"graph-");
            push_graph_id(out, s.root.as_str());
            push_str(out, "\",nodes:");
            push_script_escaped(out, g.nodes_json.as_str());
            push_str(out, ",edges:");
            push_script_escaped(out, g.edges_json.as_str());
            push_str(out, "});</script>");
        },
        None => {},
    }
    assert(final(out)@ =~= old(out)@ + graph_block(s@));
}

fn push_section(out: &mut Vec<char>, s: &ReportSection)
    ensures
        final(out)@ == old(out)@ + section_html(s@),
{
    push_str(out, "<h2>");
    push_escaped(out, s.root.as_str());
    push_str(out, "</h2><p class=\"muted\">Files analyzed: ");
    push_decimal(out, s.files_analyzed);
    push_str(out, "</p>");
    push_duplicates_block(out, s);
    push_cascades_block(out, s);
    push_dynamic_block(out, s);
    push_coverage_block(out, s);
    push_graph_block(out, s);
    assert(final(out)@ =~= old(out)@ + section_html(s@));
}

pub open spec fn sections_view(v: Seq<ReportSection>) -> Seq<SectionView> {
    v.map_values(|s: ReportSection| s@)
}

/// Renders the report over the sections of every root.
pub fn render_html_report(sections: &Vec<ReportSection>) -> (r: String)
    ensures
        r@ == report_html(sections_view(sections@)),
{
    let ghost sv = sections_view(sections@);
    let mut out: Vec<char> = Vec::new();
    push_str(&mut out, REPORT_HEAD);
    let mut i: usize = 0;
    while i < sections.len()
        invariant
            i <= sections@.len(),
            sv == sections_view(sections@),
            out@ == REPORT_HEAD@ + sections_html(sv.subrange(0, i as int)),
        decreases sections@.len() - i,
    {
        assert(sv.subrange(0, i + 1).drop_last() =~= sv.subrange(0, i as int));
        let ghost before = out@;
        push_section(&mut out, &sections[i]);
        assert(out@ =~= REPORT_HEAD@ + sections_html(sv.subrange(0, i + 1)));
        i = i + 1;
    }
    assert(sv.subrange(0, sections@.len() as int) =~= sv);
    push_str(&mut out, REPORT_TAIL);
    string_of(&out)
}

} // verus!
