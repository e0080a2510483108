//! Options and command-line values: the option bundle handed to the
//! analyzer, and the parsers of individual flag values.
use vstd::prelude::*;

use crate::aggregate::{contains_string, dedup};
use crate::text::{
    chars_of, eq_str, lemma_str_views_push, occurs_at_exec, parse_usize, parse_usize_exec,
    slice_chars, split, split_on, starts_with, starts_with_exec, str_views, string_of,
    strip_leading, strip_leading_exec, trim, trim_chars,
};

verus! {

pub const DEFAULT_LOC_THRESHOLD: usize = 1000;

#[derive(Clone, Copy, Debug, PartialEq, Eq, Structural)]
pub enum ColorMode {
    Auto,
    Always,
    Never,
}

#[derive(Clone, Copy, Debug, PartialEq, Eq, Structural)]
pub enum OutputMode {
    Human,
    Json,
    Jsonl,
}

#[derive(Clone, Copy, Debug, PartialEq, Eq, Structural)]
pub enum Mode {
    Tree,
    AnalyzeImports,
}

/// The option bundle the file gatherer and the analyzer work from.
pub struct Options {
    /// The allowed extensions, in order, without duplicates.
    pub extensions: Option<Vec<String>>,
    pub ignore_paths: Vec<String>,
    pub use_gitignore: bool,
    pub max_depth: Option<usize>,
    pub color: ColorMode,
    pub output: OutputMode,
    pub summary: bool,
    pub summary_limit: usize,
    pub show_hidden: bool,
    pub loc_threshold: usize,
    pub analyze_limit: usize,
    pub report_path: Option<String>,
}

/// One line of the tree listing.
pub struct LineEntry {
    pub label: String,
    pub loc: Option<usize>,
    pub relative_path: String,
    pub is_dir: bool,
    pub is_large: bool,
}

/// A file over the line-count threshold.
pub struct LargeEntry {
    pub path: String,
    pub loc: usize,
}

/// Totals of a tree listing.
pub struct Stats {
    pub directories: usize,
    pub files: usize,
    pub files_with_loc: usize,
    pub total_loc: usize,
}

impl Default for Stats {
    fn default() -> (r: Stats)
        ensures
            r.directories == 0 && r.files == 0 && r.files_with_loc == 0 && r.total_loc == 0,
    {
        Stats { directories: 0, files: 0, files_with_loc: 0, total_loc: 0 }
    }
}

/// What the command line asked for.
pub struct ParsedArgs {
    pub extensions: Option<Vec<String>>,
    pub ignore_patterns: Vec<String>,
    pub use_gitignore: bool,
    pub max_depth: Option<usize>,
    pub color: ColorMode,
    pub output: OutputMode,
    pub summary: bool,
    pub summary_limit: usize,
    pub show_help: bool,
    pub show_version: bool,
    pub root_list: Vec<String>,
    pub show_hidden: bool,
    pub loc_threshold: usize,
    pub mode: Mode,
    pub analyze_limit: usize,
    pub report_path: Option<String>,
}

/// The defaults of every option.
pub open spec fn is_default_args(a: ParsedArgs) -> bool {
    &&& a.extensions is None
    &&& a.ignore_patterns@.len() == 0
    &&& !a.use_gitignore
    &&& a.max_depth is None
    &&& a.color == ColorMode::Auto
    &&& a.output == OutputMode::Human
    &&& !a.summary
    &&& a.summary_limit == 5
    &&& !a.show_help
    &&& !a.show_version
    &&& a.root_list@.len() == 0
    &&& !a.show_hidden
    &&& a.loc_threshold == DEFAULT_LOC_THRESHOLD
    &&& a.mode == Mode::Tree
    &&& a.analyze_limit == 8
    &&& a.report_path is None
}

impl Default for ParsedArgs {
    fn default() -> (r: ParsedArgs)
        ensures
            is_default_args(r),
    {
        ParsedArgs {
            extensions: None,
            ignore_patterns: Vec::new(),
            use_gitignore: false,
            max_depth: None,
            color: ColorMode::Auto,
            output: OutputMode::Human,
            summary: false,
            summary_limit: 5,
            show_help: false,
            show_version: false,
            root_list: Vec::new(),
            show_hidden: false,
            loc_threshold: DEFAULT_LOC_THRESHOLD,
            mode: Mode::Tree,
            analyze_limit: 8,
            report_path: None,
        }
    }
}

pub open spec fn color_mode_of(raw: Seq<char>) -> Option<ColorMode> {
    if raw == "auto"@ {
        Some(ColorMode::Auto)
    } else if raw == "always"@ {
        Some(ColorMode::Always)
    } else if raw == "never"@ {
        Some(ColorMode::Never)
    } else {
        None
    }
}

/// Reads the value of `--color`.
pub fn parse_color_mode(raw: &str) -> (r: Result<ColorMode, String>)
    ensures
        match r {
            Ok(m) => color_mode_of(raw@) == Some(m),
            Err(e) => color_mode_of(raw@) is None && e@ == "--color expects auto|always|never"@,
        },
{
    let v = chars_of(raw);
    if eq_str(&v, "auto") {
        Ok(ColorMode::Auto)
    } else if eq_str(&v, "always") {
        Ok(ColorMode::Always)
    } else if eq_str(&v, "never") {
        Ok(ColorMode::Never)
    } else {
        Err("--color expects auto|always|never".to_owned())
    }
}

/// The value of `--summary`: a positive integer.
pub open spec fn summary_limit_of(raw: Seq<char>) -> Option<nat> {
    match parse_usize(raw) {
        Some(n) => if n > 0 {
            Some(n)
        } else {
            None
        },
        None => None,
    }
}

/// Reads the value of `--summary`.
pub fn parse_summary_limit(raw: &str) -> (r: Result<usize, String>)
    ensures
        match r {
            Ok(n) => summary_limit_of(raw@) == Some(n as nat),
            Err(e) => summary_limit_of(raw@) is None && e@
                == "--summary expects a positive integer"@,
        },
{
    let v = chars_of(raw);
    match parse_usize_exec(&v) {
        Some(n) => if n == 0 {
            Err("--summary expects a positive integer".to_owned())
        } else {
            Ok(n)
        },
        None => Err("--summary expects a positive integer".to_owned()),
    }
}

/// What `str::to_lowercase` gives for a text; it depends on the text alone.
pub uninterp spec fn lower_of(s: Seq<char>) -> Seq<char>;

/// Relies on `str::to_lowercase`: the lower-case form of the text.
#[verifier::external_body]
fn lowercase(s: &str) -> (r: String)
    ensures
        r@ == lower_of(s@),
{
    s.to_lowercase()
}

/// The candidate of each comma-separated segment: trimmed, without leading
/// dots, in lower case.
pub open spec fn extension_candidates(segs: Seq<Seq<char>>) -> Seq<Seq<char>>
    decreases segs.len(),
{
    if segs.len() == 0 {
        Seq::empty()
    } else {
        extension_candidates(segs.drop_last()).push(
            lower_of(strip_leading(trim(segs.last()), '.')),
        )
    }
}

/// The non-empty texts of `s`, in order.
pub open spec fn non_empty(s: Seq<Seq<char>>) -> Seq<Seq<char>>
    decreases s.len(),
{
    if s.len() == 0 {
        Seq::empty()
    } else if s.last().len() > 0 {
        non_empty(s.drop_last()).push(s.last())
    } else {
        non_empty(s.drop_last())
    }
}

/// The extension set of lowered candidates: the distinct non-empty ones in
/// order of first appearance, or `None` when there are none.
pub open spec fn extension_set_of(cands: Seq<Seq<char>>) -> Option<Seq<Seq<char>>> {
    let d = dedup(non_empty(cands));
    if d.len() == 0 {
        None
    } else {
        Some(d)
    }
}

/// The extension set of `--ext`.
pub open spec fn extensions_of(raw: Seq<char>) -> Option<Seq<Seq<char>>> {
    extension_set_of(extension_candidates(split(raw, ',')))
}

/// Builds the extension set from already lowered candidates.
pub fn extension_set(cands: &Vec<String>) -> (r: Option<Vec<String>>)
    ensures
        match r {
            Some(v) => extension_set_of(str_views(cands@)) == Some(str_views(v@)),
            None => extension_set_of(str_views(cands@)) is None,
        },
{
    let ghost cv = str_views(cands@);
    let mut out: Vec<String> = Vec::new();
    let mut i: usize = 0;
    while i < cands.len()
        invariant
            i <= cands@.len(),
            cv == str_views(cands@),
            str_views(out@) == dedup(non_empty(cv.subrange(0, i as int))),
        decreases cands@.len() - i,
    {
        let ghost items = non_empty(cv.subrange(0, i as int));
        assert(cv.subrange(0, i + 1).drop_last() =~= cv.subrange(0, i as int));
        assert(cv.subrange(0, i + 1).last() == cands@[i as int]@);
        if !cands[i].as_str().is_empty() {
            assert(non_empty(cv.subrange(0, i + 1)) == items.push(cands@[i as int]@));
            assert(items.push(cands@[i as int]@).drop_last() =~= items);
            if !contains_string(&out, &cands[i]) {
                let ghost prev = out@;
                out.push(cands[i].clone());
                proof {
                    lemma_str_views_push(prev, cands@[i as int]);
                }
            }
        } else {
            assert(non_empty(cv.subrange(0, i + 1)) == items);
        }
        i = i + 1;
    }
    assert(cv.subrange(0, cands@.len() as int) =~= cv);
    if out.len() == 0 {
        None
    } else {
        Some(out)
    }
}

/// Reads the value of `--ext`, such as `ts, .TSX,js`.
pub fn parse_extensions(raw: &str) -> (r: Option<Vec<String>>)
    ensures
        match r {
            Some(v) => extensions_of(raw@) == Some(str_views(v@)),
            None => extensions_of(raw@) is None,
        },
{
    let segs = split_on(&chars_of(raw), ',');
    let ghost sv = crate::text::views(segs@);
    let mut cands: Vec<String> = Vec::new();
    let mut i: usize = 0;
    while i < segs.len()
        invariant
            i <= segs@.len(),
            sv == crate::text::views(segs@),
            sv == split(raw@, ','),
            str_views(cands@) == extension_candidates(sv.subrange(0, i as int)),
        decreases segs@.len() - i,
    {
        assert(sv.subrange(0, i + 1).drop_last() =~= sv.subrange(0, i as int));
        let t = strip_leading_exec(&trim_chars(&segs[i]), '.');
        let lower = lowercase(string_of(&t).as_str());
        push_string(&mut cands, lower);
        i = i + 1;
    }
    assert(sv.subrange(0, segs@.len() as int) =~= sv);
    extension_set(&cands)
}

pub struct ArgsView {
    pub extensions: Option<Seq<Seq<char>>>,
    pub ignore_patterns: Seq<Seq<char>>,
    pub use_gitignore: bool,
    pub max_depth: Option<nat>,
    pub color: ColorMode,
    pub output: OutputMode,
    pub summary: bool,
    pub summary_limit: nat,
    pub show_help: bool,
    pub show_version: bool,
    pub root_list: Seq<Seq<char>>,
    pub show_hidden: bool,
    pub loc_threshold: nat,
    pub mode: Mode,
    pub analyze_limit: nat,
    pub report_path: Option<Seq<char>>,
}

impl View for ParsedArgs {
    type V = ArgsView;

    open spec fn view(&self) -> ArgsView {
        ArgsView {
            extensions: match self.extensions {
                Some(v) => Some(str_views(v@)),
                None => None,
            },
            ignore_patterns: str_views(self.ignore_patterns@),
            use_gitignore: self.use_gitignore,
            max_depth: match self.max_depth {
                Some(d) => Some(d as nat),
                None => None,
            },
            color: self.color,
            output: self.output,
            summary: self.summary,
            summary_limit: self.summary_limit as nat,
            show_help: self.show_help,
            show_version: self.show_version,
            root_list: str_views(self.root_list@),
            show_hidden: self.show_hidden,
            loc_threshold: self.loc_threshold as nat,
            mode: self.mode,
            analyze_limit: self.analyze_limit as nat,
            report_path: crate::types::opt_view(self.report_path),
        }
    }
}

/// Whether the argument after `i` exists and is not itself a flag.
pub open spec fn has_value(args: Seq<Seq<char>>, i: int) -> bool {
    i + 1 < args.len() && !starts_with(args[i + 1], "-"@)
}

/// A positive integer value after `i`.
pub open spec fn positive_value(args: Seq<Seq<char>>, i: int) -> Option<nat> {
    if i + 1 < args.len() {
        summary_limit_of(args[i + 1])
    } else {
        None
    }
}

/// The text with every leading copy of `pat` removed (as `trim_start_matches`).
pub open spec fn strip_prefixes(s: Seq<char>, pat: Seq<char>) -> Seq<char>
    decreases s.len(),
{
    if pat.len() > 0 && starts_with(s, pat) {
        strip_prefixes(s.subrange(pat.len() as int, s.len() as int), pat)
    } else {
        s
    }
}

/// What the argument at `i` does: the index of the next argument to read
/// and the options after it, or the error it raises.
pub open spec fn arg_step(args: Seq<Seq<char>>, i: int, p: ArgsView) -> Result<(int, ArgsView), Seq<char>> {
    let a = args[i];
    if a == "--help"@ || a == "-h"@ {
        Ok((i + 1, ArgsView { show_help: true, ..p }))
    } else if a == "--version"@ || a == "-V"@ {
        Ok((i + 1, ArgsView { show_version: true, ..p }))
    } else if a == "--color"@ || a == "-c"@ {
        if has_value(args, i) {
            match color_mode_of(args[i + 1]) {
                Some(m) => Ok((i + 2, ArgsView { color: m, ..p })),
                None => Err("--color expects auto|always|never"@),
            }
        } else {
            Ok((i + 1, ArgsView { color: ColorMode::Always, ..p }))
        }
    } else if a == "--gitignore"@ || a == "-g"@ {
        Ok((i + 1, ArgsView { use_gitignore: true, ..p }))
    } else if a == "--show-hidden"@ || a == "-H"@ {
        Ok((i + 1, ArgsView { show_hidden: true, ..p }))
    } else if a == "--json"@ {
        Ok((i + 1, ArgsView { output: OutputMode::Json, ..p }))
    } else if a == "--jsonl"@ {
        Ok((i + 1, ArgsView { output: OutputMode::Jsonl, ..p }))
    } else if a == "--html-report"@ || a == "--report"@ {
        if i + 1 < args.len() {
            Ok((i + 2, ArgsView { report_path: Some(args[i + 1]), ..p }))
        } else {
            Err("--html-report requires a file path"@)
        }
    } else if a == "--summary"@ {
        if has_value(args, i) {
            match summary_limit_of(args[i + 1]) {
                Some(n) => Ok((i + 2, ArgsView { summary: true, summary_limit: n, ..p })),
                None => Err("--summary expects a positive integer"@),
            }
        } else {
            Ok((i + 1, ArgsView { summary: true, ..p }))
        }
    } else if a == "--loc"@ {
        match positive_value(args, i) {
            Some(n) => Ok((i + 2, ArgsView { loc_threshold: n, ..p })),
            None => Err("--loc requires a positive integer"@),
        }
    } else if a == "--limit"@ {
        match positive_value(args, i) {
            Some(n) => Ok((i + 2, ArgsView { analyze_limit: n, ..p })),
            None => Err("--limit requires a positive integer"@),
        }
    } else if a == "--analyze-imports"@ || a == "-A"@ {
        Ok((i + 1, ArgsView { mode: Mode::AnalyzeImports, ..p }))
    } else if a == "-L"@ || a == "--max-depth"@ {
        if i + 1 < args.len() && parse_usize(args[i + 1]) is Some {
            Ok((i + 2, ArgsView { max_depth: parse_usize(args[i + 1]), ..p }))
        } else {
            Err("-L/--max-depth requires a non-negative integer"@)
        }
    } else if a == "--ext"@ {
        if i + 1 < args.len() {
            Ok((i + 2, ArgsView { extensions: extensions_of(args[i + 1]), ..p }))
        } else {
            Err("--ext requires a comma-separated value"@)
        }
    } else if a == "-I"@ || a == "--ignore"@ {
        if i + 1 < args.len() {
            Ok((i + 2, ArgsView { ignore_patterns: p.ignore_patterns.push(args[i + 1]), ..p }))
        } else {
            Err("-I/--ignore requires a path argument"@)
        }
    } else if starts_with(a, "--color="@) {
        match color_mode_of(strip_prefixes(a, "--color="@)) {
            Some(m) => Ok((i + 1, ArgsView { color: m, ..p })),
            None => Err("--color expects auto|always|never"@),
        }
    } else if starts_with(a, "--summary="@) {
        match summary_limit_of(strip_prefixes(a, "--summary="@)) {
            Some(n) => Ok((i + 1, ArgsView { summary: true, summary_limit: n, ..p })),
            None => Err("--summary expects a positive integer"@),
        }
    } else if starts_with(a, "--ext="@) {
        Ok((i + 1, ArgsView { extensions: extensions_of(strip_prefixes(a, "--ext="@)), ..p }))
    } else if starts_with(a, "-"@) {
        Ok((i + 1, p))
    } else if trim(a).len() > 0 {
        Ok((i + 1, ArgsView { root_list: p.root_list.push(trim(a)), ..p }))
    } else {
        Ok((i + 1, p))
    }
}

/// The options after reading the arguments from `i` on, or the first error.
pub open spec fn parse_from(args: Seq<Seq<char>>, i: int, p: ArgsView) -> Result<ArgsView, Seq<char>>
    decreases args.len() - i,
{
    if i < 0 || i >= args.len() {
        Ok(p)
    } else {
        match arg_step(args, i, p) {
            Ok((j, q)) => if j > i {
                parse_from(args, j, q)
            } else {
                Ok(q)
            },
            Err(e) => Err(e),
        }
    }
}

/// The options a command line gives: the defaults changed by each argument
/// in turn, and `.` as the only root when none is named.
pub open spec fn parsed_args(args: Seq<Seq<char>>, defaults: ArgsView) -> Result<ArgsView, Seq<char>> {
    match parse_from(args, 0, defaults) {
        Ok(p) => Ok(
            if p.root_list.len() == 0 {
                ArgsView { root_list: seq!["."@], ..p }
            } else {
                p
            },
        ),
        Err(e) => Err(e),
    }
}

fn strip_prefixes_exec(s: &Vec<char>, pat: &str) -> (r: Vec<char>)
    ensures
        r@ == strip_prefixes(s@, pat@),
{
    let p = chars_of(pat);
    let mut cur = slice_chars(s, 0, s.len());
    assert(cur@ =~= s@);
    if p.len() == 0 {
        return cur;
    }
    while occurs_at_exec(&cur, &p, 0)
        invariant
            p@ == pat@,
            p@.len() > 0,
            strip_prefixes(s@, pat@) == strip_prefixes(cur@, pat@),
        decreases cur@.len(),
    {
        let n = cur.len();
        cur = slice_chars(&cur, p.len(), n);
    }
    cur
}

fn eq2(a: &String, x: &str, y: &str) -> (r: bool)
    ensures
        r == (a@ == x@ || a@ == y@),
{
    let v = chars_of(a.as_str());
    eq_str(&v, x) || eq_str(&v, y)
}

fn is_flag_value(args: &Vec<String>, i: usize) -> (r: bool)
    requires
        i < args@.len(),
    ensures
        r == has_value(str_views(args@), i as int),
{
    let n = args.len();
    i + 1 < n && !starts_with_exec(&chars_of(args[i + 1].as_str()), "-")
}

fn positive_exec(args: &Vec<String>, i: usize) -> (r: Option<usize>)
    requires
        i < args@.len(),
    ensures
        match r {
            Some(n) => positive_value(str_views(args@), i as int) == Some(n as nat),
            None => positive_value(str_views(args@), i as int) is None,
        },
{
    let n = args.len();
    if i + 1 < n {
        match parse_summary_limit(args[i + 1].as_str()) {
            Ok(n) => Some(n),
            Err(_) => None,
        }
    } else {
        None
    }
}

fn push_string(v: &mut Vec<String>, s: String)
    ensures
        str_views(final(v)@) == str_views(old(v)@).push(s@),
{
    let ghost prev = v@;
    v.push(s);
    proof {
        lemma_str_views_push(prev, s);
    }
}

/// Applies the argument at `i` to `p`; gives the index of the next argument.
fn apply_arg(p: &mut ParsedArgs, args: &Vec<String>, i: usize) -> (r: Result<usize, String>)
    requires
        i < args@.len(),
    ensures
        match arg_step(str_views(args@), i as int, old(p)@) {
            Ok((j, q)) => r == Ok::<usize, String>(j as usize) && final(p)@ == q && j <= args@.len() + 1,
            Err(e) => r is Err && r->Err_0@ == e,
        },
{
    let ghost av = str_views(args@);
    let n = args.len();
    let a = &args[i];
    assert(av[i as int] == a@);
    if eq2(a, "--help", "-h") {
        p.show_help = true;
        return Ok(i + 1);
    }
    if eq2(a, "--version", "-V") {
        p.show_version = true;
        return Ok(i + 1);
    }
    if eq2(a, "--color", "-c") {
        if is_flag_value(args, i) {
            match parse_color_mode(args[i + 1].as_str()) {
                Ok(m) => {
                    p.color = m;
                    return Ok(i + 2);
                },
                Err(e) => {
                    return Err(e);
                },
            }
        }
        p.color = ColorMode::Always;
        return Ok(i + 1);
    }
    if eq2(a, "--gitignore", "-g") {
        p.use_gitignore = true;
        return Ok(i + 1);
    }
    if eq2(a, "--show-hidden", "-H") {
        p.show_hidden = true;
        return Ok(i + 1);
    }
    if eq2(a, "--json", "--json") {
        p.output = OutputMode::Json;
        return Ok(i + 1);
    }
    if eq2(a, "--jsonl", "--jsonl") {
        p.output = OutputMode::Jsonl;
        return Ok(i + 1);
    }
    apply_valued(p, args, i)
}

fn apply_valued(p: &mut ParsedArgs, args: &Vec<String>, i: usize) -> (r: Result<usize, String>)
    requires
        i < args@.len(),
        !(args@[i as int]@ == "--help"@ || args@[i as int]@ == "-h"@),
        !(args@[i as int]@ == "--version"@ || args@[i as int]@ == "-V"@),
        !(args@[i as int]@ == "--color"@ || args@[i as int]@ == "-c"@),
        !(args@[i as int]@ == "--gitignore"@ || args@[i as int]@ == "-g"@),
        !(args@[i as int]@ == "--show-hidden"@ || args@[i as int]@ == "-H"@),
        args@[i as int]@ != "--json"@,
        args@[i as int]@ != "--jsonl"@,
    ensures
        match arg_step(str_views(args@), i as int, old(p)@) {
            Ok((j, q)) => r == Ok::<usize, String>(j as usize) && final(p)@ == q && j <= args@.len() + 1,
            Err(e) => r is Err && r->Err_0@ == e,
        },
{
    let ghost av = str_views(args@);
    let n = args.len();
    let a = &args[i];
    assert(av[i as int] == a@);
    if eq2(a, "--html-report", "--report") {
        if i + 1 < args.len() {
            p.report_path = Some(args[i + 1].clone());
            return Ok(i + 2);
        }
        return Err("--html-report requires a file path".to_owned());
    }
    if eq2(a, "--summary", "--summary") {
        if is_flag_value(args, i) {
            match parse_summary_limit(args[i + 1].as_str()) {
                Ok(n) => {
                    p.summary = true;
                    p.summary_limit = n;
                    return Ok(i + 2);
                },
                Err(e) => {
                    return Err(e);
                },
            }
        }
        p.summary = true;
        return Ok(i + 1);
    }
    if eq2(a, "--loc", "--loc") {
        match positive_exec(args, i) {
            Some(n) => {
                p.loc_threshold = n;
                return Ok(i + 2);
            },
            None => {
                return Err("--loc requires a positive integer".to_owned());
            },
        }
    }
    if eq2(a, "--limit", "--limit") {
        match positive_exec(args, i) {
            Some(n) => {
                p.analyze_limit = n;
                return Ok(i + 2);
            },
            None => {
                return Err("--limit requires a positive integer".to_owned());
            },
        }
    }
    if eq2(a, "--analyze-imports", "-A") {
        p.mode = Mode::AnalyzeImports;
        return Ok(i + 1);
    }
    apply_listed(p, args, i)
}

fn apply_listed(p: &mut ParsedArgs, args: &Vec<String>, i: usize) -> (r: Result<usize, String>)
    requires
        i < args@.len(),
        !(args@[i as int]@ == "--help"@ || args@[i as int]@ == "-h"@),
        !(args@[i as int]@ == "--version"@ || args@[i as int]@ == "-V"@),
        !(args@[i as int]@ == "--color"@ || args@[i as int]@ == "-c"@),
        !(args@[i as int]@ == "--gitignore"@ || args@[i as int]@ == "-g"@),
        !(args@[i as int]@ == "--show-hidden"@ || args@[i as int]@ == "-H"@),
        args@[i as int]@ != "--json"@,
        args@[i as int]@ != "--jsonl"@,
        !(args@[i as int]@ == "--html-report"@ || args@[i as int]@ == "--report"@),
        args@[i as int]@ != "--summary"@,
        args@[i as int]@ != "--loc"@,
        args@[i as int]@ != "--limit"@,
        !(args@[i as int]@ == "--analyze-imports"@ || args@[i as int]@ == "-A"@),
    ensures
        match arg_step(str_views(args@), i as int, old(p)@) {
            Ok((j, q)) => r == Ok::<usize, String>(j as usize) && final(p)@ == q && j <= args@.len() + 1,
            Err(e) => r is Err && r->Err_0@ == e,
        },
{
    let ghost av = str_views(args@);
    let n = args.len();
    let a = &args[i];
    assert(av[i as int] == a@);
    if eq2(a, "-L", "--max-depth") {
        if i + 1 < args.len() {
            match parse_usize_exec(&chars_of(args[i + 1].as_str())) {
                Some(d) => {
                    p.max_depth = Some(d);
                    return Ok(i + 2);
                },
                None => {},
            }
        }
        return Err("-L/--max-depth requires a non-negative integer".to_owned());
    }
    if eq2(a, "--ext", "--ext") {
        if i + 1 < args.len() {
            p.extensions = parse_extensions(args[i + 1].as_str());
            return Ok(i + 2);
        }
        return Err("--ext requires a comma-separated value".to_owned());
    }
    if eq2(a, "-I", "--ignore") {
        if i + 1 < args.len() {
            push_string(&mut p.ignore_patterns, args[i + 1].clone());
            return Ok(i + 2);
        }
        return Err("-I/--ignore requires a path argument".to_owned());
    }
    let chars = chars_of(a.as_str());
    if starts_with_exec(&chars, "--color=") {
        let value = string_of(&strip_prefixes_exec(&chars, "--color="));
        match parse_color_mode(value.as_str()) {
            Ok(m) => {
                p.color = m;
                return Ok(i + 1);
            },
            Err(e) => {
                return Err(e);
            },
        }
    }
    if starts_with_exec(&chars, "--summary=") {
        let value = string_of(&strip_prefixes_exec(&chars, "--summary="));
        match parse_summary_limit(value.as_str()) {
            Ok(n) => {
                p.summary = true;
                p.summary_limit = n;
                return Ok(i + 1);
            },
            Err(e) => {
                return Err(e);
            },
        }
    }
    if starts_with_exec(&chars, "--ext=") {
        let value = string_of(&strip_prefixes_exec(&chars, "--ext="));
        p.extensions = parse_extensions(value.as_str());
        return Ok(i + 1);
    }
    if starts_with_exec(&chars, "-") {
        return Ok(i + 1);
    }
    let t = trim_chars(&chars);
    if t.len() > 0 {
        push_string(&mut p.root_list, string_of(&t));
    }
    Ok(i + 1)
}

/// The options before any argument is read.
pub open spec fn default_args_view() -> ArgsView {
    ArgsView {
        extensions: None,
        ignore_patterns: Seq::empty(),
        use_gitignore: false,
        max_depth: None,
        color: ColorMode::Auto,
        output: OutputMode::Human,
        summary: false,
        summary_limit: 5,
        show_help: false,
        show_version: false,
        root_list: Seq::empty(),
        show_hidden: false,
        loc_threshold: DEFAULT_LOC_THRESHOLD as nat,
        mode: Mode::Tree,
        analyze_limit: 8,
        report_path: None,
    }
}

/// Reads a command line (without the program name) into options.
pub fn parse_args(args: &Vec<String>) -> (r: Result<ParsedArgs, String>)
    ensures
        match r {
            Ok(p) => parsed_args(str_views(args@), default_args_view()) == Ok::<
                ArgsView,
                Seq<char>,
            >(p@),
            Err(e) => parsed_args(str_views(args@), default_args_view()) == Err::<
                ArgsView,
                Seq<char>,
            >(e@),
        },
{
    let mut parsed = ParsedArgs::default();
    let ghost d = parsed;
    assert(d@ =~= default_args_view()) by {
        assert(str_views(d.ignore_patterns@) =~= Seq::<Seq<char>>::empty());
        assert(str_views(d.root_list@) =~= Seq::<Seq<char>>::empty());
    }
    let ghost av = str_views(args@);
    let mut i: usize = 0;
    while i < args.len()
        invariant
            av == str_views(args@),
            d@ == default_args_view(),
            i <= args@.len() + 1,
            parse_from(av, 0, d@) == parse_from(av, i as int, parsed@),
        decreases args@.len() + 1 - i,
    {
        match apply_arg(&mut parsed, args, i) {
            Ok(j) => {
                i = j;
            },
            Err(e) => {
                return Err(e);
            },
        }
    }
    if parsed.root_list.len() == 0 {
        push_string(&mut parsed.root_list, ".".to_owned());
        assert(parsed@.root_list =~= seq!["."@]);
    }
    assert(parsed_args(av, d@) == Ok::<ArgsView, Seq<char>>(parsed@));
    Ok(parsed)
}

} // verus!
