//! The pattern library: one regular expression per syntactic construct per
//! language family, and the matching step that runs them over file text.
use vstd::prelude::*;

use crate::text::{push_str, string_of};

verus! {

// Script modules.
pub const IMPORT: &'static str = r#"(?m)^\s*import\s+([^;]+?)\s+from\s+["']([^"']+)["']"#;

pub const SIDE_EFFECT_IMPORT: &'static str = r#"(?m)^\s*import\s+["']([^"']+)["']"#;

pub const REEXPORT_STAR: &'static str = r#"(?m)^\s*export\s+\*\s+from\s+["']([^"']+)["']"#;

pub const REEXPORT_NAMED: &'static str = r#"(?m)^\s*export\s+\{([^}]+)\}\s+from\s+["']([^"']+)["']"#;

pub const DYNAMIC_IMPORT: &'static str = r#"import\s*\(\s*["']([^"']+)["']\s*\)"#;

pub const EXPORT_NAMED_DECL: &'static str =
    r#"(?m)^\s*export\s+(?:async\s+)?(?:function|const|let|var|class|interface|type|enum)\s+([A-Za-z0-9_.$]+)"#;

pub const EXPORT_DEFAULT: &'static str =
    r#"(?m)^\s*export\s+default(?:\s+(?:async\s+)?(?:function|class)\s+([A-Za-z0-9_.$]+))?"#;

pub const EXPORT_BRACE: &'static str = r#"(?m)^\s*export\s+\{([^}]+)\}\s*;?"#;

// Cross-boundary command calls, each optionally with a generic argument.
pub const SAFE_INVOKE: &'static str = r#"safeInvoke\s*(?:<[^)]*>)?\(\s*["']([^"']+)["']"#;

pub const INVOKE_SNAKE: &'static str = r#"invokeSnake\s*(?:<[^)]*>)?\(\s*["']([^"']+)["']"#;

pub const INVOKE_AUDIO: &'static str = r#"invokeAudio(?:Camel)?\s*(?:<[^)]*>)?\(\s*["']([^"']+)["']"#;

/// A bare `invoke("cmd")`, not a method call such as `foo.invoke(..)`.
pub const INVOKE: &'static str =
    r#"(?m)(?:^|[^A-Za-z0-9_\.])invoke\s*(?:<[^)]*>)?\(\s*["']([^"']+)["']"#;

// Stylesheets: `@import "x.css";`, `@import url("x.css");`, `@import url(x.css);`.
pub const CSS_IMPORT: &'static str = r#"(?m)@import\s+(?:url\()?['"]?([^"'()\s]+)['"]?\)?"#;

// Rust modules.
pub const RUST_USE: &'static str = r#"(?m)^\s*(?:pub\s*(?:\([^)]*\))?\s+)?use\s+([^;]+);"#;

pub const RUST_PUB_USE: &'static str = r#"(?m)^\s*pub\s*(?:\([^)]*\))?\s+use\s+([^;]+);"#;

/// A command handler: the marker attribute, then `[pub] [async] fn name`;
/// group 2 is the function name.
pub const COMMAND_HANDLER_FN: &'static str =
    r#"(?m)#\s*\[\s*tauri::command([^\]]*)\]\s*(?:pub\s*(?:\([^)]*\)\s*)?)?(?:async\s+)?fn\s+([A-Za-z0-9_]+)"#;

/// What precedes the item keyword in a public item pattern.
pub const RUST_PUB_ITEM_HEAD: &'static str = r#"(?m)^\s*pub\s*(?:\([^)]*\)\s*)?(?:async\s+)?"#;

/// What precedes the keyword in a public `const` or `static` pattern.
pub const RUST_PUB_CONST_HEAD: &'static str = r#"(?m)^\s*pub\s*(?:\([^)]*\)\s*)?"#;

/// What follows the keyword: the item's name, as group 1.
pub const RUST_NAME_TAIL: &'static str = r#"\s+([A-Za-z0-9_]+)"#;

// Python modules.
pub const PY_IMPORTLIB: &'static str = r#"importlib\.import_module\(\s*["']([^"']+)["']"#;

pub const PY_DUNDER_IMPORT: &'static str = r#"__import__\(\s*["']([^"']+)["']"#;

pub const PY_ALL: &'static str = r#"(?s)__all__\s*=\s*\[([^\]]*)\]"#;

/// A top-level `def`: at the start of a line, not indented.
pub const PY_DEF: &'static str = r#"(?m)^def\s+([A-Za-z_][A-Za-z0-9_]*)"#;

/// A top-level `class`: at the start of a line, not indented.
pub const PY_CLASS: &'static str = r#"(?m)^class\s+([A-Za-z_][A-Za-z0-9_]*)"#;

/// The pattern for a public Rust item introduced by `keyword`.
pub open spec fn rust_pub_item(keyword: Seq<char>) -> Seq<char> {
    RUST_PUB_ITEM_HEAD@ + keyword + RUST_NAME_TAIL@
}

/// The pattern for a public Rust `const` or `static` introduced by `keyword`.
pub open spec fn rust_pub_const_like(keyword: Seq<char>) -> Seq<char> {
    RUST_PUB_CONST_HEAD@ + keyword + RUST_NAME_TAIL@
}

pub fn regex_rust_pub_item(keyword: &str) -> (r: String)
    ensures
        r@ == rust_pub_item(keyword@),
{
    let mut v: Vec<char> = Vec::new();
    push_str(&mut v, RUST_PUB_ITEM_HEAD);
    push_str(&mut v, keyword);
    push_str(&mut v, RUST_NAME_TAIL);
    string_of(&v)
}

pub fn regex_rust_pub_const_like(keyword: &str) -> (r: String)
    ensures
        r@ == rust_pub_const_like(keyword@),
{
    let mut v: Vec<char> = Vec::new();
    push_str(&mut v, RUST_PUB_CONST_HEAD);
    push_str(&mut v, keyword);
    push_str(&mut v, RUST_NAME_TAIL);
    string_of(&v)
}

/// The patterns of Rust's public items, in the order they run.
pub open spec fn rust_pub_item_patterns() -> Seq<Seq<char>> {
    seq![
        rust_pub_item("fn"@),
        rust_pub_item("struct"@),
        rust_pub_item("enum"@),
        rust_pub_item("trait"@),
        rust_pub_item("type"@),
        rust_pub_item("union"@),
        rust_pub_item("mod"@),
    ]
}

/// The patterns of Rust's public constants and statics.
pub open spec fn rust_pub_const_patterns() -> Seq<Seq<char>> {
    seq![rust_pub_const_like("const"@), rust_pub_const_like("static"@)]
}

/// Every declaration pattern of a Rust module, items first.
pub open spec fn rust_pub_decl_patterns() -> Seq<Seq<char>> {
    rust_pub_item_patterns() + rust_pub_const_patterns()
}

pub fn rust_pub_decl_regexes() -> (r: Vec<String>)
    ensures
        crate::text::str_views(r@) == rust_pub_item_patterns(),
{
    let r = vec![
        regex_rust_pub_item("fn"),
        regex_rust_pub_item("struct"),
        regex_rust_pub_item("enum"),
        regex_rust_pub_item("trait"),
        regex_rust_pub_item("type"),
        regex_rust_pub_item("union"),
        regex_rust_pub_item("mod"),
    ];
    assert(crate::text::str_views(r@) =~= rust_pub_item_patterns());
    r
}

pub fn rust_pub_const_regexes() -> (r: Vec<String>)
    ensures
        crate::text::str_views(r@) == rust_pub_const_patterns(),
{
    let r = vec![regex_rust_pub_const_like("const"), regex_rust_pub_const_like("static")];
    assert(crate::text::str_views(r@) =~= rust_pub_const_patterns());
    r
}

/// One capture group of a match: its text and the byte offset where it starts.
pub struct Group {
    pub text: String,
    pub start: usize,
}

/// The capture groups of one match, group 0 being the whole match; a group
/// that did not take part in the match is `None`.
pub struct Captures {
    pub groups: Vec<Option<Group>>,
}

pub open spec fn group_view(g: Option<Group>) -> Option<(Seq<char>, usize)> {
    match g {
        Some(g) => Some((g.text@, g.start)),
        None => None,
    }
}

impl View for Captures {
    type V = Seq<Option<(Seq<char>, usize)>>;

    open spec fn view(&self) -> Seq<Option<(Seq<char>, usize)>> {
        self.groups@.map_values(|g: Option<Group>| group_view(g))
    }
}

pub open spec fn captures_view(v: Seq<Captures>) -> Seq<Seq<Option<(Seq<char>, usize)>>> {
    v.map_values(|c: Captures| c@)
}

/// The successive non-overlapping matches of `pattern` in `text`, or `None`
/// when `pattern` is not a valid expression.
pub uninterp spec fn regex_captures(pattern: Seq<char>, text: Seq<char>) -> Option<
    Seq<Seq<Option<(Seq<char>, usize)>>>,
>;

/// Relies on `regex::Regex::new`, which fails on an invalid pattern, and on
/// `Regex::captures_iter`, which yields each successive non-overlapping match
/// with its groups (text and starting byte offset of each that took part).
#[verifier::external_body]
fn regex_find_captures(pattern: &str, text: &str) -> (r: Option<Vec<Captures>>)
    ensures
        match r {
            Some(v) => regex_captures(pattern@, text@) == Some(captures_view(v@)),
            None => regex_captures(pattern@, text@) is None,
        },
{
    let re = regex::Regex::new(pattern).ok()?;
    Some(re.captures_iter(text).map(|c| Captures {
        groups: c.iter().map(|g| g.map(|m| Group { text: m.as_str().to_string(), start: m.start() })).collect(),
    }).collect())
}

/// The matches of `pattern` in `text`; a pattern that does not compile
/// matches nothing.
pub open spec fn matches_of(pattern: Seq<char>, text: Seq<char>) -> Seq<
    Seq<Option<(Seq<char>, usize)>>,
> {
    match regex_captures(pattern, text) {
        Some(c) => c,
        None => Seq::empty(),
    }
}

pub fn find_matches(pattern: &str, text: &str) -> (r: Vec<Captures>)
    ensures
        captures_view(r@) == matches_of(pattern@, text@),
{
    match regex_find_captures(pattern, text) {
        Some(v) => v,
        None => {
            let v: Vec<Captures> = Vec::new();
            assert(captures_view(v@) =~= Seq::empty());
            v
        },
    }
}

/// The text of group `k` of a match, empty when the group did not take part.
pub open spec fn group_text(c: Seq<Option<(Seq<char>, usize)>>, k: int) -> Seq<char> {
    if 0 <= k < c.len() && c[k] is Some {
        (c[k]->0).0
    } else {
        Seq::empty()
    }
}

/// Whether group `k` of a match took part in it.
pub open spec fn has_group(c: Seq<Option<(Seq<char>, usize)>>, k: int) -> bool {
    0 <= k < c.len() && c[k] is Some
}

/// The byte offset where group `k` starts, when it took part.
pub open spec fn group_start(c: Seq<Option<(Seq<char>, usize)>>, k: int) -> nat {
    if 0 <= k < c.len() && c[k] is Some {
        (c[k]->0).1 as nat
    } else {
        0
    }
}

impl Captures {
    pub fn has(&self, k: usize) -> (r: bool)
        ensures
            r == has_group(self@, k as int),
    {
        k < self.groups.len() && self.groups[k].is_some()
    }

    pub fn text(&self, k: usize) -> (r: String)
        ensures
            r@ == group_text(self@, k as int),
    {
        if k < self.groups.len() {
            match &self.groups[k] {
                Some(g) => g.text.clone(),
                None => string_of(&Vec::new()),
            }
        } else {
            string_of(&Vec::new())
        }
    }

    pub fn start(&self, k: usize) -> (r: usize)
        ensures
            r as nat == group_start(self@, k as int),
    {
        if k < self.groups.len() {
            match &self.groups[k] {
                Some(g) => g.start,
                None => 0,
            }
        } else {
            0
        }
    }
}

/// The number of bytes `char` takes in UTF-8.
pub open spec fn utf8_width(c: char) -> nat {
    if (c as u32) < 0x80 {
        1
    } else if (c as u32) < 0x800 {
        2
    } else if (c as u32) < 0x10000 {
        3
    } else {
        4
    }
}

/// The 1-based line of the byte at `offset` in `s`: one more than the number
/// of line feeds that start before it.
pub open spec fn line_at(s: Seq<char>, offset: int) -> nat
    decreases s.len(),
{
    if s.len() == 0 || offset <= 0 {
        1
    } else {
        (if s[0] == '\n' {
            1nat
        } else {
            0nat
        }) + line_at(s.drop_first(), offset - utf8_width(s[0]))
    }
}

fn utf8_width_exec(c: char) -> (r: usize)
    ensures
        r as nat == utf8_width(c),
{
    let u = c as u32;
    if u < 0x80 {
        1
    } else if u < 0x800 {
        2
    } else if u < 0x10000 {
        3
    } else {
        4
    }
}

pub fn offset_to_line(s: &Vec<char>, offset: usize) -> (r: usize)
    requires
        s@.len() < usize::MAX,
    ensures
        r as nat == line_at(s@, offset as int),
{
    let mut i: usize = 0;
    let mut rem: usize = offset;
    let mut count: usize = 0;
    assert(s@.subrange(0, s@.len() as int) =~= s@);
    while i < s.len() && rem > 0
        invariant
            i <= s@.len(),
            count <= i,
            count + line_at(s@.subrange(i as int, s@.len() as int), rem as int) == line_at(
                s@,
                offset as int,
            ),
        decreases s@.len() - i,
    {
        let ghost rest = s@.subrange(i as int, s@.len() as int);
        assert(rest.drop_first() =~= s@.subrange(i + 1, s@.len() as int));
        let c = s[i];
        if c == '\n' {
            count = count + 1;
        }
        let w = utf8_width_exec(c);
        let ghost before = rem as int;
        if w >= rem {
            rem = 0;
        } else {
            rem = rem - w;
        }
        assert(line_at(rest.drop_first(), rem as int) == line_at(rest.drop_first(), before - w as int));
        i = i + 1;
    }
    count + 1
}

} // verus!
