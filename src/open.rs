//! The decisions of the "open in editor" side channel: percent-encoding of
//! link targets, parsing a request line, and the editor command built from a
//! template. Containment of a requested path in a root is
//! `resolve::path_starts_with`.
use vstd::prelude::*;

use crate::text::{
    chars_of, find_exec, find_from, is_ws, is_ws_char, parse_usize, parse_usize_exec, push_all,
    push_decimal, decimal, slice_chars, split, split_on, starts_with, starts_with_exec, string_of,
    views, str_views, lemma_str_views_push,
};
use vstd::string::StringSliceAdditionalSpecFns;

verus! {

/// Bytes left as they are in a URL component.
pub open spec fn is_unreserved(b: u8) -> bool {
    (0x41 <= b && b <= 0x5a) || (0x61 <= b && b <= 0x7a) || (0x30 <= b && b <= 0x39) || b == 0x2d
        || b == 0x5f || b == 0x2e || b == 0x7e
}

/// The upper-case hexadecimal digit for `d < 16`.
pub open spec fn hex_digit(d: u8) -> char {
    if d < 10 {
        ((d + 0x30) as u8) as char
    } else {
        ((d - 10 + 0x41) as u8) as char
    }
}

/// Percent-encoding of a byte string: unreserved bytes stay, every other
/// byte becomes `%` and two upper-case hexadecimal digits.
pub open spec fn url_encode(bytes: Seq<u8>) -> Seq<char>
    decreases bytes.len(),
{
    if bytes.len() == 0 {
        Seq::empty()
    } else {
        let b = bytes.last();
        url_encode(bytes.drop_last()) + if is_unreserved(b) {
            seq![b as char]
        } else {
            seq!['%', hex_digit(b / 16), hex_digit(b % 16)]
        }
    }
}

fn hex_digit_exec(d: u8) -> (c: char)
    requires
        d < 16,
    ensures
        c == hex_digit(d),
{
    if d < 10 {
        ((d + 0x30) as u8) as char
    } else {
        ((d - 10 + 0x41) as u8) as char
    }
}

/// Percent-encodes the UTF-8 bytes of `input`.
pub fn url_encode_component(input: &str) -> (r: String)
    ensures
        r@ == url_encode(input.spec_bytes()),
{
    let bytes = input.as_bytes();
    let mut out: Vec<char> = Vec::new();
    let mut i: usize = 0;
    while i < bytes.len()
        invariant
            i <= bytes@.len(),
            bytes@ == input.spec_bytes(),
            out@ == url_encode(bytes@.subrange(0, i as int)),
        decreases bytes@.len() - i,
    {
        assert(bytes@.subrange(0, i + 1).drop_last() =~= bytes@.subrange(0, i as int));
        let b = bytes[i];
        let ghost before = out@;
        if (0x41 <= b && b <= 0x5a) || (0x61 <= b && b <= 0x7a) || (0x30 <= b && b <= 0x39) || b
            == 0x2d || b == 0x5f || b == 0x2e || b == 0x7e {
            out.push(b as char);
        } else {
            out.push('%');
            out.push(hex_digit_exec(b / 16));
            out.push(hex_digit_exec(b % 16));
        }
        assert(out@ =~= url_encode(bytes@.subrange(0, i + 1)));
        i = i + 1;
    }
    assert(bytes@.subrange(0, bytes@.len() as int) =~= bytes@);
    string_of(&out)
}

/// The value of a hexadecimal digit byte.
pub open spec fn hex_value(b: u8) -> Option<u8> {
    if 0x30 <= b && b <= 0x39 {
        Some((b - 0x30) as u8)
    } else if 0x41 <= b && b <= 0x46 {
        Some((b - 0x41 + 10) as u8)
    } else if 0x61 <= b && b <= 0x66 {
        Some((b - 0x61 + 10) as u8)
    } else {
        None
    }
}

/// The byte that two escape characters write, as `u8::from_str_radix(_, 16)`
/// reads them (a leading `+` is allowed).
pub open spec fn hex_pair(hi: u8, lo: u8) -> Option<u8> {
    if hi == 0x2b {
        hex_value(lo)
    } else {
        match (hex_value(hi), hex_value(lo)) {
            (Some(h), Some(l)) => Some((h * 16 + l) as u8),
            _ => None,
        }
    }
}

/// Percent-decoding: each `%` and the two bytes after it give one byte; any
/// other byte stands for itself; every byte becomes the `char` of that code.
/// `None` when an escape is cut short or is not hexadecimal.
pub open spec fn url_decode(bytes: Seq<u8>) -> Option<Seq<char>>
    decreases bytes.len(),
{
    if bytes.len() == 0 {
        Some(Seq::empty())
    } else if bytes[0] == 0x25 {
        if bytes.len() < 3 {
            None
        } else {
            match hex_pair(bytes[1], bytes[2]) {
                Some(v) => match url_decode(bytes.subrange(3, bytes.len() as int)) {
                    Some(rest) => Some(seq![v as char] + rest),
                    None => None,
                },
                None => None,
            }
        }
    } else {
        match url_decode(bytes.drop_first()) {
            Some(rest) => Some(seq![bytes[0] as char] + rest),
            None => None,
        }
    }
}

fn hex_value_exec(b: u8) -> (r: Option<u8>)
    ensures
        r == hex_value(b),
{
    if 0x30 <= b && b <= 0x39 {
        Some(b - 0x30)
    } else if 0x41 <= b && b <= 0x46 {
        Some(b - 0x41 + 10)
    } else if 0x61 <= b && b <= 0x66 {
        Some(b - 0x61 + 10)
    } else {
        None
    }
}

fn hex_pair_exec(hi: u8, lo: u8) -> (r: Option<u8>)
    ensures
        r == hex_pair(hi, lo),
{
    if hi == 0x2b {
        return hex_value_exec(lo);
    }
    match (hex_value_exec(hi), hex_value_exec(lo)) {
        (Some(h), Some(l)) => Some(h * 16 + l),
        _ => None,
    }
}

/// Decodes a percent-encoded URL component.
pub fn url_decode_component(input: &str) -> (r: Option<String>)
    ensures
        match r {
            Some(s) => url_decode(input.spec_bytes()) == Some(s@),
            None => url_decode(input.spec_bytes()) is None,
        },
{
    let bytes = input.as_bytes();
    let n = bytes.len();
    let mut out: Vec<char> = Vec::new();
    let mut i: usize = 0;
    assert(bytes@.subrange(0, n as int) =~= bytes@);
    while i < n
        invariant
            i <= n == bytes@.len(),
            bytes@ == input.spec_bytes(),
            url_decode(bytes@) == match url_decode(bytes@.subrange(i as int, n as int)) {
                Some(rest) => Some(out@ + rest),
                None => None,
            },
        decreases n - i,
    {
        let ghost rest = bytes@.subrange(i as int, n as int);
        let b = bytes[i];
        if b == 0x25 {
            if n - i < 3 {
                return None;
            }
            match hex_pair_exec(bytes[i + 1], bytes[i + 2]) {
                Some(v) => {
                    assert(rest.subrange(3, rest.len() as int) =~= bytes@.subrange(i + 3, n as int));
                    let ghost before = out@;
                    out.push(v as char);
                    proof {
                        match url_decode(bytes@.subrange(i + 3, n as int)) {
                            Some(t) => {
                                assert(before + (seq![v as char] + t) =~= out@ + t);
                            },
                            None => {},
                        }
                    }
                    i = i + 3;
                },
                None => {
                    return None;
                },
            }
        } else {
            assert(rest.drop_first() =~= bytes@.subrange(i + 1, n as int));
            let ghost before = out@;
            out.push(b as char);
            proof {
                match url_decode(bytes@.subrange(i + 1, n as int)) {
                    Some(t) => {
                        assert(before + (seq![b as char] + t) =~= out@ + t);
                    },
                    None => {},
                }
            }
            i = i + 1;
        }
    }
    assert(out@ + Seq::<char>::empty() =~= out@);
    Some(string_of(&out))
}

/// Words split at runs of whitespace, with `cur` the word gathered so far
/// (as `split_whitespace`).
pub open spec fn words_acc(s: Seq<char>, cur: Seq<char>) -> Seq<Seq<char>>
    decreases s.len(),
{
    if s.len() == 0 {
        if cur.len() > 0 {
            seq![cur]
        } else {
            Seq::empty()
        }
    } else if is_ws(s[0]) {
        (if cur.len() > 0 {
            seq![cur]
        } else {
            Seq::empty()
        }) + words_acc(s.drop_first(), Seq::empty())
    } else {
        words_acc(s.drop_first(), cur.push(s[0]))
    }
}

pub open spec fn words(s: Seq<char>) -> Seq<Seq<char>> {
    words_acc(s, Seq::empty())
}

pub fn split_whitespace(s: &Vec<char>) -> (r: Vec<Vec<char>>)
    ensures
        views(r@) == words(s@),
{
    let mut out: Vec<Vec<char>> = Vec::new();
    let mut cur: Vec<char> = Vec::new();
    let mut i: usize = 0;
    assert(s@.subrange(0, s@.len() as int) =~= s@);
    while i < s.len()
        invariant
            i <= s@.len(),
            views(out@) + words_acc(s@.subrange(i as int, s@.len() as int), cur@) == words(s@),
        decreases s@.len() - i,
    {
        let ghost rest = s@.subrange(i as int, s@.len() as int);
        assert(rest.drop_first() =~= s@.subrange(i + 1, s@.len() as int));
        let c = s[i];
        if is_ws_char(c) {
            if cur.len() > 0 {
                let ghost old_out = views(out@);
                let piece = cur;
                out.push(piece);
                cur = Vec::new();
                assert(views(out@) =~= old_out + seq![piece@]);
            } else {
                assert(views(out@) + Seq::empty() =~= views(out@));
            }
            assert(cur@ =~= Seq::<char>::empty());
        } else {
            cur.push(c);
        }
        i = i + 1;
    }
    if cur.len() > 0 {
        let ghost old_out = views(out@);
        let piece = cur;
        out.push(piece);
        assert(views(out@) =~= old_out + seq![piece@]);
    } else {
        assert(views(out@) + Seq::empty() =~= views(out@));
    }
    out
}

/// What the open server does with a request.
pub enum OpenRequest {
    NotFound,
    BadRequest,
    Open { file: String, line: usize },
}

pub enum OpenRequestView {
    NotFound,
    BadRequest,
    Open { file: Seq<char>, line: nat },
}

impl View for OpenRequest {
    type V = OpenRequestView;

    open spec fn view(&self) -> OpenRequestView {
        match self {
            OpenRequest::NotFound => OpenRequestView::NotFound,
            OpenRequest::BadRequest => OpenRequestView::BadRequest,
            OpenRequest::Open { file, line } => OpenRequestView::Open {
                file: file@,
                line: *line as nat,
            },
        }
    }
}

/// The `l` parameter: its number when it parses, at least 1; else 1.
pub open spec fn line_param(v: Seq<char>) -> nat {
    match parse_usize(v) {
        Some(n) => if n == 0 {
            1
        } else {
            n
        },
        None => 1,
    }
}

/// The query's `f` and `l` after reading `pairs`: later pairs override
/// earlier ones, an `f` that does not decode unsets it, and `l` starts at 1.
pub open spec fn query_params(pairs: Seq<Seq<char>>) -> (Option<Seq<char>>, nat)
    decreases pairs.len(),
{
    if pairs.len() == 0 {
        (None, 1)
    } else {
        let (file, line) = query_params(pairs.drop_last());
        let p = pairs.last();
        match find_from(p, seq!['='], 0) {
            Some(k) => {
                let key = p.subrange(0, k);
                let val = p.subrange(k + 1, p.len() as int);
                if key == seq!['f'] {
                    (url_decode(vstd::utf8::encode_utf8(val)), line)
                } else if key == seq!['l'] {
                    (file, line_param(val))
                } else {
                    (file, line)
                }
            },
            None => (file, line),
        }
    }
}

/// The request target: the second word of the request line, else `/`.
pub open spec fn request_target(line: Seq<char>) -> Seq<char> {
    let w = words(line);
    if w.len() >= 2 {
        w[1]
    } else {
        seq!['/']
    }
}

/// The decision for one request line: anything but `/open?...` is not found;
/// a query without a decodable `f` is a bad request; else the file to open
/// and its line.
pub open spec fn open_request(line: Seq<char>) -> OpenRequestView {
    let target = request_target(line);
    if !starts_with(target, "/open?"@) {
        OpenRequestView::NotFound
    } else {
        let (file, l) = query_params(split(target.subrange(6, target.len() as int), '&'));
        match file {
            Some(f) => OpenRequestView::Open { file: f, line: l },
            None => OpenRequestView::BadRequest,
        }
    }
}

fn line_param_exec(v: &Vec<char>) -> (r: usize)
    ensures
        r as nat == line_param(v@),
{
    match parse_usize_exec(v) {
        Some(n) => if n == 0 {
            1
        } else {
            n
        },
        None => 1,
    }
}

/// Parses the request line of an HTTP request to the open server.
pub fn parse_open_request(request_line: &str) -> (r: OpenRequest)
    ensures
        r@ == open_request(request_line@),
{
    let chars = chars_of(request_line);
    let w = split_whitespace(&chars);
    let target = if w.len() >= 2 {
        assert(views(w@)[1] == w@[1]@);
        slice_chars(&w[1], 0, w[1].len())
    } else {
        let mut t: Vec<char> = Vec::new();
        t.push('/');
        assert(t@ =~= seq!['/']);
        t
    };
    assert(target@ =~= request_target(request_line@));
    proof {
        reveal_strlit("/open?");
    }
    if !starts_with_exec(&target, "/open?") {
        return OpenRequest::NotFound;
    }
    let query = slice_chars(&target, 6, target.len());
    let pairs = split_on(&query, '&');
    let ghost pv = views(pairs@);
    let eq = chars_of("=");
    assert(eq@ =~= seq!['=']) by {
        reveal_strlit("=");
    }
    let mut file: Option<String> = None;
    let mut line: usize = 1;
    let mut i: usize = 0;
    while i < pairs.len()
        invariant
            i <= pairs@.len(),
            pv == views(pairs@),
            eq@ == seq!['='],
            query_params(pv.subrange(0, i as int)) == (
                match file {
                    Some(f) => Some(f@),
                    None => None,
                },
                line as nat,
            ),
        decreases pairs@.len() - i,
    {
        assert(pv.subrange(0, i + 1).drop_last() =~= pv.subrange(0, i as int));
        let p = &pairs[i];
        let n = p.len();
        match find_exec(p, &eq, 0) {
            Some(k) => {
                let key = slice_chars(p, 0, k);
                let val = slice_chars(p, k + 1, n);
                if key.len() == 1 && key[0] == 'f' {
                    assert(key@ =~= seq!['f']);
                    let v = string_of(&val);
                    file = url_decode_component(v.as_str());
                } else if key.len() == 1 && key[0] == 'l' {
                    assert(key@ =~= seq!['l']);
                    assert(key@ != seq!['f']);
                    line = line_param_exec(&val);
                } else {
                    assert(key@ != seq!['f'] && key@ != seq!['l']) by {
                        if key@ == seq!['f'] || key@ == seq!['l'] {
                            assert(key@.len() == 1);
                        }
                    }
                }
            },
            None => {},
        }
        i = i + 1;
    }
    assert(pv.subrange(0, pairs@.len() as int) =~= pv);
    match file {
        Some(f) => OpenRequest::Open { file: f, line },
        None => OpenRequest::BadRequest,
    }
}

/// Text with every occurrence of `pat` replaced by `rep`, left to right
/// (as `str::replace`).
pub open spec fn replace_all(s: Seq<char>, pat: Seq<char>, rep: Seq<char>) -> Seq<char>
    decreases s.len(),
{
    if pat.len() == 0 {
        s
    } else {
        match find_from(s, pat, 0) {
            Some(k) => if 0 <= k && k + pat.len() <= s.len() {
                s.subrange(0, k) + rep + replace_all(
                    s.subrange(k + pat.len(), s.len() as int),
                    pat,
                    rep,
                )
            } else {
                s
            },
            None => s,
        }
    }
}

pub fn replace_exec(s: &Vec<char>, pat: &str, rep: &Vec<char>) -> (r: Vec<char>)
    ensures
        r@ == replace_all(s@, pat@, rep@),
{
    let p = chars_of(pat);
    if p.len() == 0 {
        return slice_chars(s, 0, s.len());
    }
    let mut out: Vec<char> = Vec::new();
    let mut rest = slice_chars(s, 0, s.len());
    let mut done = false;
    assert(rest@ =~= s@);
    while !done
        invariant
            p@ == pat@,
            p@.len() > 0,
            done ==> out@ == replace_all(s@, pat@, rep@),
            !done ==> out@ + replace_all(rest@, pat@, rep@) == replace_all(s@, pat@, rep@),
        decreases rest@.len() + if done {
            0int
        } else {
            1int
        },
    {
        let n = rest.len();
        match find_exec(&rest, &p, 0) {
            Some(k) => {
                let head = slice_chars(&rest, 0, k);
                let tail = slice_chars(&rest, k + p.len(), n);
                let ghost before = out@;
                push_all(&mut out, &head);
                push_all(&mut out, rep);
                assert(out@ + replace_all(tail@, pat@, rep@) =~= before + replace_all(
                    rest@,
                    pat@,
                    rep@,
                ));
                rest = tail;
            },
            None => {
                push_all(&mut out, &rest);
                done = true;
            },
        }
    }
    out
}

/// The program and arguments of an editor template, with `{file}` and
/// `{line}` filled in, split at whitespace.
pub open spec fn editor_argv(template: Seq<char>, file: Seq<char>, line: nat) -> Seq<Seq<char>> {
    words(replace_all(replace_all(template, "{file}"@, file), "{line}"@, decimal(line)))
}

/// Builds the editor command line from a template such as `code -g {file}:{line}`.
pub fn editor_command(template: &str, file: &str, line: usize) -> (r: Vec<String>)
    ensures
        str_views(r@) == editor_argv(template@, file@, line as nat),
{
    let t = chars_of(template);
    let f = chars_of(file);
    let mut l: Vec<char> = Vec::new();
    push_decimal(&mut l, line);
    assert(l@ =~= decimal(line as nat));
    let a = replace_exec(&t, "{file}", &f);
    let b = replace_exec(&a, "{line}", &l);
    let parts = split_whitespace(&b);
    let ghost wv = views(parts@);
    let mut out: Vec<String> = Vec::new();
    let mut i: usize = 0;
    while i < parts.len()
        invariant
            i <= parts@.len(),
            wv == views(parts@),
            str_views(out@) == wv.subrange(0, i as int),
        decreases parts@.len() - i,
    {
        let s = string_of(&parts[i]);
        let ghost prev = out@;
        out.push(s);
        proof {
            lemma_str_views_push(prev, s);
        }
        assert(wv.subrange(0, i + 1) =~= wv.subrange(0, i as int).push(parts@[i as int]@));
        i = i + 1;
    }
    assert(wv.subrange(0, parts@.len() as int) =~= wv);
    out
}

/// The `file:line` argument of the default editor, the line at least 1.
pub open spec fn goto_arg(file: Seq<char>, line: nat) -> Seq<char> {
    file + seq![':'] + decimal(if line == 0 {
        1
    } else {
        line
    })
}

pub fn goto_argument(file: &str, line: usize) -> (r: String)
    ensures
        r@ == goto_arg(file@, line as nat),
{
    let mut v = chars_of(file);
    v.push(':');
    let l: usize = if line == 0 {
        1
    } else {
        line
    };
    push_decimal(&mut v, l);
    string_of(&v)
}

/// Whether a path holds a control character (below U+0020).
pub open spec fn has_control(s: Seq<char>) -> bool {
    exists|i: int| 0 <= i < s.len() && (s[i] as u32) < 0x20
}

/// A path that is not safe to hand to a launcher.
pub fn is_suspicious_path(path: &str) -> (r: bool)
    ensures
        r == has_control(path@),
{
    let v = chars_of(path);
    let mut i: usize = 0;
    while i < v.len()
        invariant
            i <= v@.len(),
            v@ == path@,
            forall|k: int| 0 <= k < i ==> (v@[k] as u32) >= 0x20,
        decreases v@.len() - i,
    {
        if (v[i] as u32) < 0x20 {
            assert(0 <= i < path@.len() && (path@[i as int] as u32) < 0x20);
            return true;
        }
        i = i + 1;
    }
    false
}

} // verus!
