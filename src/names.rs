//! Name lists written between braces: `a, b as c, self`.
use vstd::prelude::*;

use crate::text::{
    chars_of, eq_str, find_exec, find_from, lemma_str_views_push, slice_chars, split, split_on,
    str_views, string_of, trim, trim_chars, views,
};

verus! {

/// The name an item of a list exports: the alias after ` as ` when there is
/// one, else the item itself.
pub open spec fn alias_or_self(t: Seq<char>) -> Seq<char> {
    match find_from(t, " as "@, 0) {
        Some(k) => trim(t.subrange(k + " as "@.len(), t.len() as int)),
        None => t,
    }
}

/// The name that one comma-separated item contributes, if any: blank items
/// give none, and so does a bare `self` when `drop_self` holds.
pub open spec fn list_item(item: Seq<char>, drop_self: bool) -> Option<Seq<char>> {
    let t = trim(item);
    if t.len() == 0 || (drop_self && t == "self"@) {
        None
    } else {
        Some(alias_or_self(t))
    }
}

pub open spec fn list_names(items: Seq<Seq<char>>, drop_self: bool) -> Seq<Seq<char>>
    decreases items.len(),
{
    if items.len() == 0 {
        Seq::empty()
    } else {
        let rest = list_names(items.drop_last(), drop_self);
        match list_item(items.last(), drop_self) {
            Some(n) => rest.push(n),
            None => rest,
        }
    }
}

/// The names of a script export list such as `a, b as c`.
pub open spec fn brace_names(raw: Seq<char>) -> Seq<Seq<char>> {
    list_names(split(raw, ','), false)
}

/// The names of a Rust `use` brace list, where a bare `self` names nothing.
pub open spec fn rust_brace_names(raw: Seq<char>) -> Seq<Seq<char>> {
    list_names(split(raw, ','), true)
}

fn alias_or_self_exec(t: &Vec<char>) -> (r: Vec<char>)
    ensures
        r@ == alias_or_self(t@),
{
    let sep = chars_of(" as ");
    let n = t.len();
    match find_exec(t, &sep, 0) {
        Some(k) => {
            let rest = slice_chars(t, k + sep.len(), n);
            trim_chars(&rest)
        },
        None => slice_chars(t, 0, n),
    }
}

fn names_of_list(raw: &Vec<char>, drop_self: bool) -> (r: Vec<String>)
    ensures
        str_views(r@) == list_names(split(raw@, ','), drop_self),
{
    let items = split_on(raw, ',');
    let ghost iv = views(items@);
    let mut out: Vec<String> = Vec::new();
    let mut i: usize = 0;
    while i < items.len()
        invariant
            i <= items@.len(),
            iv == views(items@),
            iv == split(raw@, ','),
            str_views(out@) == list_names(iv.subrange(0, i as int), drop_self),
        decreases items@.len() - i,
    {
        assert(iv.subrange(0, i + 1).drop_last() =~= iv.subrange(0, i as int));
        assert(iv.subrange(0, i + 1).last() == items@[i as int]@);
        let t = trim_chars(&items[i]);
        let skip = t.len() == 0 || (drop_self && eq_str(&t, "self"));
        if !skip {
            let name = alias_or_self_exec(&t);
            let s = string_of(&name);
            let ghost prev = out@;
            out.push(s);
            proof {
                lemma_str_views_push(prev, s);
            }
        }
        i = i + 1;
    }
    assert(iv.subrange(0, items@.len() as int) =~= iv);
    out
}

/// Splits a comma-separated export list into the names it exports; an item
/// `a as b` exports `b`, and blank items are skipped.
pub fn brace_list_to_names(raw: &str) -> (r: Vec<String>)
    ensures
        str_views(r@) == brace_names(raw@),
{
    let chars = chars_of(raw);
    names_of_list(&chars, false)
}

/// As `brace_list_to_names`, for a Rust `use` list, where `self` is dropped.
pub fn parse_rust_brace_names(raw: &str) -> (r: Vec<String>)
    ensures
        str_views(r@) == rust_brace_names(raw@),
{
    let chars = chars_of(raw);
    names_of_list(&chars, true)
}

} // verus!
