//! The order of strings (lexicographic by character, as `Ord for String`
//! compares, UTF-8 preserving the order of code points) and sorting by it.
use vstd::prelude::*;

use crate::text::{chars_of, str_views};

verus! {

/// Whether `a` comes strictly before `b`.
pub open spec fn str_lt(a: Seq<char>, b: Seq<char>) -> bool
    decreases a.len(),
{
    if a.len() == 0 {
        b.len() > 0
    } else if b.len() == 0 {
        false
    } else if (a[0] as u32) < (b[0] as u32) {
        true
    } else if a[0] == b[0] {
        str_lt(a.drop_first(), b.drop_first())
    } else {
        false
    }
}

pub proof fn lemma_str_lt_transitive(a: Seq<char>, b: Seq<char>, c: Seq<char>)
    requires
        str_lt(a, b),
        str_lt(b, c),
    ensures
        str_lt(a, c),
    decreases a.len(),
{
    if a.len() > 0 && b.len() > 0 && c.len() > 0 && a[0] == b[0] && b[0] == c[0] {
        lemma_str_lt_transitive(a.drop_first(), b.drop_first(), c.drop_first());
    }
}

pub proof fn lemma_str_lt_total(a: Seq<char>, b: Seq<char>)
    requires
        a != b,
    ensures
        str_lt(a, b) || str_lt(b, a),
    decreases a.len(),
{
    if a.len() > 0 && b.len() > 0 && a[0] == b[0] {
        if a.drop_first() == b.drop_first() {
            assert(a =~= seq![a[0]] + a.drop_first());
            assert(b =~= seq![b[0]] + b.drop_first());
        }
        lemma_str_lt_total(a.drop_first(), b.drop_first());
    } else if a.len() > 0 && b.len() > 0 {
        vstd::utf8::char_u32_cast(a[0], a[0] as u32);
        vstd::utf8::char_u32_cast(b[0], b[0] as u32);
    } else if a.len() == 0 && b.len() == 0 {
        assert(a =~= b);
    }
}

pub open spec fn strictly_sorted(s: Seq<Seq<char>>) -> bool {
    forall|i: int, j: int| 0 <= i < j < s.len() ==> str_lt(#[trigger] s[i], #[trigger] s[j])
}

fn chars_lt(a: &Vec<char>, b: &Vec<char>) -> (r: bool)
    ensures
        r == str_lt(a@, b@),
{
    let mut i: usize = 0;
    assert(a@.subrange(0, a@.len() as int) =~= a@);
    assert(b@.subrange(0, b@.len() as int) =~= b@);
    assert(a@.subrange(0, 0) =~= b@.subrange(0, 0));
    while i < a.len() && i < b.len()
        invariant
            i <= a@.len(),
            i <= b@.len(),
            a@.subrange(0, i as int) == b@.subrange(0, i as int),
            str_lt(a@, b@) == str_lt(
                a@.subrange(i as int, a@.len() as int),
                b@.subrange(i as int, b@.len() as int),
            ),
        decreases a@.len() - i,
    {
        let ghost ra = a@.subrange(i as int, a@.len() as int);
        let ghost rb = b@.subrange(i as int, b@.len() as int);
        assert(ra.drop_first() =~= a@.subrange(i + 1, a@.len() as int));
        assert(rb.drop_first() =~= b@.subrange(i + 1, b@.len() as int));
        if (a[i] as u32) < (b[i] as u32) {
            return true;
        }
        if a[i] != b[i] {
            return false;
        }
        assert(a@.subrange(0, i + 1) =~= a@.subrange(0, i as int).push(a@[i as int]));
        assert(b@.subrange(0, i + 1) =~= b@.subrange(0, i as int).push(b@[i as int]));
        i = i + 1;
    }
    i < b.len()
}

/// Whether string `a` sorts strictly before string `b`.
pub fn string_lt(a: &String, b: &String) -> (r: bool)
    ensures
        r == str_lt(a@, b@),
{
    let x = chars_of(a.as_str());
    let y = chars_of(b.as_str());
    chars_lt(&x, &y)
}

/// Inserts `x`, which `v` does not hold, at its place in the strictly sorted `v`.
pub fn insert_sorted(v: &mut Vec<String>, x: String)
    requires
        strictly_sorted(str_views(old(v)@)),
        !str_views(old(v)@).contains(x@),
    ensures
        strictly_sorted(str_views(final(v)@)),
        str_views(final(v)@).to_set() == str_views(old(v)@).to_set().insert(x@),
        final(v)@.len() == old(v)@.len() + 1,
{
    let ghost ov = str_views(v@);
    let mut p: usize = 0;
    while p < v.len() && string_lt(&v[p], &x)
        invariant
            p <= v@.len(),
            ov == str_views(v@),
            forall|i: int| 0 <= i < p ==> str_lt(#[trigger] ov[i], x@),
        decreases v@.len() - p,
    {
        p = p + 1;
    }
    assert forall|i: int| p <= i < ov.len() implies str_lt(x@, #[trigger] ov[i]) by {
        if p < ov.len() {
            assert(!str_lt(ov[p as int], x@));
            assert(ov[p as int] != x@);
            lemma_str_lt_total(ov[p as int], x@);
            if i > p {
                lemma_str_lt_transitive(x@, ov[p as int], ov[i]);
            }
        }
    }
    v.insert(p, x);
    let ghost nv = str_views(v@);
    assert(nv =~= ov.subrange(0, p as int).push(x@) + ov.subrange(p as int, ov.len() as int));
    assert forall|i: int, j: int| 0 <= i < j < nv.len() implies str_lt(
        #[trigger] nv[i],
        #[trigger] nv[j],
    ) by {
        if i < p && j == p {
        } else if i < p && j > p {
            assert(nv[j] == ov[j - 1]);
        } else if i == p {
            assert(nv[j] == ov[j - 1]);
        } else if i < p {
        } else {
            assert(nv[i] == ov[i - 1]);
            assert(nv[j] == ov[j - 1]);
        }
    }
    assert(nv.to_set() =~= ov.to_set().insert(x@)) by {
        assert forall|s: Seq<char>| nv.to_set().contains(s) implies ov.to_set().insert(
            x@,
        ).contains(s) by {
            let k = choose|k: int| 0 <= k < nv.len() && nv[k] == s;
            if k < p {
                assert(ov[k] == s);
            } else if k > p {
                assert(ov[k - 1] == s);
            }
        }
        assert forall|s: Seq<char>| ov.to_set().insert(x@).contains(s) implies nv.to_set().contains(
            s,
        ) by {
            if s == x@ {
                assert(nv[p as int] == s);
            } else {
                let k = choose|k: int| 0 <= k < ov.len() && ov[k] == s;
                if k < p {
                    assert(nv[k] == s);
                } else {
                    assert(nv[k + 1] == s);
                }
            }
        }
    }
}

} // verus!
