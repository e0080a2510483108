//! The re-export resolver's decisions: which paths to probe for a relative
//! specifier, which probe wins, and how a canonical path is expressed
//! relative to the root. The probes themselves (is it a directory, does it
//! exist, what is its canonical form) are made by the caller on disk.
use vstd::prelude::*;

use crate::text::{
    chars_of, lemma_str_views_push, lemma_views_push, push_all, push_str, split, split_on,
    starts_with, str_views, string_of, views,
};

verus! {

/// The position of the last `c` in `s`.
pub open spec fn last_index_of(s: Seq<char>, c: char) -> Option<int>
    decreases s.len(),
{
    if s.len() == 0 {
        None
    } else if s.last() == c {
        Some(s.len() - 1)
    } else {
        last_index_of(s.drop_last(), c)
    }
}

/// The directory of a file path, as `Path::parent` gives it for a file.
pub open spec fn parent_of(p: Seq<char>) -> Option<Seq<char>> {
    if p.len() == 0 || p == seq!['/'] {
        None
    } else {
        match last_index_of(p, '/') {
            Some(k) => if k == 0 {
                Some(seq!['/'])
            } else {
                Some(p.subrange(0, k))
            },
            None => Some(Seq::empty()),
        }
    }
}

/// `dir` joined with the relative path `rel`.
pub open spec fn join_path(dir: Seq<char>, rel: Seq<char>) -> Seq<char> {
    if dir.len() == 0 {
        rel
    } else if dir.last() == '/' {
        dir + rel
    } else {
        dir + seq!['/'] + rel
    }
}

/// The last component of a path.
pub open spec fn file_name_of(p: Seq<char>) -> Seq<char> {
    match last_index_of(p, '/') {
        Some(k) => p.subrange(k + 1, p.len() as int),
        None => p,
    }
}

/// Whether a file name carries an extension: a `.` after its first character.
pub open spec fn has_extension(name: Seq<char>) -> bool {
    name != seq!['.', '.'] && exists|k: int| 0 < k < name.len() && name[k] == '.'
}

/// What a probe plan is for a relative specifier.
pub struct ResolvePlan {
    /// The specifier joined to the importing file's directory.
    pub candidate: String,
    /// The paths to test for existence, in order.
    pub probes: Vec<String>,
}

/// The paths with each allowed extension appended, in the allowed order.
pub open spec fn with_extensions(cand: Seq<char>, exts: Seq<Seq<char>>) -> Seq<Seq<char>>
    decreases exts.len(),
{
    if exts.len() == 0 {
        Seq::empty()
    } else {
        with_extensions(cand, exts.drop_last()).push(cand + seq!['.'] + exts.last())
    }
}

/// The probe plan: `None` for a specifier that does not start with `.` or a
/// file with no directory; else the joined candidate, and as probes the
/// candidate with each allowed extension (when it has none) and then the
/// candidate itself.
pub open spec fn plan_of(file: Seq<char>, spec: Seq<char>, exts: Seq<Seq<char>>) -> Option<
    (Seq<char>, Seq<Seq<char>>),
> {
    if !starts_with(spec, seq!['.']) {
        None
    } else {
        match parent_of(file) {
            None => None,
            Some(dir) => {
                let cand = join_path(dir, spec);
                let name = file_name_of(cand);
                let variants = if !has_extension(name) && name.len() > 0 && name != seq!['.', '.'] {
                    with_extensions(cand, exts)
                } else {
                    Seq::empty()
                };
                Some((cand, variants.push(cand)))
            },
        }
    }
}

fn last_index_exec(s: &Vec<char>, c: char) -> (r: Option<usize>)
    ensures
        match r {
            Some(k) => last_index_of(s@, c) == Some(k as int) && k < s@.len(),
            None => last_index_of(s@, c) is None,
        },
{
    let mut j: usize = s.len();
    assert(s@.subrange(0, s@.len() as int) =~= s@);
    while j > 0
        invariant
            j <= s@.len(),
            last_index_of(s@, c) == last_index_of(s@.subrange(0, j as int), c),
        decreases j,
    {
        assert(s@.subrange(0, j as int).drop_last() =~= s@.subrange(0, j - 1));
        if s[j - 1] == c {
            return Some(j - 1);
        }
        j = j - 1;
    }
    None
}

fn has_extension_exec(name: &Vec<char>) -> (r: bool)
    ensures
        r == has_extension(name@),
{
    if name.len() == 2 && name[0] == '.' && name[1] == '.' {
        assert(name@ =~= seq!['.', '.']);
        return false;
    }
    assert(name@ != seq!['.', '.']);
    let mut k: usize = 1;
    while k < name.len()
        invariant
            1 <= k,
            name@ != seq!['.', '.'],
            forall|i: int| 0 < i < k && i < name@.len() ==> name@[i] != '.',
        decreases name@.len() - k,
    {
        if name[k] == '.' {
            assert(0 < k < name@.len() && name@[k as int] == '.');
            return true;
        }
        k = k + 1;
    }
    false
}

/// Plans the probes that resolve `spec`, imported from `file`, with the
/// allowed extensions `exts` in order.
pub fn resolve_plan(file: &str, spec: &str, exts: &Vec<String>) -> (r: Option<ResolvePlan>)
    ensures
        match r {
            Some(p) => plan_of(file@, spec@, str_views(exts@)) == Some(
                (p.candidate@, str_views(p.probes@)),
            ),
            None => plan_of(file@, spec@, str_views(exts@)) is None,
        },
{
    let s = chars_of(spec);
    let f = chars_of(file);
    let dot = chars_of(".");
    assert(dot@ == seq!['.']) by {
        reveal_strlit(".");
    }
    if !crate::text::occurs_at_exec(&s, &dot, 0) {
        return None;
    }
    if f.len() == 0 || (f.len() == 1 && f[0] == '/') {
        assert(f@.len() == 1 ==> f@ =~= seq![f@[0]]);
        return None;
    }
    assert(f@ != seq!['/']) by {
        if f@ == seq!['/'] {
            assert(f@.len() == 1 && f@[0] == '/');
        }
    }
    let mut cand: Vec<char> = Vec::new();
    match last_index_exec(&f, '/') {
        Some(k) => {
            if k == 0 {
                cand.push('/');
            } else {
                cand = crate::text::slice_chars(&f, 0, k);
            }
        },
        None => {},
    }
    let ghost dir = cand@;
    assert(parent_of(f@) == Some(dir)) by {
        if last_index_of(f@, '/') == Some(0int) {
            assert(dir =~= seq!['/']);
        }
    }
    if cand.len() > 0 && cand[cand.len() - 1] != '/' {
        cand.push('/');
    }
    push_all(&mut cand, &s);
    assert(cand@ =~= join_path(dir, s@));
    let cn = cand.len();
    let name = match last_index_exec(&cand, '/') {
        Some(k) => crate::text::slice_chars(&cand, k + 1, cn),
        None => crate::text::slice_chars(&cand, 0, cn),
    };
    assert(name@ == file_name_of(cand@));
    let candidate = string_of(&cand);
    let mut probes: Vec<String> = Vec::new();
    let is_parent = name.len() == 2 && name[0] == '.' && name[1] == '.';
    assert(is_parent == (name@ == seq!['.', '.'])) by {
        if name@ == seq!['.', '.'] {
            assert(name@.len() == 2);
        }
        if is_parent {
            assert(name@ =~= seq!['.', '.']);
        }
    }
    if !has_extension_exec(&name) && name.len() > 0 && !is_parent {
        let ghost ev = str_views(exts@);
        let mut i: usize = 0;
        while i < exts.len()
            invariant
                i <= exts@.len(),
                ev == str_views(exts@),
                str_views(probes@) == with_extensions(cand@, ev.subrange(0, i as int)),
            decreases exts@.len() - i,
        {
            assert(ev.subrange(0, i + 1).drop_last() =~= ev.subrange(0, i as int));
            let mut v: Vec<char> = Vec::new();
            push_all(&mut v, &cand);
            v.push('.');
            push_str(&mut v, exts[i].as_str());
            assert(v@ =~= cand@ + seq!['.'] + ev[i as int]);
            let p = string_of(&v);
            let ghost prev = probes@;
            probes.push(p);
            proof {
                lemma_str_views_push(prev, p);
            }
            i = i + 1;
        }
        assert(ev.subrange(0, exts@.len() as int) =~= ev);
    } else {
        assert(str_views(probes@) =~= Seq::<Seq<char>>::empty());
    }
    let ghost prev = probes@;
    probes.push(string_of(&cand));
    proof {
        lemma_str_views_push(prev, probes@.last());
    }
    Some(ResolvePlan { candidate, probes })
}

/// The probe that resolves: none when the candidate is a directory, else
/// the first probe that exists.
pub open spec fn chosen_probe(candidate_is_dir: bool, present: Seq<bool>) -> Option<int> {
    if candidate_is_dir || !(exists|k: int| 0 <= k < present.len() && present[k]) {
        None
    } else {
        Some(choose|k: int| 0 <= k < present.len() && present[k] && forall|j: int| 0 <= j < k ==> !present[j])
    }
}

/// Picks the resolving probe from what the disk said: `present[k]` is
/// whether probe `k` exists as a file (exists and is not a directory), so a
/// chosen probe never names a directory; `candidate_is_dir` is whether the
/// bare candidate is a directory, in which case nothing resolves.
pub fn first_existing(candidate_is_dir: bool, present: &Vec<bool>) -> (r: Option<usize>)
    ensures
        match r {
            Some(k) => !candidate_is_dir && k < present@.len() && present@[k as int] && (forall|
                j: int,
            |
                0 <= j < k ==> !present@[j]),
            None => candidate_is_dir || forall|k: int| 0 <= k < present@.len() ==> !present@[k],
        },
{
    if candidate_is_dir {
        return None;
    }
    let mut k: usize = 0;
    while k < present.len()
        invariant
            !candidate_is_dir,
            k <= present@.len(),
            forall|j: int| 0 <= j < k ==> !present@[j],
        decreases present@.len() - k,
    {
        if present[k] {
            return Some(k);
        }
        k = k + 1;
    }
    None
}

/// The components of a path: its segments, without empty or `.` ones.
pub open spec fn components(segs: Seq<Seq<char>>) -> Seq<Seq<char>>
    decreases segs.len(),
{
    if segs.len() == 0 {
        Seq::empty()
    } else {
        let rest = components(segs.drop_last());
        let s = segs.last();
        if s.len() == 0 || s == seq!['.'] {
            rest
        } else {
            rest.push(s)
        }
    }
}

pub open spec fn path_components(p: Seq<char>) -> Seq<Seq<char>> {
    components(split(p, '/'))
}

pub open spec fn is_absolute(p: Seq<char>) -> bool {
    p.len() > 0 && p[0] == '/'
}

/// Components joined with `/`.
pub open spec fn join_components(c: Seq<Seq<char>>) -> Seq<char>
    decreases c.len(),
{
    if c.len() == 0 {
        Seq::empty()
    } else if c.len() == 1 {
        c[0]
    } else {
        join_components(c.drop_last()) + seq!['/'] + c.last()
    }
}

/// Whether `path` lies within `base`: `base`'s components begin those of
/// `path` (as `Path::starts_with` compares them).
pub open spec fn within_root(path: Seq<char>, base: Seq<char>) -> bool {
    let c = path_components(path);
    let r = path_components(base);
    is_absolute(path) == is_absolute(base) && r.len() <= c.len() && c.subrange(0, r.len() as int)
        == r
}

/// `canonical` relative to `root` when it lies within it (as
/// `Path::strip_prefix` gives it), else `canonical` unchanged.
pub open spec fn relative_to(canonical: Seq<char>, root: Seq<char>) -> Seq<char> {
    if within_root(canonical, root) {
        let c = path_components(canonical);
        join_components(c.subrange(path_components(root).len() as int, c.len() as int))
    } else {
        canonical
    }
}

fn components_exec(p: &Vec<char>) -> (r: Vec<Vec<char>>)
    ensures
        views(r@) == path_components(p@),
{
    let segs = split_on(p, '/');
    let ghost sv = views(segs@);
    let mut out: Vec<Vec<char>> = Vec::new();
    let mut i: usize = 0;
    while i < segs.len()
        invariant
            i <= segs@.len(),
            sv == views(segs@),
            sv == split(p@, '/'),
            views(out@) == components(sv.subrange(0, i as int)),
        decreases segs@.len() - i,
    {
        assert(sv.subrange(0, i + 1).drop_last() =~= sv.subrange(0, i as int));
        let seg = &segs[i];
        let is_dot = seg.len() == 1 && seg[0] == '.';
        assert(is_dot == (seg@ == seq!['.'])) by {
            if is_dot {
                assert(seg@ =~= seq!['.']);
            }
        }
        if seg.len() > 0 && !is_dot {
            let c = crate::text::slice_chars(seg, 0, seg.len());
            assert(c@ =~= seg@);
            let ghost prev = out@;
            out.push(c);
            proof {
                lemma_views_push(prev, c);
            }
        }
        i = i + 1;
    }
    assert(sv.subrange(0, segs@.len() as int) =~= sv);
    out
}

fn join_exec(c: &Vec<Vec<char>>, from: usize) -> (r: Vec<char>)
    requires
        from <= c@.len(),
    ensures
        r@ == join_components(views(c@).subrange(from as int, c@.len() as int)),
{
    let ghost cv = views(c@).subrange(from as int, c@.len() as int);
    let mut out: Vec<char> = Vec::new();
    let mut i: usize = from;
    while i < c.len()
        invariant
            from <= i <= c@.len(),
            cv == views(c@).subrange(from as int, c@.len() as int),
            out@ == join_components(cv.subrange(0, i - from)),
        decreases c@.len() - i,
    {
        let ghost prefix = cv.subrange(0, i + 1 - from);
        assert(prefix.drop_last() =~= cv.subrange(0, i - from));
        assert(prefix.last() == c@[i as int]@);
        if i > from {
            out.push('/');
        } else {
            assert(prefix =~= seq![c@[i as int]@]);
        }
        push_all(&mut out, &c[i]);
        i = i + 1;
    }
    assert(cv.subrange(0, c@.len() - from) =~= cv);
    out
}

fn components_eq(a: &Vec<char>, b: &Vec<char>) -> (r: bool)
    ensures
        r == (a@ == b@),
{
    crate::text::chars_eq(a, b)
}

fn prefix_components(cc: &Vec<Vec<char>>, rc: &Vec<Vec<char>>) -> (r: bool)
    ensures
        r == (rc@.len() <= cc@.len() && views(cc@).subrange(0, rc@.len() as int) == views(rc@)),
{
    if rc.len() > cc.len() {
        return false;
    }
    let ghost cv = views(cc@);
    let ghost rv = views(rc@);
    let mut i: usize = 0;
    while i < rc.len()
        invariant
            i <= rc@.len() <= cc@.len(),
            cv == views(cc@),
            rv == views(rc@),
            cv.subrange(0, i as int) == rv.subrange(0, i as int),
        decreases rc@.len() - i,
    {
        assert(cv[i as int] == cc@[i as int]@);
        assert(rv[i as int] == rc@[i as int]@);
        if !components_eq(&cc[i], &rc[i]) {
            assert(cv.subrange(0, rv.len() as int)[i as int] != rv[i as int]);
            return false;
        }
        assert(cv.subrange(0, i + 1) =~= rv.subrange(0, i + 1));
        i = i + 1;
    }
    assert(rv.subrange(0, rv.len() as int) =~= rv);
    true
}

/// Whether `path` lies within `base`, component by component.
pub fn path_starts_with(path: &str, base: &str) -> (r: bool)
    ensures
        r == within_root(path@, base@),
{
    let c = chars_of(path);
    let rt = chars_of(base);
    let cc = components_exec(&c);
    let rc = components_exec(&rt);
    let abs_c = c.len() > 0 && c[0] == '/';
    let abs_r = rt.len() > 0 && rt[0] == '/';
    assert(abs_c == is_absolute(c@));
    assert(abs_r == is_absolute(rt@));
    abs_c == abs_r && prefix_components(&cc, &rc)
}

/// Expresses a canonical path relative to the root, or keeps it whole when
/// it does not lie within the root.
pub fn relativize(canonical: &str, root: &str) -> (r: String)
    ensures
        r@ == relative_to(canonical@, root@),
{
    if !path_starts_with(canonical, root) {
        return canonical.to_owned();
    }
    let c = chars_of(canonical);
    let rt = chars_of(root);
    let cc = components_exec(&c);
    let rc = components_exec(&rt);
    let out = join_exec(&cc, rc.len());
    string_of(&out)
}

/// Whether `canon` holds a canonical path that lies within `root`.
pub open spec fn accepted(root: Seq<char>, canon: Option<Seq<char>>) -> bool {
    match canon {
        Some(c) => within_root(c, root),
        None => false,
    }
}

/// Picks the root that serves a requested file. `canon[k]` is what
/// canonicalizing the request gave for root `k` (for a relative request, the
/// request joined to that root; for an absolute one, the request itself for
/// every root), or `None` when it failed. The winner is the first root whose
/// canonical path lies within it; with no winner the request is refused.
pub fn choose_open_root(roots: &Vec<String>, canon: &Vec<Option<String>>) -> (r: Option<usize>)
    requires
        canon@.len() == roots@.len(),
    ensures
        match r {
            Some(k) => k < roots@.len() && accepted(
                roots@[k as int]@,
                crate::types::opt_view(canon@[k as int]),
            ) && forall|j: int|
                0 <= j < k ==> !accepted(roots@[j]@, crate::types::opt_view(#[trigger] canon@[j])),
            None => forall|j: int|
                0 <= j < roots@.len() ==> !accepted(
                    roots@[j]@,
                    crate::types::opt_view(#[trigger] canon@[j]),
                ),
        },
{
    let mut k: usize = 0;
    while k < roots.len()
        invariant
            k <= roots@.len(),
            canon@.len() == roots@.len(),
            forall|j: int|
                0 <= j < k ==> !accepted(roots@[j]@, crate::types::opt_view(#[trigger] canon@[j])),
        decreases roots@.len() - k,
    {
        match &canon[k] {
            Some(c) => {
                if path_starts_with(c.as_str(), roots[k].as_str()) {
                    return Some(k);
                }
            },
            None => {},
        }
        k = k + 1;
    }
    None
}

} // verus!
