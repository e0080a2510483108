//! The command coverage matcher: frontend calls without a backend handler,
//! and handlers that no frontend call uses.
use vstd::prelude::*;

use crate::aggregate::{contains_string, dedup, dedup_strings, files_view};
use crate::text::{lemma_str_views_push, str_views};
use crate::types::{CommandRef, CommandView, FileAnalysis, FileView};

verus! {

/// An unmatched command name and every place it occurs on its side.
pub struct CommandGap {
    pub name: String,
    pub locations: Vec<(String, usize)>,
}

pub open spec fn locations_view(v: Seq<(String, usize)>) -> Seq<(Seq<char>, nat)> {
    v.map_values(|l: (String, usize)| (l.0@, l.1 as nat))
}

impl View for CommandGap {
    type V = (Seq<char>, Seq<(Seq<char>, nat)>);

    open spec fn view(&self) -> (Seq<char>, Seq<(Seq<char>, nat)>) {
        (self.name@, locations_view(self.locations@))
    }
}

pub open spec fn gaps_view(v: Seq<CommandGap>) -> Seq<(Seq<char>, Seq<(Seq<char>, nat)>)> {
    v.map_values(|g: CommandGap| g@)
}

/// The call sites of a file when `calls` holds, else its handlers.
pub open spec fn side(f: FileView, calls: bool) -> Seq<CommandView> {
    if calls {
        f.command_calls
    } else {
        f.command_handlers
    }
}

pub open spec fn ref_names(refs: Seq<CommandView>) -> Seq<Seq<char>>
    decreases refs.len(),
{
    if refs.len() == 0 {
        Seq::empty()
    } else {
        ref_names(refs.drop_last()).push(refs.last().name)
    }
}

/// Every command name on one side, across all files, in encounter order.
pub open spec fn side_names(files: Seq<FileView>, calls: bool) -> Seq<Seq<char>>
    decreases files.len(),
{
    if files.len() == 0 {
        Seq::empty()
    } else {
        side_names(files.drop_last(), calls) + ref_names(side(files.last(), calls))
    }
}

pub open spec fn ref_locations(path: Seq<char>, refs: Seq<CommandView>, name: Seq<char>) -> Seq<
    (Seq<char>, nat),
>
    decreases refs.len(),
{
    if refs.len() == 0 {
        Seq::empty()
    } else {
        let rest = ref_locations(path, refs.drop_last(), name);
        if refs.last().name == name {
            rest.push((path, refs.last().line))
        } else {
            rest
        }
    }
}

/// Every `(file, line)` where `name` occurs on one side, in encounter order.
pub open spec fn locations_of(files: Seq<FileView>, name: Seq<char>, calls: bool) -> Seq<
    (Seq<char>, nat),
>
    decreases files.len(),
{
    if files.len() == 0 {
        Seq::empty()
    } else {
        locations_of(files.drop_last(), name, calls) + ref_locations(
            files.last().path,
            side(files.last(), calls),
            name,
        )
    }
}

/// The gaps among `names`: those absent from the other side.
pub open spec fn gap_list(files: Seq<FileView>, names: Seq<Seq<char>>, calls: bool) -> Seq<
    (Seq<char>, Seq<(Seq<char>, nat)>),
>
    decreases names.len(),
{
    if names.len() == 0 {
        Seq::empty()
    } else {
        let rest = gap_list(files, names.drop_last(), calls);
        let n = names.last();
        if side_names(files, !calls).contains(n) {
            rest
        } else {
            rest.push((n, locations_of(files, n, calls)))
        }
    }
}

/// The gaps of one side: its distinct names, in order of first appearance,
/// that the other side never names.
pub open spec fn command_gaps(files: Seq<FileView>, calls: bool) -> Seq<
    (Seq<char>, Seq<(Seq<char>, nat)>),
> {
    gap_list(files, dedup(side_names(files, calls)), calls)
}

fn side_refs(f: &FileAnalysis, calls: bool) -> (r: &Vec<CommandRef>)
    ensures
        crate::types::commands_view(r@) == side(f@, calls),
{
    if calls {
        &f.command_calls
    } else {
        &f.command_handlers
    }
}

fn side_names_exec(files: &Vec<FileAnalysis>, calls: bool) -> (r: Vec<String>)
    ensures
        str_views(r@) == side_names(files_view(files@), calls),
{
    let ghost fv = files_view(files@);
    let mut out: Vec<String> = Vec::new();
    let mut i: usize = 0;
    while i < files.len()
        invariant
            i <= files@.len(),
            fv == files_view(files@),
            str_views(out@) == side_names(fv.subrange(0, i as int), calls),
        decreases files@.len() - i,
    {
        assert(fv.subrange(0, i + 1).drop_last() =~= fv.subrange(0, i as int));
        let refs = side_refs(&files[i], calls);
        let ghost rv = side(fv[i as int], calls);
        let ghost base = str_views(out@);
        let mut k: usize = 0;
        while k < refs.len()
            invariant
                k <= refs@.len(),
                rv == crate::types::commands_view(refs@),
                str_views(out@) == base + ref_names(rv.subrange(0, k as int)),
            decreases refs@.len() - k,
        {
            assert(rv.subrange(0, k + 1).drop_last() =~= rv.subrange(0, k as int));
            let ghost prev = out@;
            out.push(refs[k].name.clone());
            proof {
                lemma_str_views_push(prev, refs@[k as int].name);
            }
            k = k + 1;
        }
        assert(rv.subrange(0, rv.len() as int) =~= rv);
        i = i + 1;
    }
    assert(fv.subrange(0, files@.len() as int) =~= fv);
    out
}

fn locations_exec(files: &Vec<FileAnalysis>, name: &String, calls: bool) -> (r: Vec<(String, usize)>)
    ensures
        locations_view(r@) == locations_of(files_view(files@), name@, calls),
{
    let ghost fv = files_view(files@);
    let mut out: Vec<(String, usize)> = Vec::new();
    let mut i: usize = 0;
    while i < files.len()
        invariant
            i <= files@.len(),
            fv == files_view(files@),
            locations_view(out@) == locations_of(fv.subrange(0, i as int), name@, calls),
        decreases files@.len() - i,
    {
        assert(fv.subrange(0, i + 1).drop_last() =~= fv.subrange(0, i as int));
        let refs = side_refs(&files[i], calls);
        let ghost rv = side(fv[i as int], calls);
        let ghost base = locations_view(out@);
        let mut k: usize = 0;
        while k < refs.len()
            invariant
                i < files@.len(),
                fv == files_view(files@),
                k <= refs@.len(),
                rv == crate::types::commands_view(refs@),
                locations_view(out@) == base + ref_locations(fv[i as int].path, rv.subrange(0, k as int), name@),
            decreases refs@.len() - k,
        {
            assert(rv.subrange(0, k + 1).drop_last() =~= rv.subrange(0, k as int));
            if refs[k].name == *name {
                let ghost prev = out@;
                let e = (files[i].path.clone(), refs[k].line);
                out.push(e);
                assert(locations_view(out@) =~= locations_view(prev).push((e.0@, e.1 as nat)));
            }
            k = k + 1;
        }
        assert(rv.subrange(0, rv.len() as int) =~= rv);
        i = i + 1;
    }
    assert(fv.subrange(0, files@.len() as int) =~= fv);
    out
}

fn gaps_exec(files: &Vec<FileAnalysis>, calls: bool) -> (r: Vec<CommandGap>)
    ensures
        gaps_view(r@) == command_gaps(files_view(files@), calls),
{
    let all = side_names_exec(files, calls);
    let names = dedup_strings(&all);
    let other = side_names_exec(files, !calls);
    let ghost nv = str_views(names@);
    let mut out: Vec<CommandGap> = Vec::new();
    let mut i: usize = 0;
    while i < names.len()
        invariant
            i <= names@.len(),
            nv == str_views(names@),
            nv == dedup(side_names(files_view(files@), calls)),
            str_views(other@) == side_names(files_view(files@), !calls),
            gaps_view(out@) == gap_list(files_view(files@), nv.subrange(0, i as int), calls),
        decreases names@.len() - i,
    {
        assert(nv.subrange(0, i + 1).drop_last() =~= nv.subrange(0, i as int));
        if !contains_string(&other, &names[i]) {
            let g = CommandGap { name: names[i].clone(), locations: locations_exec(files, &names[i], calls) };
            let ghost prev = out@;
            out.push(g);
            assert(gaps_view(out@) =~= gaps_view(prev).push(g@));
        }
        i = i + 1;
    }
    assert(nv.subrange(0, names@.len() as int) =~= nv);
    out
}

/// Command names called by the frontend that no handler declares.
pub fn missing_handlers(files: &Vec<FileAnalysis>) -> (r: Vec<CommandGap>)
    ensures
        gaps_view(r@) == command_gaps(files_view(files@), true),
{
    gaps_exec(files, true)
}

/// Handlers that no frontend call names.
pub fn unused_handlers(files: &Vec<FileAnalysis>) -> (r: Vec<CommandGap>)
    ensures
        gaps_view(r@) == command_gaps(files_view(files@), false),
{
    gaps_exec(files, false)
}

} // verus!
