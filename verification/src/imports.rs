//! Import-path resolution: matching a dotted module path against an
//! ordered list of root directories.
//!
//! The caller supplies the directory tree as a value (listing directories
//! is its concern); resolution itself is pure. Every segment of the typed
//! path but the last must exactly match a directory, walked from the roots
//! in order with the first match descending further; the last segment is a
//! filter prefix over the resolved directory's children — child directory
//! names and file stems — and a path ending in a dot lists all children. A
//! segment that matches nothing yields an empty list, never an error.

use vstd::prelude::*;

use crate::candidates::{
    process, process_v, sug_view, sugs_view, Payload, PayloadV, SugV, Suggestion,
};
use crate::name::{copy_name, name_eq, Name};

verus! {

/// A directory handed in by the caller: its name, its subdirectories, and
/// the stems of the module files directly under it.
pub struct FsDir {
    pub name: Name,
    pub dirs: Vec<FsDir>,
    pub files: Vec<Name>,
}

/// The dot that separates module-path segments.
pub const DOT: u8 = 46;

/// Splits a dotted path into segments: `cur` is the segment being read,
/// `acc` the segments already read. Empty segments are kept, so a path
/// ending in a dot ends in an empty filter segment.
pub open spec fn split_acc(acc: Seq<Seq<u8>>, cur: Seq<u8>, s: Seq<u8>, i: int) -> Seq<Seq<u8>>
    decreases s.len() - i,
{
    if i < 0 || i >= s.len() {
        acc.push(cur)
    } else if s[i] == DOT {
        split_acc(acc.push(cur), Seq::empty(), s, i + 1)
    } else {
        split_acc(acc, cur.push(s[i]), s, i + 1)
    }
}

/// The segments of a dotted path; never empty.
pub open spec fn split_dots(s: Seq<u8>) -> Seq<Seq<u8>> {
    split_acc(Seq::empty(), Seq::empty(), s, 0)
}

/// Splitting yields at least one segment.
pub proof fn lemma_split_acc_len(acc: Seq<Seq<u8>>, cur: Seq<u8>, s: Seq<u8>, i: int)
    ensures
        split_acc(acc, cur, s, i).len() > acc.len(),
    decreases s.len() - i,
{
    if 0 <= i < s.len() {
        if s[i] == DOT {
            lemma_split_acc_len(acc.push(cur), Seq::empty(), s, i + 1);
        } else {
            lemma_split_acc_len(acc, cur.push(s[i]), s, i + 1);
        }
    }
}

/// Splits a dotted path into segments.
#[verifier::loop_isolation(false)]
pub fn split_path(s: &Name) -> (r: Vec<Name>)
    ensures
        crate::name::names_view(r@) == split_dots(s@),
        r@.len() > 0,
{
    let mut acc: Vec<Name> = Vec::new();
    let mut cur: Name = Vec::new();
    proof {
        assert(crate::name::names_view(acc@) =~= Seq::<Seq<u8>>::empty());
        assert(cur@ =~= Seq::<u8>::empty());
    }
    let mut i: usize = 0;
    while i < s.len()
        invariant
            i <= s.len(),
            split_dots(s@) == split_acc(crate::name::names_view(acc@), cur@, s@, i as int),
        decreases s.len() - i,
    {
        if s[i] == DOT {
            proof {
                crate::scope::lemma_names_view_push(acc@, cur);
            }
            acc.push(cur);
            cur = Vec::new();
            proof {
                assert(cur@ =~= Seq::<u8>::empty());
            }
        } else {
            cur.push(s[i]);
        }
        i = i + 1;
    }
    proof {
        crate::scope::lemma_names_view_push(acc@, cur);
        lemma_split_acc_len(Seq::empty(), Seq::empty(), s@, 0);
    }
    acc.push(cur);
    acc
}

/// Index of the first directory named `n`, or `-1`.
pub open spec fn dir_index(ds: Seq<FsDir>, n: Seq<u8>, i: int) -> int
    decreases ds.len() - i,
{
    if i < 0 || i >= ds.len() {
        -1
    } else if ds[i].name@ == n {
        i
    } else {
        dir_index(ds, n, i + 1)
    }
}

/// Finds the first directory of `ds` named like `n`.
pub fn find_dir(ds: &Vec<FsDir>, n: &Name) -> (r: Option<usize>)
    ensures
        match r {
            Some(i) => dir_index(ds@, n@, 0) == i as int && i < ds@.len(),
            None => dir_index(ds@, n@, 0) == -1,
        },
{
    let mut i: usize = 0;
    while i < ds.len()
        invariant
            i <= ds.len(),
            dir_index(ds@, n@, 0) == dir_index(ds@, n@, i as int),
        decreases ds.len() - i,
    {
        if name_eq(&ds[i].name, n) {
            return Some(i);
        }
        i = i + 1;
    }
    None
}

/// The names a directory offers for completion: its child directories'
/// names followed by its file stems.
pub open spec fn child_names_acc(acc: Seq<Seq<u8>>, ds: Seq<FsDir>, fs: Seq<Name>, i: int, j: int) -> Seq<Seq<u8>>
    decreases ds.len() - i, fs.len() - j,
{
    if 0 <= i < ds.len() {
        child_names_acc(acc.push(ds[i].name@), ds, fs, i + 1, j)
    } else if 0 <= j < fs.len() {
        child_names_acc(acc.push(fs[j]@), ds, fs, i, j + 1)
    } else {
        acc
    }
}

/// The completion names of a directory level.
pub open spec fn child_names(ds: Seq<FsDir>, fs: Seq<Name>) -> Seq<Seq<u8>> {
    child_names_acc(Seq::empty(), ds, fs, 0, 0)
}

/// Collects a level's completion names: child directory names, then file
/// stems.
#[verifier::loop_isolation(false)]
pub fn collect_children(ds: &Vec<FsDir>, fs: &Vec<Name>) -> (r: Vec<Name>)
    ensures
        crate::name::names_view(r@) == child_names(ds@, fs@),
{
    let mut out: Vec<Name> = Vec::new();
    proof {
        assert(crate::name::names_view(out@) =~= Seq::<Seq<u8>>::empty());
    }
    let mut i: usize = 0;
    while i < ds.len()
        invariant
            i <= ds.len(),
            child_names(ds@, fs@) == child_names_acc(
                crate::name::names_view(out@),
                ds@,
                fs@,
                i as int,
                0,
            ),
        decreases ds.len() - i,
    {
        let n = copy_name(&ds[i].name);
        proof {
            crate::scope::lemma_names_view_push(out@, n);
        }
        out.push(n);
        i = i + 1;
    }
    let mut j: usize = 0;
    while j < fs.len()
        invariant
            j <= fs.len(),
            child_names(ds@, fs@) == child_names_acc(
                crate::name::names_view(out@),
                ds@,
                fs@,
                ds@.len() as int,
                j as int,
            ),
        decreases fs.len() - j,
    {
        let n = copy_name(&fs[j]);
        proof {
            crate::scope::lemma_names_view_push(out@, n);
        }
        out.push(n);
        j = j + 1;
    }
    out
}

} // verus!

verus! {

/// Collects a level's completion names into `out`.
#[verifier::loop_isolation(false)]
fn collect_children_into(out: &mut Vec<Name>, ds: &Vec<FsDir>, fs: &Vec<Name>)
    ensures
        crate::name::names_view(final(out)@) == child_names_acc(
            crate::name::names_view(old(out)@),
            ds@,
            fs@,
            0,
            0,
        ),
{
    let mut i: usize = 0;
    while i < ds.len()
        invariant
            i <= ds.len(),
            child_names_acc(crate::name::names_view(old(out)@), ds@, fs@, 0, 0)
                == child_names_acc(crate::name::names_view(out@), ds@, fs@, i as int, 0),
        decreases ds.len() - i,
    {
        let n = copy_name(&ds[i].name);
        proof {
            crate::scope::lemma_names_view_push(out@, n);
        }
        out.push(n);
        i = i + 1;
    }
    let mut j: usize = 0;
    while j < fs.len()
        invariant
            j <= fs.len(),
            child_names_acc(crate::name::names_view(old(out)@), ds@, fs@, 0, 0)
                == child_names_acc(crate::name::names_view(out@), ds@, fs@, ds@.len() as int, j as int),
        decreases fs.len() - j,
    {
        let n = copy_name(&fs[j]);
        proof {
            crate::scope::lemma_names_view_push(out@, n);
        }
        out.push(n);
        j = j + 1;
    }
}

/// The completion names at the end of the path's directory segments,
/// starting below `d` at segment `i`: the last segment is the filter, each
/// one before it must name a subdirectory.
pub open spec fn descend_dir(d: FsDir, segs: Seq<Seq<u8>>, i: int) -> Seq<Seq<u8>>
    decreases segs.len() - i,
{
    if i < 0 || i + 1 >= segs.len() {
        child_names(d.dirs@, d.files@)
    } else {
        let k = dir_index(d.dirs@, segs[i], 0);
        if 0 <= k < d.dirs@.len() {
            descend_dir(d.dirs@[k], segs, i + 1)
        } else {
            Seq::empty()
        }
    }
}

/// Walks the path's directory segments below `d`; see `descend_dir`.
fn descend(d: &FsDir, segs: &Vec<Name>, i: usize) -> (r: Vec<Name>)
    requires
        1 <= segs@.len(),
        i <= segs@.len(),
    ensures
        crate::name::names_view(r@) == descend_dir(
            *d,
            crate::name::names_view(segs@),
            i as int,
        ),
    decreases segs@.len() - i,
{
    proof {
        crate::types::lemma_names_view_all(segs@);
    }
    if i >= segs.len() - 1 {
        collect_children(&d.dirs, &d.files)
    } else {
        match find_dir(&d.dirs, &segs[i]) {
            Some(k) => {
                proof {
                    assert(decreases_to!(d.dirs@ => d.dirs@[k as int]));
                }
                descend(&d.dirs[k], segs, i + 1)
            },
            None => Vec::new(),
        }
    }
}

/// The first root, walked in order, holding a child directory named `n`.
pub open spec fn find_root_child(roots: Seq<FsDir>, n: Seq<u8>, i: int) -> Option<FsDir>
    decreases roots.len() - i,
{
    if i < 0 || i >= roots.len() {
        None
    } else {
        let k = dir_index(roots[i].dirs@, n, 0);
        if 0 <= k < roots[i].dirs@.len() {
            Some(roots[i].dirs@[k])
        } else {
            find_root_child(roots, n, i + 1)
        }
    }
}

/// Finds the first root holding a child directory named like `n`.
fn find_root_child_x<'a>(roots: &'a Vec<FsDir>, n: &Name) -> (r: Option<&'a FsDir>)
    ensures
        match r {
            Some(d) => find_root_child(roots@, n@, 0) == Some(*d),
            None => find_root_child(roots@, n@, 0) is None,
        },
{
    let mut i: usize = 0;
    while i < roots.len()
        invariant
            i <= roots.len(),
            find_root_child(roots@, n@, 0) == find_root_child(roots@, n@, i as int),
        decreases roots.len() - i,
    {
        match find_dir(&roots[i].dirs, n) {
            Some(k) => {
                return Some(&roots[i].dirs[k]);
            },
            None => {},
        }
        i = i + 1;
    }
    None
}

/// All the roots' completion names, in root order.
pub open spec fn roots_names_acc(acc: Seq<Seq<u8>>, roots: Seq<FsDir>, i: int) -> Seq<Seq<u8>>
    decreases roots.len() - i,
{
    if i < 0 || i >= roots.len() {
        acc
    } else {
        roots_names_acc(
            child_names_acc(acc, roots[i].dirs@, roots[i].files@, 0, 0),
            roots,
            i + 1,
        )
    }
}

/// The completion names the typed path's segments resolve to: for a
/// single segment the roots' own children; otherwise the first segment
/// picks a child directory of some root, the following ones descend, the
/// last is the filter.
pub open spec fn resolve_names(roots: Seq<FsDir>, segs: Seq<Seq<u8>>) -> Seq<Seq<u8>> {
    if segs.len() <= 1 {
        roots_names_acc(Seq::empty(), roots, 0)
    } else {
        match find_root_child(roots, segs[0], 0) {
            Some(d) => descend_dir(d, segs, 1),
            None => Seq::empty(),
        }
    }
}

/// Module-path candidates from plain names.
pub open spec fn module_sugs(ns: Seq<Seq<u8>>) -> Seq<SugV> {
    Seq::new(ns.len(), |i: int| SugV { name: ns[i], payload: PayloadV::Module })
}

/// The sorted module-path candidates for a typed dotted prefix: the
/// resolved directory's children whose names begin with the last segment,
/// each tagged as a module segment, each name once, in byte-wise
/// lexicographic order. A trailing dot makes the last segment empty and
/// lists all children; a segment that resolves to nothing yields an empty
/// list.
pub open spec fn resolve_import_v(roots: Seq<FsDir>, typed: Seq<u8>) -> Seq<SugV> {
    let segs = split_dots(typed);
    process_v(module_sugs(resolve_names(roots, segs)), segs[segs.len() - 1])
}

/// Resolves a typed dotted module path against the roots; see
/// `resolve_import_v`.
#[verifier::loop_isolation(false)]
pub fn resolve_import(roots: &Vec<FsDir>, typed: &Name) -> (r: Vec<Suggestion>)
    ensures
        sugs_view(r@) == resolve_import_v(roots@, typed@),
{
    let segs = split_path(typed);
    proof {
        crate::types::lemma_names_view_all(segs@);
    }
    let names: Vec<Name> = if segs.len() == 1 {
        let mut out: Vec<Name> = Vec::new();
        proof {
            assert(crate::name::names_view(out@) =~= Seq::<Seq<u8>>::empty());
        }
        let mut i: usize = 0;
        while i < roots.len()
            invariant
                i <= roots.len(),
                roots_names_acc(Seq::empty(), roots@, 0) == roots_names_acc(
                    crate::name::names_view(out@),
                    roots@,
                    i as int,
                ),
            decreases roots.len() - i,
        {
            collect_children_into(&mut out, &roots[i].dirs, &roots[i].files);
            i = i + 1;
        }
        out
    } else {
        match find_root_child_x(roots, &segs[0]) {
            Some(d) => descend(d, &segs, 1),
            None => Vec::new(),
        }
    };
    proof {
        crate::types::lemma_names_view_all(names@);
    }
    let mut sugs: Vec<Suggestion> = Vec::new();
    let mut i: usize = 0;
    while i < names.len()
        invariant
            i <= names.len(),
            sugs@.len() == i,
            forall|j: int|
                0 <= j < i ==> sug_view(sugs@[j]) == (SugV {
                    name: names@[j]@,
                    payload: PayloadV::Module,
                }),
        decreases names.len() - i,
    {
        let s = Suggestion { name: copy_name(&names[i]), payload: Payload::Module };
        sugs.push(s);
        i = i + 1;
    }
    proof {
        crate::candidates::lemma_sugs_view_all(sugs@);
        assert(sugs_view(sugs@) =~= module_sugs(crate::name::names_view(names@)));
    }
    let last = copy_name(&segs[segs.len() - 1]);
    process(sugs, &last)
}

} // verus!
