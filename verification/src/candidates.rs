//! Completion candidates and the list pipeline every suggestion query
//! runs: filter by the typed prefix, deduplicate by name keeping the
//! innermost (first) candidate, and sort by byte-wise lexicographic order.

use vstd::prelude::*;

use crate::ast::{clone_ty, ty_view, Ty, TyV};
use crate::name::{
    copy_name, is_prefix_of, lex_lt, lemma_lex_total, name_eq, name_lt, starts_with, Name,
};

verus! {

/// What a candidate stands for: a value, field or constructor with its
/// concrete type, or a type name or module-path segment, which carry no
/// value type and must never be confused with one.
#[derive(PartialEq, Eq, Debug)]
pub enum Payload {
    /// A value, record field or constructor candidate with its type.
    Value(Ty),
    /// A type-name candidate.
    TypeName,
    /// A module-path-segment candidate.
    Module,
}

/// A named completion candidate.
#[derive(PartialEq, Eq, Debug)]
pub struct Suggestion {
    pub name: Name,
    pub payload: Payload,
}

/// Ghost view of a payload.
pub enum PayloadV {
    Value(TyV),
    TypeName,
    Module,
}

/// Ghost view of a candidate.
pub struct SugV {
    pub name: Seq<u8>,
    pub payload: PayloadV,
}

/// View of a payload.
pub open spec fn payload_view(p: Payload) -> PayloadV {
    match p {
        Payload::Value(t) => PayloadV::Value(ty_view(t)),
        Payload::TypeName => PayloadV::TypeName,
        Payload::Module => PayloadV::Module,
    }
}

/// View of a candidate.
pub open spec fn sug_view(s: Suggestion) -> SugV {
    SugV { name: s.name@, payload: payload_view(s.payload) }
}

/// View of a candidate list.
pub open spec fn sugs_view(s: Seq<Suggestion>) -> Seq<SugV>
    decreases s.len(),
{
    if s.len() == 0 {
        Seq::empty()
    } else {
        seq![sug_view(s[0])] + sugs_view(s.subrange(1, s.len() as int))
    }
}

/// The view of a candidate list is pointwise.
pub proof fn lemma_sugs_view_index(s: Seq<Suggestion>, i: int)
    ensures
        sugs_view(s).len() == s.len(),
        0 <= i < s.len() ==> sugs_view(s)[i] == sug_view(s[i]),
    decreases s.len(),
{
    if s.len() > 0 {
        lemma_sugs_view_index(s.subrange(1, s.len() as int), i - 1);
    }
}

/// Makes the pointwise view of a whole candidate list available.
pub proof fn lemma_sugs_view_all(s: Seq<Suggestion>)
    ensures
        sugs_view(s).len() == s.len(),
        forall|j: int| 0 <= j < s.len() ==> sugs_view(s)[j] == sug_view(s[j]),
{
    assert forall|j: int| 0 <= j < s.len() implies sugs_view(s)[j] == sug_view(s[j]) by {
        lemma_sugs_view_index(s, j);
    }
    lemma_sugs_view_index(s, 0);
}

/// Copies a candidate.
pub fn clone_suggestion(s: &Suggestion) -> (r: Suggestion)
    ensures
        sug_view(r) == sug_view(*s),
{
    let payload = match &s.payload {
        Payload::Value(t) => Payload::Value(clone_ty(t)),
        Payload::TypeName => Payload::TypeName,
        Payload::Module => Payload::Module,
    };
    Suggestion { name: copy_name(&s.name), payload }
}

/// Candidates whose names begin with the typed prefix, in order. An empty
/// prefix keeps everything.
pub open spec fn filter_pref_v(s: Seq<SugV>, p: Seq<u8>) -> Seq<SugV>
    decreases s.len(),
{
    if s.len() == 0 {
        Seq::empty()
    } else {
        let rest = filter_pref_v(s.subrange(1, s.len() as int), p);
        if is_prefix_of(p, s[0].name) {
            seq![s[0]] + rest
        } else {
            rest
        }
    }
}

/// The set of names in a list of names.
pub open spec fn names_as_set(s: Seq<Seq<u8>>) -> Set<Seq<u8>>
    decreases s.len(),
{
    if s.len() == 0 {
        Set::empty()
    } else {
        names_as_set(s.subrange(1, s.len() as int)).insert(s[0])
    }
}

/// Set membership in `names_as_set` is sequence membership.
pub proof fn lemma_names_as_set_mem(s: Seq<Seq<u8>>, n: Seq<u8>)
    ensures
        names_as_set(s).contains(n) <==> exists|i: int| 0 <= i < s.len() && s[i] == n,
    decreases s.len(),
{
    if s.len() > 0 {
        let t = s.subrange(1, s.len() as int);
        lemma_names_as_set_mem(t, n);
        if names_as_set(s).contains(n) {
            if s[0] == n {
                assert(s[0] == n && 0 < s.len());
            } else {
                let i = choose|i: int| 0 <= i < t.len() && t[i] == n;
                assert(s[i + 1] == n);
            }
        }
        if exists|i: int| 0 <= i < s.len() && s[i] == n {
            let i = choose|i: int| 0 <= i < s.len() && s[i] == n;
            if i > 0 {
                assert(t[i - 1] == n);
            }
        }
    }
}

/// Keeps the first candidate of each name, dropping later ones; `seen` is
/// the set of names already kept.
pub open spec fn dedup_v(s: Seq<SugV>, seen: Set<Seq<u8>>) -> Seq<SugV>
    decreases s.len(),
{
    if s.len() == 0 {
        Seq::empty()
    } else if seen.contains(s[0].name) {
        dedup_v(s.subrange(1, s.len() as int), seen)
    } else {
        seq![s[0]] + dedup_v(s.subrange(1, s.len() as int), seen.insert(s[0].name))
    }
}

/// Inserts a candidate before the first entry whose name is not below it.
pub open spec fn insert_sorted_v(x: SugV, s: Seq<SugV>) -> Seq<SugV>
    decreases s.len(),
{
    if s.len() == 0 {
        seq![x]
    } else if lex_lt(x.name, s[0].name) {
        seq![x] + s
    } else {
        seq![s[0]] + insert_sorted_v(x, s.subrange(1, s.len() as int))
    }
}

/// Insertion sort by name, byte-wise lexicographic.
pub open spec fn sort_v(s: Seq<SugV>) -> Seq<SugV>
    decreases s.len(),
{
    if s.len() == 0 {
        Seq::empty()
    } else {
        insert_sorted_v(s[0], sort_v(s.subrange(1, s.len() as int)))
    }
}

/// The whole pipeline: keep candidates matching the prefix, keep the first
/// of each name, sort by name.
pub open spec fn process_v(s: Seq<SugV>, p: Seq<u8>) -> Seq<SugV> {
    sort_v(dedup_v(filter_pref_v(s, p), Set::empty()))
}

/// The view of a list starting with `x` is the view of `x` followed by
/// the view of the rest.
pub proof fn lemma_sugs_view_cons(x: Suggestion, t: Seq<Suggestion>)
    ensures
        sugs_view(seq![x] + t) == seq![sug_view(x)] + sugs_view(t),
{
    let s = seq![x] + t;
    assert(s.subrange(1, s.len() as int) =~= t);
    assert(sugs_view(s) =~= seq![sug_view(x)] + sugs_view(t));
}

/// The view of a one-candidate list.
pub proof fn lemma_sugs_view_singleton(x: Suggestion)
    ensures
        sugs_view(seq![x]) == seq![sug_view(x)],
{
    let e = Seq::<Suggestion>::empty();
    assert(sugs_view(e) == Seq::<SugV>::empty());
    assert(seq![x].subrange(1, 1) =~= e);
    assert(sugs_view(seq![x]) =~= seq![sug_view(x)]);
}

/// Keeps the candidates whose names begin with `p`.
fn filter_pref(v: Vec<Suggestion>, p: &Name) -> (r: Vec<Suggestion>)
    ensures
        sugs_view(r@) == filter_pref_v(sugs_view(v@), p@),
    decreases v@.len(),
{
    let mut v = v;
    if v.len() == 0 {
        return v;
    }
    let ghost orig = v@;
    let first = v.remove(0);
    proof {
        assert(orig =~= seq![first] + v@);
        lemma_sugs_view_cons(first, v@);
        let sv = sugs_view(orig);
        assert(sv.subrange(1, sv.len() as int) =~= sugs_view(v@));
        assert(sv[0] == sug_view(first));
    }
    let keep = starts_with(&first.name, p);
    let mut rest = filter_pref(v, p);
    if keep {
        let mut out: Vec<Suggestion> = Vec::new();
        out.push(first);
        let ghost fv = out@[0];
        let ghost rv = rest@;
        out.append(&mut rest);
        proof {
            assert(out@ =~= seq![fv] + rv);
            lemma_sugs_view_cons(fv, rv);
        }
        out
    } else {
        rest
    }
}

/// Whether `n` is among the names in `seen`.
#[verifier::loop_isolation(false)]
pub fn contains_name(seen: &Vec<Name>, n: &Name) -> (r: bool)
    ensures
        r == names_as_set(crate::name::names_view(seen@)).contains(n@),
{
    proof {
        crate::types::lemma_names_view_all(seen@);
        lemma_names_as_set_mem(crate::name::names_view(seen@), n@);
    }
    let mut i: usize = 0;
    while i < seen.len()
        invariant
            i <= seen.len(),
            forall|j: int| 0 <= j < i ==> seen@[j]@ != n@,
        decreases seen.len() - i,
    {
        if name_eq(&seen[i], n) {
            proof {
                crate::types::lemma_names_view_all(seen@);
                assert(crate::name::names_view(seen@)[i as int] == n@);
                let nv = crate::name::names_view(seen@);
                assert(exists|j: int| 0 <= j < nv.len() && nv[j] == n@) by {
                    assert(0 <= (i as int) && (i as int) < nv.len() && nv[i as int] == n@);
                }
            }
            return true;
        }
        i = i + 1;
    }
    proof {
        crate::types::lemma_names_view_all(seen@);
        assert(forall|j: int|
            0 <= j < seen@.len() ==> crate::name::names_view(seen@)[j] != n@);
    }
    false
}

/// Keeps the first candidate of each name.
#[verifier::loop_isolation(false)]
fn dedup(v: Vec<Suggestion>, seen: Vec<Name>) -> (r: Vec<Suggestion>)
    ensures
        sugs_view(r@) == dedup_v(
            sugs_view(v@),
            names_as_set(crate::name::names_view(seen@)),
        ),
    decreases v@.len(),
{
    let mut v = v;
    let mut seen = seen;
    if v.len() == 0 {
        return v;
    }
    let ghost orig = v@;
    let ghost seen_set = names_as_set(crate::name::names_view(seen@));
    let first = v.remove(0);
    proof {
        assert(orig =~= seq![first] + v@);
        lemma_sugs_view_cons(first, v@);
        let sv = sugs_view(orig);
        assert(sv.subrange(1, sv.len() as int) =~= sugs_view(v@));
        assert(sv[0] == sug_view(first));
    }
    if contains_name(&seen, &first.name) {
        dedup(v, seen)
    } else {
        let ghost seen_orig = seen@;
        seen.push(copy_name(&first.name));
        proof {
            assert(crate::name::names_view(seen@) =~= crate::name::names_view(seen_orig).push(
                first.name@,
            )) by {
                crate::types::lemma_names_view_all(seen@);
                crate::types::lemma_names_view_all(seen_orig);
            }
            lemma_names_as_set_push(crate::name::names_view(seen_orig), first.name@);
        }
        let mut rest = dedup(v, seen);
        let mut out: Vec<Suggestion> = Vec::new();
        out.push(first);
        let ghost fv = out@[0];
        let ghost rv = rest@;
        out.append(&mut rest);
        proof {
            assert(out@ =~= seq![fv] + rv);
            lemma_sugs_view_cons(fv, rv);
        }
        out
    }
}

/// Appending a name to a list inserts it into the name set.
pub proof fn lemma_names_as_set_push(s: Seq<Seq<u8>>, n: Seq<u8>)
    ensures
        names_as_set(s.push(n)) == names_as_set(s).insert(n),
{
    let a = s.push(n);
    assert forall|m: Seq<u8>| names_as_set(a).contains(m) <==> names_as_set(s).insert(n).contains(
        m,
    ) by {
        lemma_names_as_set_mem(a, m);
        lemma_names_as_set_mem(s, m);
        if m == n {
            assert(a[a.len() - 1] == n);
        }
        if names_as_set(s).contains(m) {
            let i = choose|i: int| 0 <= i < s.len() && s[i] == m;
            assert(a[i] == m);
        }
        if names_as_set(a).contains(m) && m != n {
            let i = choose|i: int| 0 <= i < a.len() && a[i] == m;
            assert(s[i] == m);
        }
    }
    assert(names_as_set(a) =~= names_as_set(s).insert(n));
}

/// Inserts a candidate into a sorted list, before the first entry whose
/// name is not below it.
fn insert_sorted(x: Suggestion, v: Vec<Suggestion>) -> (r: Vec<Suggestion>)
    ensures
        sugs_view(r@) == insert_sorted_v(sug_view(x), sugs_view(v@)),
    decreases v@.len(),
{
    let mut v = v;
    if v.len() == 0 {
        let mut out: Vec<Suggestion> = Vec::new();
        out.push(x);
        proof {
            assert(out@ =~= seq![out@[0]]);
            lemma_sugs_view_singleton(out@[0]);
        }
        return out;
    }
    let ghost orig = v@;
    proof {
        lemma_sugs_view_all(orig);
    }
    if name_lt(&x.name, &v[0].name) {
        let mut out: Vec<Suggestion> = Vec::new();
        out.push(x);
        let ghost fv = out@[0];
        out.append(&mut v);
        proof {
            assert(out@ =~= seq![fv] + orig);
            lemma_sugs_view_cons(fv, orig);
        }
        out
    } else {
        let first = v.remove(0);
        proof {
            assert(orig =~= seq![first] + v@);
            lemma_sugs_view_cons(first, v@);
            let sv = sugs_view(orig);
            assert(sv.subrange(1, sv.len() as int) =~= sugs_view(v@));
            assert(sv[0] == sug_view(first));
        }
        let mut rest = insert_sorted(x, v);
        let mut out: Vec<Suggestion> = Vec::new();
        out.push(first);
        let ghost fv = out@[0];
        let ghost rv = rest@;
        out.append(&mut rest);
        proof {
            assert(out@ =~= seq![fv] + rv);
            lemma_sugs_view_cons(fv, rv);
        }
        out
    }
}

/// Insertion sort by name, byte-wise lexicographic.
fn sort(v: Vec<Suggestion>) -> (r: Vec<Suggestion>)
    ensures
        sugs_view(r@) == sort_v(sugs_view(v@)),
    decreases v@.len(),
{
    let mut v = v;
    if v.len() == 0 {
        return v;
    }
    let ghost orig = v@;
    let first = v.remove(0);
    proof {
        assert(orig =~= seq![first] + v@);
        lemma_sugs_view_cons(first, v@);
        let sv = sugs_view(orig);
        assert(sv.subrange(1, sv.len() as int) =~= sugs_view(v@));
        assert(sv[0] == sug_view(first));
    }
    let rest = sort(v);
    insert_sorted(first, rest)
}

/// Runs the pipeline: filter by the typed prefix, keep the first candidate
/// of each name, sort by name.
pub fn process(v: Vec<Suggestion>, p: &Name) -> (r: Vec<Suggestion>)
    ensures
        sugs_view(r@) == process_v(sugs_view(v@), p@),
{
    let filtered = filter_pref(v, p);
    let deduped = dedup(filtered, Vec::new());
    proof {
        assert(crate::name::names_view(Seq::<Name>::empty()) =~= Seq::<Seq<u8>>::empty());
        assert(names_as_set(Seq::<Seq<u8>>::empty()) =~= Set::<Seq<u8>>::empty());
    }
    sort(deduped)
}

} // verus!

verus! {

/// The set of names carried by a candidate list.
pub open spec fn sug_names(s: Seq<SugV>) -> Set<Seq<u8>>
    decreases s.len(),
{
    if s.len() == 0 {
        Set::empty()
    } else {
        sug_names(s.subrange(1, s.len() as int)).insert(s[0].name)
    }
}

/// A candidate list in strictly ascending name order: sorted, and no name
/// appears twice.
pub open spec fn strictly_sorted(s: Seq<SugV>) -> bool {
    forall|i: int, j: int| 0 <= i < j < s.len() ==> lex_lt(s[i].name, s[j].name)
}

/// Membership in `sug_names` is having an element with that name.
pub proof fn lemma_sug_names_mem(s: Seq<SugV>, n: Seq<u8>)
    ensures
        sug_names(s).contains(n) <==> exists|i: int| 0 <= i < s.len() && s[i].name == n,
    decreases s.len(),
{
    if s.len() > 0 {
        let t = s.subrange(1, s.len() as int);
        lemma_sug_names_mem(t, n);
        if sug_names(s).contains(n) && s[0].name != n {
            let i = choose|i: int| 0 <= i < t.len() && t[i].name == n;
            assert(s[i + 1].name == n);
        }
        if exists|i: int| 0 <= i < s.len() && s[i].name == n {
            let i = choose|i: int| 0 <= i < s.len() && s[i].name == n;
            if i > 0 {
                assert(t[i - 1].name == n);
            }
        }
    }
}

/// What filtering keeps: exactly the candidates of the input whose names
/// begin with the prefix.
pub proof fn lemma_filter_mem(s: Seq<SugV>, p: Seq<u8>, y: SugV)
    ensures
        filter_pref_v(s, p).contains(y) <==> (s.contains(y) && is_prefix_of(p, y.name)),
    decreases s.len(),
{
    if s.len() > 0 {
        let t = s.subrange(1, s.len() as int);
        lemma_filter_mem(t, p, y);
        let f = filter_pref_v(s, p);
        let ft = filter_pref_v(t, p);
        if s.contains(y) && is_prefix_of(p, y.name) {
            let i = choose|i: int| 0 <= i < s.len() && s[i] == y;
            if i > 0 {
                assert(t[i - 1] == y);
            }
            if y == s[0] {
                assert(f[0] == y);
            } else {
                assert(ft.contains(y));
                if is_prefix_of(p, s[0].name) {
                    let k = choose|k: int| 0 <= k < ft.len() && ft[k] == y;
                    assert(f[k + 1] == y);
                }
            }
        }
        if f.contains(y) {
            let i = choose|i: int| 0 <= i < f.len() && f[i] == y;
            if is_prefix_of(p, s[0].name) {
                if i == 0 {
                    assert(y == s[0]);
                } else {
                    assert(ft[i - 1] == y);
                    let k = choose|k: int| 0 <= k < t.len() && t[k] == y;
                    assert(s[k + 1] == y);
                }
            } else {
                assert(ft[i] == y);
                let k = choose|k: int| 0 <= k < t.len() && t[k] == y;
                assert(s[k + 1] == y);
            }
        }
    }
}

/// What deduplication keeps: only candidates of the input whose names were
/// not already seen; the names kept are exactly the input's names less the
/// seen ones; and the result's names are pairwise distinct.
pub proof fn lemma_dedup_props(s: Seq<SugV>, seen: Set<Seq<u8>>)
    ensures
        forall|y: SugV| #[trigger]
            dedup_v(s, seen).contains(y) ==> s.contains(y) && !seen.contains(y.name),
        sug_names(dedup_v(s, seen)) == sug_names(s).difference(seen),
        forall|i: int, j: int|
            0 <= i < j < dedup_v(s, seen).len() ==> dedup_v(s, seen)[i].name != dedup_v(
                s,
                seen,
            )[j].name,
    decreases s.len(),
{
    let d = dedup_v(s, seen);
    if s.len() == 0 {
        assert(sug_names(d) =~= sug_names(s).difference(seen));
    } else {
        let t = s.subrange(1, s.len() as int);
        if seen.contains(s[0].name) {
            lemma_dedup_props(t, seen);
            assert forall|y: SugV| #[trigger] d.contains(y) implies s.contains(y) && !seen.contains(
                y.name,
            ) by {
                assert(t.contains(y));
                let k = choose|k: int| 0 <= k < t.len() && t[k] == y;
                assert(s[k + 1] == y);
            }
            assert(sug_names(d) =~= sug_names(s).difference(seen));
        } else {
            lemma_dedup_props(t, seen.insert(s[0].name));
            let dt = dedup_v(t, seen.insert(s[0].name));
            assert(d == seq![s[0]] + dt);
            assert forall|y: SugV| #[trigger] d.contains(y) implies s.contains(y) && !seen.contains(
                y.name,
            ) by {
                let i = choose|i: int| 0 <= i < d.len() && d[i] == y;
                if i == 0 {
                    assert(s[0] == y);
                } else {
                    assert(dt[i - 1] == y);
                    assert(dt.contains(y));
                    let k = choose|k: int| 0 <= k < t.len() && t[k] == y;
                    assert(s[k + 1] == y);
                }
            }
            assert(d.subrange(1, d.len() as int) =~= dt);
            assert(sug_names(d) == sug_names(dt).insert(s[0].name));
            assert(sug_names(d) =~= sug_names(s).difference(seen));
            assert forall|i: int, j: int| 0 <= i < j < d.len() implies d[i].name != d[j].name by {
                if i == 0 {
                    assert(d[j] == dt[j - 1]);
                    assert(dt.contains(dt[j - 1])) by {
                        assert(0 <= j - 1 < dt.len());
                    }
                    assert(!seen.insert(s[0].name).contains(dt[j - 1].name));
                } else {
                    assert(d[i] == dt[i - 1] && d[j] == dt[j - 1]);
                }
            }
        }
    }
}

/// What sorted insertion does to membership, length, names and order.
pub proof fn lemma_insert_sorted_props(x: SugV, s: Seq<SugV>)
    ensures
        insert_sorted_v(x, s).len() == s.len() + 1,
        forall|y: SugV| #[trigger]
            insert_sorted_v(x, s).contains(y) <==> (y == x || s.contains(y)),
        strictly_sorted(s) && !sug_names(s).contains(x.name) ==> strictly_sorted(
            insert_sorted_v(x, s),
        ),
    decreases s.len(),
{
    let r = insert_sorted_v(x, s);
    if s.len() == 0 {
        assert forall|y: SugV| #[trigger] r.contains(y) implies (y == x || s.contains(y)) by {}
        assert(r.contains(x)) by {
            assert(r[0] == x);
        }
    } else if lex_lt(x.name, s[0].name) {
        assert(r == seq![x] + s);
        assert forall|y: SugV| #[trigger] r.contains(y) implies (y == x || s.contains(y)) by {
            let i = choose|i: int| 0 <= i < r.len() && r[i] == y;
            if i > 0 {
                assert(s[i - 1] == y);
            }
        }
        assert(r[0] == x);
        assert forall|y: SugV| (y == x || s.contains(y)) implies #[trigger] r.contains(y) by {
            if y == x {
                assert(r[0] == y);
            } else {
                let i = choose|i: int| 0 <= i < s.len() && s[i] == y;
                assert(r[i + 1] == y);
            }
        }
        if strictly_sorted(s) && !sug_names(s).contains(x.name) {
            assert forall|i: int, j: int| 0 <= i < j < r.len() implies lex_lt(
                r[i].name,
                r[j].name,
            ) by {
                if i == 0 {
                    if j > 1 {
                        crate::name::lemma_lex_lt_trans(x.name, s[0].name, s[j - 1].name);
                    }
                } else {
                    assert(r[i] == s[i - 1] && r[j] == s[j - 1]);
                }
            }
        }
    } else {
        let t = s.subrange(1, s.len() as int);
        lemma_insert_sorted_props(x, t);
        let rt = insert_sorted_v(x, t);
        assert(r == seq![s[0]] + rt);
        assert forall|y: SugV| #[trigger] r.contains(y) implies (y == x || s.contains(y)) by {
            let i = choose|i: int| 0 <= i < r.len() && r[i] == y;
            if i == 0 {
                assert(s[0] == y);
            } else {
                assert(rt[i - 1] == y);
                assert(rt.contains(y));
                if y != x {
                    let k = choose|k: int| 0 <= k < t.len() && t[k] == y;
                    assert(s[k + 1] == y);
                }
            }
        }
        assert forall|y: SugV| (y == x || s.contains(y)) implies #[trigger] r.contains(y) by {
            if y == x {
                assert(rt.contains(x));
                let k = choose|k: int| 0 <= k < rt.len() && rt[k] == x;
                assert(r[k + 1] == x);
            } else {
                let i = choose|i: int| 0 <= i < s.len() && s[i] == y;
                if i == 0 {
                    assert(r[0] == y);
                } else {
                    assert(t[i - 1] == y);
                    assert(rt.contains(y));
                    let k = choose|k: int| 0 <= k < rt.len() && rt[k] == y;
                    assert(r[k + 1] == y);
                }
            }
        }
        if strictly_sorted(s) && !sug_names(s).contains(x.name) {
            assert(strictly_sorted(t)) by {
                assert(forall|i: int, j: int|
                    0 <= i < j < t.len() ==> t[i] == s[i + 1] && t[j] == s[j + 1]);
            }
            assert(!sug_names(t).contains(x.name)) by {
                lemma_sug_names_mem(t, x.name);
                lemma_sug_names_mem(s, x.name);
                if exists|i: int| 0 <= i < t.len() && t[i].name == x.name {
                    let i = choose|i: int| 0 <= i < t.len() && t[i].name == x.name;
                    assert(s[i + 1].name == x.name);
                }
            }
            assert(strictly_sorted(rt));
            // the head stays strictly below everything inserted after it
            assert(lex_lt(s[0].name, x.name)) by {
                lemma_lex_total(x.name, s[0].name);
                lemma_sug_names_mem(s, x.name);
                if x.name == s[0].name {
                    assert(s[0].name == x.name && 0 < s.len());
                }
            }
            assert forall|i: int, j: int| 0 <= i < j < r.len() implies lex_lt(
                r[i].name,
                r[j].name,
            ) by {
                if i == 0 {
                    assert(r[j] == rt[j - 1]);
                    assert(rt.contains(rt[j - 1])) by {
                        assert(0 <= j - 1 < rt.len());
                    }
                    if rt[j - 1] == x {
                    } else {
                        assert(t.contains(rt[j - 1]));
                        let k = choose|k: int| 0 <= k < t.len() && t[k] == rt[j - 1];
                        assert(s[k + 1] == rt[j - 1]);
                        assert(lex_lt(s[0].name, s[k + 1].name));
                    }
                } else {
                    assert(r[i] == rt[i - 1] && r[j] == rt[j - 1]);
                }
            }
        }
    }
}

/// What sorting does: the same candidates, in strictly ascending name
/// order whenever the input's names are pairwise distinct.
pub proof fn lemma_sort_props(s: Seq<SugV>)
    ensures
        sort_v(s).len() == s.len(),
        forall|y: SugV| #[trigger] sort_v(s).contains(y) <==> s.contains(y),
        (forall|i: int, j: int| 0 <= i < j < s.len() ==> s[i].name != s[j].name)
            ==> strictly_sorted(sort_v(s)),
    decreases s.len(),
{
    let r = sort_v(s);
    if s.len() > 0 {
        let t = s.subrange(1, s.len() as int);
        lemma_sort_props(t);
        let st = sort_v(t);
        lemma_insert_sorted_props(s[0], st);
        assert forall|y: SugV| #[trigger] r.contains(y) implies s.contains(y) by {
            if y == s[0] {
                assert(s.contains(y)) by {
                    assert(s[0] == y);
                }
            } else {
                assert(st.contains(y));
                assert(t.contains(y));
                let k = choose|k: int| 0 <= k < t.len() && t[k] == y;
                assert(s[k + 1] == y);
            }
        }
        assert forall|y: SugV| s.contains(y) implies #[trigger] r.contains(y) by {
            let i = choose|i: int| 0 <= i < s.len() && s[i] == y;
            if i > 0 {
                assert(t[i - 1] == y);
                assert(st.contains(y));
            }
        }
        if forall|i: int, j: int| 0 <= i < j < s.len() ==> s[i].name != s[j].name {
            assert(forall|i: int, j: int|
                0 <= i < j < t.len() ==> t[i] == s[i + 1] && t[j] == s[j + 1]);
            assert(strictly_sorted(st));
            assert(!sug_names(st).contains(s[0].name)) by {
                lemma_sug_names_mem(st, s[0].name);
                if exists|i: int| 0 <= i < st.len() && st[i].name == s[0].name {
                    let i = choose|i: int| 0 <= i < st.len() && st[i].name == s[0].name;
                    assert(st.contains(st[i]));
                    assert(t.contains(st[i]));
                    let k = choose|k: int| 0 <= k < t.len() && t[k] == st[i];
                    assert(s[k + 1].name == s[0].name);
                }
            }
        }
    }
}

/// What the pipeline returns: only input candidates matching the prefix,
/// in strictly ascending byte-wise name order, and with exactly the names
/// of the prefix-matching input candidates, each once.
pub proof fn lemma_process_props(s: Seq<SugV>, p: Seq<u8>)
    ensures
        strictly_sorted(process_v(s, p)),
        forall|y: SugV| #[trigger]
            process_v(s, p).contains(y) ==> s.contains(y) && is_prefix_of(p, y.name),
        sug_names(process_v(s, p)) == sug_names(filter_pref_v(s, p)),
{
    let f = filter_pref_v(s, p);
    let d = dedup_v(f, Set::empty());
    let r = process_v(s, p);
    lemma_dedup_props(f, Set::empty());
    lemma_sort_props(d);
    assert forall|y: SugV| #[trigger] r.contains(y) implies s.contains(y) && is_prefix_of(
        p,
        y.name,
    ) by {
        assert(d.contains(y));
        lemma_filter_mem(s, p, y);
    }
    assert(strictly_sorted(r));
    assert forall|n: Seq<u8>| sug_names(r).contains(n) <==> sug_names(f).contains(n) by {
        lemma_sug_names_mem(r, n);
        lemma_sug_names_mem(f, n);
        lemma_sug_names_mem(d, n);
        if sug_names(r).contains(n) {
            let i = choose|i: int| 0 <= i < r.len() && r[i].name == n;
            assert(r.contains(r[i]));
            assert(d.contains(r[i]));
            let k = choose|k: int| 0 <= k < d.len() && d[k] == r[i];
        }
        if sug_names(f).contains(n) {
            assert(sug_names(d).contains(n)) by {
                assert(sug_names(d) == sug_names(f).difference(Set::<Seq<u8>>::empty()));
            }
            let m = choose|m: int| 0 <= m < d.len() && d[m].name == n;
            assert(d.contains(d[m]));
            assert(r.contains(d[m]));
            let q = choose|q: int| 0 <= q < r.len() && r[q] == d[m];
        }
    }
    assert(sug_names(r) =~= sug_names(f));
}

} // verus!
