//! Surface names as byte strings, with byte-wise lexicographic order.
//!
//! Candidate lists are sorted "by name using ordinary lexicographic
//! (byte-wise) order", so names are held as byte vectors and the order is
//! defined here once, together with the prefix test that completion uses.

use vstd::prelude::*;

verus! {

/// A surface name: the bytes of an identifier, field, constructor, type
/// name, module segment or doc comment as they stand in the source text.
pub type Name = Vec<u8>;

/// Strict byte-wise lexicographic order on byte strings.
pub open spec fn lex_lt(a: Seq<u8>, b: Seq<u8>) -> bool
    decreases a.len(),
{
    if b.len() == 0 {
        false
    } else if a.len() == 0 {
        true
    } else if a[0] < b[0] {
        true
    } else if a[0] > b[0] {
        false
    } else {
        lex_lt(a.subrange(1, a.len() as int), b.subrange(1, b.len() as int))
    }
}

/// Reflexive byte-wise lexicographic order.
pub open spec fn lex_le(a: Seq<u8>, b: Seq<u8>) -> bool {
    lex_lt(a, b) || a == b
}

/// `p` is an initial segment of `s`.
pub open spec fn is_prefix_of(p: Seq<u8>, s: Seq<u8>) -> bool {
    p.len() <= s.len() && s.subrange(0, p.len() as int) == p
}

/// Byte-for-byte copy of a name.
pub fn copy_name(a: &Name) -> (r: Name)
    ensures
        r@ == a@,
{
    let mut r: Name = Vec::new();
    let mut i: usize = 0;
    while i < a.len()
        invariant
            i <= a.len(),
            r@ == a@.subrange(0, i as int),
        decreases a.len() - i,
    {
        r.push(a[i]);
        assert(r@ =~= a@.subrange(0, i + 1 as int));
        i = i + 1;
    }
    assert(r@ =~= a@);
    r
}

/// Byte-wise equality of two names.
pub fn name_eq(a: &Name, b: &Name) -> (r: bool)
    ensures
        r == (a@ == b@),
{
    if a.len() != b.len() {
        assert(a@ != b@) by {
            assert(a@.len() != b@.len());
        }
        return false;
    }
    let mut i: usize = 0;
    while i < a.len()
        invariant
            i <= a.len(),
            a@.len() == b@.len(),
            forall|j: int| 0 <= j < i ==> a@[j] == b@[j],
        decreases a.len() - i,
    {
        if a[i] != b[i] {
            return false;
        }
        i = i + 1;
    }
    assert(a@ =~= b@);
    true
}

/// Whether `s` begins with the prefix `p`.
pub fn starts_with(s: &Name, p: &Name) -> (r: bool)
    ensures
        r == is_prefix_of(p@, s@),
{
    if p.len() > s.len() {
        return false;
    }
    let mut i: usize = 0;
    while i < p.len()
        invariant
            i <= p.len(),
            p@.len() <= s@.len(),
            forall|j: int| 0 <= j < i ==> s@[j] == p@[j],
        decreases p.len() - i,
    {
        if s[i] != p[i] {
            assert(s@.subrange(0, p@.len() as int)[i as int] != p@[i as int]);
            return false;
        }
        i = i + 1;
    }
    assert(s@.subrange(0, p@.len() as int) =~= p@);
    true
}

/// Strict byte-wise lexicographic comparison of two names.
pub fn name_lt(a: &Name, b: &Name) -> (r: bool)
    ensures
        r == lex_lt(a@, b@),
{
    let r = lt_from(a, b, 0);
    assert(a@.subrange(0, a@.len() as int) =~= a@);
    assert(b@.subrange(0, b@.len() as int) =~= b@);
    r
}

/// Compares the suffixes of `a` and `b` that start at `i`.
fn lt_from(a: &Name, b: &Name, i: usize) -> (r: bool)
    requires
        i <= a.len(),
        i <= b.len(),
    ensures
        r == lex_lt(a@.subrange(i as int, a@.len() as int), b@.subrange(i as int, b@.len() as int)),
    decreases a.len() - i,
{
    let ghost sa = a@.subrange(i as int, a@.len() as int);
    let ghost sb = b@.subrange(i as int, b@.len() as int);
    if i == b.len() {
        assert(sb.len() == 0);
        false
    } else if i == a.len() {
        assert(sa.len() == 0 && sb.len() > 0);
        true
    } else if a[i] < b[i] {
        assert(sa[0] < sb[0]);
        true
    } else if a[i] > b[i] {
        assert(sa[0] > sb[0]);
        false
    } else {
        let r = lt_from(a, b, i + 1);
        assert(sa.subrange(1, sa.len() as int) =~= a@.subrange(i + 1 as int, a@.len() as int));
        assert(sb.subrange(1, sb.len() as int) =~= b@.subrange(i + 1 as int, b@.len() as int));
        assert(sa[0] == sb[0]);
        r
    }
}

/// The lexicographic order is total: of two distinct names one is strictly
/// below the other.
pub proof fn lemma_lex_total(a: Seq<u8>, b: Seq<u8>)
    ensures
        lex_lt(a, b) || lex_lt(b, a) || a == b,
    decreases a.len(),
{
    if b.len() == 0 {
        if a.len() == 0 {
            assert(a =~= b);
        }
    } else if a.len() == 0 {
    } else if a[0] == b[0] {
        let ta = a.subrange(1, a.len() as int);
        let tb = b.subrange(1, b.len() as int);
        lemma_lex_total(ta, tb);
        if ta == tb {
            assert forall|j: int| 0 <= j < a.len() implies a[j] == b[j] by {
                if j >= 1 {
                    assert(a[j] == ta[j - 1]);
                    assert(b[j] == tb[j - 1]);
                }
            }
            assert(a =~= b);
        }
    }
}

/// View of a sequence of names.
pub open spec fn names_view(s: Seq<Name>) -> Seq<Seq<u8>>
    decreases s.len(),
{
    if s.len() == 0 {
        Seq::empty()
    } else {
        seq![s[0]@] + names_view(s.subrange(1, s.len() as int))
    }
}

/// The view of a name sequence is pointwise.
pub proof fn lemma_names_view_index(s: Seq<Name>, i: int)
    ensures
        names_view(s).len() == s.len(),
        0 <= i < s.len() ==> names_view(s)[i] == s[i]@,
    decreases s.len(),
{
    if s.len() > 0 {
        lemma_names_view_index(s.subrange(1, s.len() as int), i - 1);
    }
}

/// Two name sequences with pointwise equal views have equal views.
pub proof fn lemma_names_view_pointwise(a: Seq<Name>, b: Seq<Name>)
    requires
        a.len() == b.len(),
        forall|j: int| 0 <= j < a.len() ==> a[j]@ == b[j]@,
    ensures
        names_view(a) == names_view(b),
    decreases a.len(),
{
    if a.len() > 0 {
        let ta = a.subrange(1, a.len() as int);
        let tb = b.subrange(1, b.len() as int);
        assert(forall|j: int| 0 <= j < ta.len() ==> ta[j]@ == tb[j]@);
        lemma_names_view_pointwise(ta, tb);
    }
}

/// Copies a sequence of names.
pub fn copy_names(v: &Vec<Name>) -> (r: Vec<Name>)
    ensures
        names_view(r@) == names_view(v@),
{
    let mut out: Vec<Name> = Vec::new();
    let mut i: usize = 0;
    while i < v.len()
        invariant
            i <= v.len(),
            out@.len() == i,
            forall|j: int| 0 <= j < i ==> out@[j]@ == v@[j]@,
        decreases v.len() - i,
    {
        let c = copy_name(&v[i]);
        out.push(c);
        i = i + 1;
    }
    proof {
        lemma_names_view_pointwise(out@, v@);
    }
    out
}


/// The strict lexicographic order is transitive.
pub proof fn lemma_lex_lt_trans(a: Seq<u8>, b: Seq<u8>, c: Seq<u8>)
    requires
        lex_lt(a, b),
        lex_lt(b, c),
    ensures
        lex_lt(a, c),
    decreases a.len(),
{
    if a.len() == 0 {
    } else {
        if a[0] == b[0] && b[0] == c[0] {
            lemma_lex_lt_trans(
                a.subrange(1, a.len() as int),
                b.subrange(1, b.len() as int),
                c.subrange(1, c.len() as int),
            );
        }
    }
}

} // verus!


