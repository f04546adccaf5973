//! Scope entries and the classified syntactic context of a position.
//!
//! Walking from the root to the queried position accumulates two
//! namespaces that must never be conflated: value bindings (identifiers,
//! pattern names, constructors) and type-level names (declared types and
//! type variables). The walk ends in a `Ctx`: the namespaces as collected,
//! and what kind of syntactic slot the position stands in, which decides
//! the candidate pool.

use vstd::prelude::*;

use crate::ast::{clone_ty, ty_view, Ident, Span, Ty, TyV};
use crate::name::{copy_name, names_view, Name};
use crate::types::{
    type_entries_view, type_entry_view, TypeEntry, TypeEntryV,
};

verus! {

/// A value-namespace scope entry: a visible binding with its type, where
/// it was introduced, and whether it is a constructor.
pub struct Entry {
    pub name: Name,
    pub id: u64,
    pub ty: Ty,
    pub origin: Span,
    pub ctor: bool,
}

/// Ghost view of a value-namespace entry.
pub struct EntryV {
    pub name: Seq<u8>,
    pub id: u64,
    pub ty: TyV,
    pub origin: Span,
    pub ctor: bool,
}

/// View of a value-namespace entry.
pub open spec fn entry_view(e: Entry) -> EntryV {
    EntryV { name: e.name@, id: e.id, ty: ty_view(e.ty), origin: e.origin, ctor: e.ctor }
}

/// View of a sequence of value-namespace entries.
pub open spec fn entries_view(s: Seq<Entry>) -> Seq<EntryV>
    decreases s.len(),
{
    if s.len() == 0 {
        Seq::empty()
    } else {
        seq![entry_view(s[0])] + entries_view(s.subrange(1, s.len() as int))
    }
}

/// The view of an entry sequence is pointwise.
pub proof fn lemma_entries_view_index(s: Seq<Entry>, i: int)
    ensures
        entries_view(s).len() == s.len(),
        0 <= i < s.len() ==> entries_view(s)[i] == entry_view(s[i]),
    decreases s.len(),
{
    if s.len() > 0 {
        lemma_entries_view_index(s.subrange(1, s.len() as int), i - 1);
    }
}

/// Makes the pointwise view of a whole entry sequence available.
pub proof fn lemma_entries_view_all(s: Seq<Entry>)
    ensures
        entries_view(s).len() == s.len(),
        forall|j: int| 0 <= j < s.len() ==> entries_view(s)[j] == entry_view(s[j]),
{
    assert forall|j: int| 0 <= j < s.len() implies entries_view(s)[j] == entry_view(s[j]) by {
        lemma_entries_view_index(s, j);
    }
    lemma_entries_view_index(s, 0);
}

/// Appending an entry appends its view.
pub proof fn lemma_entries_view_push(s: Seq<Entry>, x: Entry)
    ensures
        entries_view(s.push(x)) == entries_view(s).push(entry_view(x)),
{
    lemma_entries_view_all(s.push(x));
    lemma_entries_view_all(s);
    assert forall|j: int| 0 <= j < s.len() + 1 implies entries_view(s.push(x))[j] == entries_view(
        s,
    ).push(entry_view(x))[j] by {
        if j < s.len() {
            assert(s.push(x)[j] == s[j]);
        } else {
            assert(s.push(x)[j] == x);
        }
    }
    assert(entries_view(s.push(x)) =~= entries_view(s).push(entry_view(x)));
}

/// Appending a type entry appends its view.
pub proof fn lemma_type_entries_view_push(s: Seq<TypeEntry>, x: TypeEntry)
    ensures
        type_entries_view(s.push(x)) == type_entries_view(s).push(type_entry_view(x)),
{
    crate::types::lemma_type_entries_view_all(s.push(x));
    crate::types::lemma_type_entries_view_all(s);
    assert forall|j: int|
        0 <= j < s.len() + 1 implies type_entries_view(s.push(x))[j] == type_entries_view(s).push(
        type_entry_view(x),
    )[j] by {
        if j < s.len() {
            assert(s.push(x)[j] == s[j]);
        } else {
            assert(s.push(x)[j] == x);
        }
    }
    assert(type_entries_view(s.push(x)) =~= type_entries_view(s).push(type_entry_view(x)));
}

/// Appending a name appends its view.
pub proof fn lemma_names_view_push(s: Seq<Name>, x: Name)
    ensures
        names_view(s.push(x)) == names_view(s).push(x@),
{
    crate::types::lemma_names_view_all(s.push(x));
    crate::types::lemma_names_view_all(s);
    assert forall|j: int| 0 <= j < s.len() + 1 implies names_view(s.push(x))[j] == names_view(
        s,
    ).push(x@)[j] by {
        if j < s.len() {
            assert(s.push(x)[j] == s[j]);
        } else {
            assert(s.push(x)[j] == x);
        }
    }
    assert(names_view(s.push(x)) =~= names_view(s).push(x@));
}

/// Builds a value-namespace entry from an identifier occurrence.
pub fn entry_from_ident(i: &Ident, ctor: bool) -> (r: Entry)
    ensures
        entry_view(r) == entry_of_ident(*i, ctor),
{
    Entry {
        name: copy_name(&i.sym.name),
        id: i.sym.id,
        ty: clone_ty(&i.ty),
        origin: i.span,
        ctor,
    }
}

/// The view-level entry an identifier occurrence introduces.
pub open spec fn entry_of_ident(i: Ident, ctor: bool) -> EntryV {
    EntryV { name: i.sym.name@, id: i.sym.id, ty: ty_view(i.ty), origin: i.span, ctor }
}

/// The syntactic slot a position stands in, which decides the candidate
/// pool. Candidates legal in one context never leak into another.
pub enum CtxKind {
    /// The position lies outside the tree entirely.
    NotFound,
    /// An open expression slot: value bindings and constructors apply.
    OpenExpr { prefix: Name },
    /// The constructor head of a `case` alternative: the scrutinee's
    /// constructors and constructors in scope apply.
    AltHead { prefix: Name, scrut: Ty },
    /// The field position of `recv.field`: the receiver type's fields
    /// apply; `recv_name` is the receiver's own name when it is a plain
    /// identifier, the fallback when the receiver's type has no fields.
    FieldTail { prefix: Name, recv: Ty, recv_name: Option<Name> },
    /// A record-pattern slot: the expected type's fields apply, less the
    /// names already consumed elsewhere in the same pattern.
    PatternSlot { prefix: Name, expected: Ty, consumed: Vec<Name> },
    /// Type syntax: declared type names and type variables apply.
    TypeCtx { prefix: Name },
    /// An import path: module-path segments apply; `path` is the whole
    /// dotted path text of the import node.
    ImportPath { path: Name },
}

/// The classified context: both namespaces as collected on the way down
/// (outermost first), and the kind of slot the position stands in.
pub struct Ctx {
    pub vals: Vec<Entry>,
    pub tys: Vec<TypeEntry>,
    pub kind: CtxKind,
}

/// Ghost view of a context kind.
pub enum CtxKindV {
    NotFound,
    OpenExpr { prefix: Seq<u8> },
    AltHead { prefix: Seq<u8>, scrut: TyV },
    FieldTail { prefix: Seq<u8>, recv: TyV, recv_name: Option<Seq<u8>> },
    PatternSlot { prefix: Seq<u8>, expected: TyV, consumed: Seq<Seq<u8>> },
    TypeCtx { prefix: Seq<u8> },
    ImportPath { path: Seq<u8> },
}

/// Ghost view of a classified context.
pub struct CtxV {
    pub vals: Seq<EntryV>,
    pub tys: Seq<TypeEntryV>,
    pub kind: CtxKindV,
}

/// View of a context kind.
pub open spec fn ctx_kind_view(k: CtxKind) -> CtxKindV {
    match k {
        CtxKind::NotFound => CtxKindV::NotFound,
        CtxKind::OpenExpr { prefix } => CtxKindV::OpenExpr { prefix: prefix@ },
        CtxKind::AltHead { prefix, scrut } => CtxKindV::AltHead {
            prefix: prefix@,
            scrut: ty_view(scrut),
        },
        CtxKind::FieldTail { prefix, recv, recv_name } => CtxKindV::FieldTail {
            prefix: prefix@,
            recv: ty_view(recv),
            recv_name: match recv_name {
                Some(n) => Some(n@),
                None => None,
            },
        },
        CtxKind::PatternSlot { prefix, expected, consumed } => CtxKindV::PatternSlot {
            prefix: prefix@,
            expected: ty_view(expected),
            consumed: names_view(consumed@),
        },
        CtxKind::TypeCtx { prefix } => CtxKindV::TypeCtx { prefix: prefix@ },
        CtxKind::ImportPath { path } => CtxKindV::ImportPath { path: path@ },
    }
}

/// View of a classified context.
pub open spec fn ctx_view(c: Ctx) -> CtxV {
    CtxV { vals: entries_view(c.vals@), tys: type_entries_view(c.tys@), kind: ctx_kind_view(c.kind) }
}

/// The identifier-like text already typed at the cursor: the part of the
/// token's text before the position, the whole text if the position lies
/// past it, nothing if the position lies before the token.
pub open spec fn prefix_of_v(name: Seq<u8>, start: int, pos: int) -> Seq<u8> {
    let k = pos - start;
    if k < 0 {
        Seq::empty()
    } else if k <= name.len() {
        name.subrange(0, k)
    } else {
        name
    }
}

/// Takes the typed prefix of an identifier's text at `pos`.
pub fn prefix_of(name: &Name, start: usize, pos: usize) -> (r: Name)
    ensures
        r@ == prefix_of_v(name@, start as int, pos as int),
{
    if pos < start {
        let r: Name = Vec::new();
        assert(r@ =~= Seq::<u8>::empty());
        r
    } else if pos - start <= name.len() {
        let k = pos - start;
        let mut r: Name = Vec::new();
        let mut i: usize = 0;
        while i < k
            invariant
                i <= k,
                k <= name@.len(),
                r@ == name@.subrange(0, i as int),
            decreases k - i,
        {
            r.push(name[i]);
            assert(r@ =~= name@.subrange(0, i + 1 as int));
            i = i + 1;
        }
        r
    } else {
        copy_name(name)
    }
}

} // verus!

verus! {

/// Copies a value-namespace entry.
pub fn clone_entry(e: &Entry) -> (r: Entry)
    ensures
        entry_view(r) == entry_view(*e),
{
    Entry {
        name: crate::name::copy_name(&e.name),
        id: e.id,
        ty: crate::ast::clone_ty(&e.ty),
        origin: e.origin,
        ctor: e.ctor,
    }
}

} // verus!
