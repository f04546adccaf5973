//! The suggestion engine: classify the slot at the position, gather the
//! candidate pool that is legal there — and only there — then filter by
//! the typed prefix, deduplicate by name keeping the innermost candidate,
//! and sort by byte-wise lexicographic name order.

use vstd::prelude::*;

use crate::ast::{clone_ty, ty_view, Expr, Ty, TyV};
use crate::candidates::{
    names_as_set, process, process_v, sug_view, sugs_view, Payload, PayloadV, SugV, Suggestion,
};
use crate::imports::{resolve_import, resolve_import_v, FsDir};
use crate::name::{copy_name, names_view, Name};
use crate::scope::{entries_view, Ctx, CtxKind, CtxKindV, Entry, EntryV};
use crate::types::{resolve_shape, resolve_v, type_entries_view, TypeEntry, TypeEntryV, TypeEnv};
use crate::walk::{classify, classify_v};

verus! {

/// The view-level candidate an entry contributes.
pub open spec fn sug_of_entry(e: EntryV) -> SugV {
    SugV { name: e.name, payload: PayloadV::Value(e.ty) }
}

/// Builds the candidate an entry contributes.
pub fn entry_sug(e: &Entry) -> (r: Suggestion)
    ensures
        sug_view(r) == sug_of_entry(crate::scope::entry_view(*e)),
{
    Suggestion { name: copy_name(&e.name), payload: Payload::Value(clone_ty(&e.ty)) }
}

/// Appending a candidate appends its view.
pub proof fn lemma_sugs_view_push(s: Seq<Suggestion>, x: Suggestion)
    ensures
        sugs_view(s.push(x)) == sugs_view(s).push(sug_view(x)),
{
    crate::candidates::lemma_sugs_view_all(s.push(x));
    crate::candidates::lemma_sugs_view_all(s);
    assert forall|j: int| 0 <= j < s.len() + 1 implies sugs_view(s.push(x))[j] == sugs_view(s).push(
        sug_view(x),
    )[j] by {
        if j < s.len() {
            assert(s.push(x)[j] == s[j]);
        } else {
            assert(s.push(x)[j] == x);
        }
    }
    assert(sugs_view(s.push(x)) =~= sugs_view(s).push(sug_view(x)));
}

/// All visible value bindings and constructors as candidates, innermost
/// first: the pool of an open expression slot.
pub open spec fn pool_vals(vals: Seq<EntryV>, i: int) -> Seq<SugV>
    decreases i,
{
    if i <= 0 || i > vals.len() {
        Seq::empty()
    } else {
        seq![sug_of_entry(vals[i - 1])] + pool_vals(vals, i - 1)
    }
}

/// The visible constructors as candidates, innermost first: part of the
/// pool of an alternative-head slot.
pub open spec fn pool_ctors(vals: Seq<EntryV>, i: int) -> Seq<SugV>
    decreases i,
{
    if i <= 0 || i > vals.len() {
        Seq::empty()
    } else if vals[i - 1].ctor {
        seq![sug_of_entry(vals[i - 1])] + pool_ctors(vals, i - 1)
    } else {
        pool_ctors(vals, i - 1)
    }
}

/// The visible type names and type variables as candidates, innermost
/// first: the pool of a type-syntax slot.
pub open spec fn pool_tys(tys: Seq<TypeEntryV>, i: int) -> Seq<SugV>
    decreases i,
{
    if i <= 0 || i > tys.len() {
        Seq::empty()
    } else {
        seq![SugV { name: tys[i - 1].name, payload: PayloadV::TypeName }] + pool_tys(tys, i - 1)
    }
}

/// The fields of a record shape as candidates, in declaration order:
/// the pool of a field-access tail and of a record-pattern slot. Any
/// other shape offers no fields.
pub open spec fn fields_pool(t: TyV) -> Seq<SugV> {
    match t {
        TyV::Record(fs) => Seq::new(
            fs.len(),
            |i: int| SugV { name: fs[i].name, payload: PayloadV::Value(fs[i].ty) },
        ),
        _ => Seq::empty(),
    }
}

/// The constructors of a variant shape as candidates, in declaration
/// order. Any other shape offers none.
pub open spec fn ctors_pool(t: TyV) -> Seq<SugV> {
    match t {
        TyV::Variants(fs) => Seq::new(
            fs.len(),
            |i: int| SugV { name: fs[i].name, payload: PayloadV::Value(fs[i].ty) },
        ),
        _ => Seq::empty(),
    }
}

/// Drops the candidates whose names a record pattern has already
/// consumed.
pub open spec fn minus_names(s: Seq<SugV>, consumed: Set<Seq<u8>>) -> Seq<SugV>
    decreases s.len(),
{
    if s.len() == 0 {
        Seq::empty()
    } else {
        let rest = minus_names(s.subrange(1, s.len() as int), consumed);
        if consumed.contains(s[0].name) {
            rest
        } else {
            seq![s[0]] + rest
        }
    }
}

/// The pool of a field-access tail: the resolved receiver shape's fields;
/// where the shape has none — the receiver's type is still unresolved —
/// the receiver's own name is suggested instead of fabricated fields.
pub open spec fn field_tail_pool(resolved: TyV, recv: TyV, recv_name: Option<Seq<u8>>) -> Seq<
    SugV,
> {
    if resolved is Record {
        fields_pool(resolved)
    } else {
        match recv_name {
            Some(n) => seq![SugV { name: n, payload: PayloadV::Value(recv) }],
            None => Seq::empty(),
        }
    }
}

/// The sorted, deduplicated candidate list at `pos`, or nothing when the
/// position lies outside the tree. Each context draws from its own pool:
/// an open expression from the visible value bindings and constructors;
/// an alternative head from the scrutinee shape's constructors and the
/// constructors in scope; a field-access tail from the receiver shape's
/// fields, falling back to the receiver's own name; a record-pattern slot
/// from the expected shape's fields less the consumed names; type syntax
/// from the type names and variables in scope; an import path from the
/// resolved directory's children.
pub open spec fn suggest_v(env: TypeEnv, roots: Seq<FsDir>, tree: Expr, pos: int) -> Option<
    Seq<SugV>,
> {
    let c = classify_v(tree, pos);
    let envv = type_entries_view(env.aliases@);
    match c.kind {
        CtxKindV::NotFound => None,
        CtxKindV::OpenExpr { prefix } => Some(
            process_v(pool_vals(c.vals, c.vals.len() as int), prefix),
        ),
        CtxKindV::AltHead { prefix, scrut } => Some(
            process_v(
                ctors_pool(resolve_v(c.tys, envv, scrut)) + pool_ctors(
                    c.vals,
                    c.vals.len() as int,
                ),
                prefix,
            ),
        ),
        CtxKindV::FieldTail { prefix, recv, recv_name } => Some(
            process_v(field_tail_pool(resolve_v(c.tys, envv, recv), recv, recv_name), prefix),
        ),
        CtxKindV::PatternSlot { prefix, expected, consumed } => Some(
            process_v(
                minus_names(fields_pool(resolve_v(c.tys, envv, expected)), names_as_set(consumed)),
                prefix,
            ),
        ),
        CtxKindV::TypeCtx { prefix } => Some(process_v(pool_tys(c.tys, c.tys.len() as int), prefix)),
        CtxKindV::ImportPath { path } => Some(resolve_import_v(roots, path)),
    }
}

/// Collects the open-expression pool: every entry, innermost first.
#[verifier::loop_isolation(false)]
fn collect_vals(vals: &Vec<Entry>) -> (r: Vec<Suggestion>)
    ensures
        sugs_view(r@) == pool_vals(entries_view(vals@), vals@.len() as int),
{
    proof {
        crate::scope::lemma_entries_view_all(vals@);
    }
    let mut out: Vec<Suggestion> = Vec::new();
    let mut i: usize = vals.len();
    while i > 0
        invariant
            i <= vals.len(),
            pool_vals(entries_view(vals@), vals@.len() as int) == sugs_view(out@) + pool_vals(
                entries_view(vals@),
                i as int,
            ),
        decreases i,
    {
        i = i - 1;
        let s = entry_sug(&vals[i]);
        proof {
            lemma_sugs_view_push(out@, s);
            assert(sugs_view(out@).push(sug_view(s)) + pool_vals(entries_view(vals@), i as int)
                =~= sugs_view(out@) + (seq![sug_view(s)] + pool_vals(entries_view(vals@), i as int)));
        }
        out.push(s);
    }
    proof {
        assert(sugs_view(out@) + pool_vals(entries_view(vals@), 0) =~= sugs_view(out@));
    }
    out
}

/// Collects the constructors in scope, innermost first.
#[verifier::loop_isolation(false)]
fn collect_ctors(vals: &Vec<Entry>) -> (r: Vec<Suggestion>)
    ensures
        sugs_view(r@) == pool_ctors(entries_view(vals@), vals@.len() as int),
{
    proof {
        crate::scope::lemma_entries_view_all(vals@);
    }
    let mut out: Vec<Suggestion> = Vec::new();
    let mut i: usize = vals.len();
    while i > 0
        invariant
            i <= vals.len(),
            pool_ctors(entries_view(vals@), vals@.len() as int) == sugs_view(out@) + pool_ctors(
                entries_view(vals@),
                i as int,
            ),
        decreases i,
    {
        i = i - 1;
        if vals[i].ctor {
            let s = entry_sug(&vals[i]);
            proof {
                lemma_sugs_view_push(out@, s);
                assert(sugs_view(out@).push(sug_view(s)) + pool_ctors(entries_view(vals@), i as int)
                    =~= sugs_view(out@) + (seq![sug_view(s)] + pool_ctors(
                    entries_view(vals@),
                    i as int,
                )));
            }
            out.push(s);
        }
    }
    proof {
        assert(sugs_view(out@) + pool_ctors(entries_view(vals@), 0) =~= sugs_view(out@));
    }
    out
}

/// Collects the type-namespace pool, innermost first.
#[verifier::loop_isolation(false)]
fn collect_tys(tys: &Vec<TypeEntry>) -> (r: Vec<Suggestion>)
    ensures
        sugs_view(r@) == pool_tys(type_entries_view(tys@), tys@.len() as int),
{
    proof {
        crate::types::lemma_type_entries_view_all(tys@);
    }
    let mut out: Vec<Suggestion> = Vec::new();
    let mut i: usize = tys.len();
    while i > 0
        invariant
            i <= tys.len(),
            pool_tys(type_entries_view(tys@), tys@.len() as int) == sugs_view(out@) + pool_tys(
                type_entries_view(tys@),
                i as int,
            ),
        decreases i,
    {
        i = i - 1;
        let s = Suggestion { name: copy_name(&tys[i].name), payload: Payload::TypeName };
        proof {
            lemma_sugs_view_push(out@, s);
            assert(sugs_view(out@).push(sug_view(s)) + pool_tys(type_entries_view(tys@), i as int)
                =~= sugs_view(out@) + (seq![sug_view(s)] + pool_tys(
                type_entries_view(tys@),
                i as int,
            )));
        }
        out.push(s);
    }
    proof {
        assert(sugs_view(out@) + pool_tys(type_entries_view(tys@), 0) =~= sugs_view(out@));
    }
    out
}

/// Collects a resolved record shape's fields as candidates.
fn collect_fields(t: &Ty) -> (r: Vec<Suggestion>)
    ensures
        sugs_view(r@) == fields_pool(ty_view(*t)),
{
    match t {
        Ty::Record(fs) => {
            proof {
                crate::types::lemma_tfs_view_all(fs@);
            }
            let mut out: Vec<Suggestion> = Vec::new();
            let mut i: usize = 0;
            while i < fs.len()
                invariant
                    i <= fs.len(),
                    out@.len() == i,
                    forall|j: int|
                        0 <= j < i ==> sug_view(out@[j]) == (SugV {
                            name: fs@[j].name@,
                            payload: PayloadV::Value(ty_view(fs@[j].ty)),
                        }),
                decreases fs.len() - i,
            {
                let s = Suggestion {
                    name: copy_name(&fs[i].name),
                    payload: Payload::Value(clone_ty(&fs[i].ty)),
                };
                out.push(s);
                i = i + 1;
            }
            proof {
                crate::candidates::lemma_sugs_view_all(out@);
                assert(sugs_view(out@) =~= fields_pool(ty_view(*t)));
            }
            out
        },
        _ => {
            let out: Vec<Suggestion> = Vec::new();
            proof {
                assert(sugs_view(out@) =~= fields_pool(ty_view(*t)));
            }
            out
        },
    }
}

/// Collects a resolved variant shape's constructors as candidates.
fn collect_variant_ctors(t: &Ty) -> (r: Vec<Suggestion>)
    ensures
        sugs_view(r@) == ctors_pool(ty_view(*t)),
{
    match t {
        Ty::Variants(fs) => {
            proof {
                crate::types::lemma_tfs_view_all(fs@);
            }
            let mut out: Vec<Suggestion> = Vec::new();
            let mut i: usize = 0;
            while i < fs.len()
                invariant
                    i <= fs.len(),
                    out@.len() == i,
                    forall|j: int|
                        0 <= j < i ==> sug_view(out@[j]) == (SugV {
                            name: fs@[j].name@,
                            payload: PayloadV::Value(ty_view(fs@[j].ty)),
                        }),
                decreases fs.len() - i,
            {
                let s = Suggestion {
                    name: copy_name(&fs[i].name),
                    payload: Payload::Value(clone_ty(&fs[i].ty)),
                };
                out.push(s);
                i = i + 1;
            }
            proof {
                crate::candidates::lemma_sugs_view_all(out@);
                assert(sugs_view(out@) =~= ctors_pool(ty_view(*t)));
            }
            out
        },
        _ => {
            let out: Vec<Suggestion> = Vec::new();
            proof {
                assert(sugs_view(out@) =~= ctors_pool(ty_view(*t)));
            }
            out
        },
    }
}

/// Drops the candidates whose names the pattern has consumed.
fn drop_consumed(v: Vec<Suggestion>, consumed: &Vec<Name>) -> (r: Vec<Suggestion>)
    ensures
        sugs_view(r@) == minus_names(sugs_view(v@), names_as_set(names_view(consumed@))),
    decreases v@.len(),
{
    let mut v = v;
    if v.len() == 0 {
        return v;
    }
    let ghost orig = v@;
    let first = v.remove(0);
    proof {
        assert(orig =~= seq![first] + v@);
        crate::candidates::lemma_sugs_view_cons(first, v@);
        let sv = sugs_view(orig);
        assert(sv.subrange(1, sv.len() as int) =~= sugs_view(v@));
        assert(sv[0] == sug_view(first));
    }
    let hit = crate::candidates::contains_name(consumed, &first.name);
    let mut rest = drop_consumed(v, consumed);
    if hit {
        rest
    } else {
        let mut out: Vec<Suggestion> = Vec::new();
        out.push(first);
        let ghost fv = out@[0];
        let ghost rv = rest@;
        out.append(&mut rest);
        proof {
            assert(out@ =~= seq![fv] + rv);
            crate::candidates::lemma_sugs_view_cons(fv, rv);
        }
        out
    }
}

/// Concatenating candidate lists concatenates their views.
pub proof fn lemma_sugs_view_concat(a: Seq<Suggestion>, b: Seq<Suggestion>)
    ensures
        sugs_view(a + b) == sugs_view(a) + sugs_view(b),
{
    crate::candidates::lemma_sugs_view_all(a + b);
    crate::candidates::lemma_sugs_view_all(a);
    crate::candidates::lemma_sugs_view_all(b);
    assert forall|j: int| 0 <= j < a.len() + b.len() implies sugs_view(a + b)[j] == (sugs_view(a)
        + sugs_view(b))[j] by {
        if j < a.len() {
            assert((a + b)[j] == a[j]);
        } else {
            assert((a + b)[j] == b[j - a.len()]);
        }
    }
    assert(sugs_view(a + b) =~= sugs_view(a) + sugs_view(b));
}

/// Completion at a position: the sorted, deduplicated candidates legal in
/// the syntactic slot there, or nothing when the position lies outside
/// the tree; see `suggest_v` for the pool each slot draws from.
pub fn suggest(env: &TypeEnv, roots: &Vec<FsDir>, tree: &Expr, pos: usize) -> (r: Option<
    Vec<Suggestion>,
>)
    ensures
        match r {
            Some(v) => suggest_v(*env, roots@, *tree, pos as int) == Some(sugs_view(v@)),
            None => suggest_v(*env, roots@, *tree, pos as int) is None,
        },
{
    let c = classify(tree, pos);
    let Ctx { vals, tys, kind } = c;
    proof {
        crate::scope::lemma_entries_view_all(vals@);
        crate::types::lemma_type_entries_view_all(tys@);
    }
    match kind {
        CtxKind::NotFound => None,
        CtxKind::OpenExpr { prefix } => {
            let pool = collect_vals(&vals);
            Some(process(pool, &prefix))
        },
        CtxKind::AltHead { prefix, scrut } => {
            let resolved = resolve_shape(&tys, env, &scrut);
            let mut pool = collect_variant_ctors(&resolved);
            let mut scope_ctors = collect_ctors(&vals);
            let ghost pv = pool@;
            let ghost sv = scope_ctors@;
            pool.append(&mut scope_ctors);
            proof {
                assert(pool@ =~= pv + sv);
                lemma_sugs_view_concat(pv, sv);
            }
            Some(process(pool, &prefix))
        },
        CtxKind::FieldTail { prefix, recv, recv_name } => {
            let resolved = resolve_shape(&tys, env, &recv);
            let is_rec = match &resolved {
                Ty::Record(_) => true,
                _ => false,
            };
            let pool = if is_rec {
                collect_fields(&resolved)
            } else {
                match &recv_name {
                    Some(n) => {
                        let mut out: Vec<Suggestion> = Vec::new();
                        let s = Suggestion {
                            name: copy_name(n),
                            payload: Payload::Value(clone_ty(&recv)),
                        };
                        out.push(s);
                        proof {
                            assert(out@ =~= seq![out@[0]]);
                            crate::candidates::lemma_sugs_view_singleton(out@[0]);
                        }
                        out
                    },
                    None => {
                        let out: Vec<Suggestion> = Vec::new();
                        proof {
                            assert(sugs_view(out@) =~= Seq::<SugV>::empty());
                        }
                        out
                    },
                }
            };
            Some(process(pool, &prefix))
        },
        CtxKind::PatternSlot { prefix, expected, consumed } => {
            let resolved = resolve_shape(&tys, env, &expected);
            let pool = collect_fields(&resolved);
            let pool = drop_consumed(pool, &consumed);
            Some(process(pool, &prefix))
        },
        CtxKind::TypeCtx { prefix } => {
            let pool = collect_tys(&tys);
            Some(process(pool, &prefix))
        },
        CtxKind::ImportPath { path } => Some(resolve_import(roots, &path)),
    }
}

} // verus!

verus! {

/// A candidate together with its resolved documentation, when any binding
/// of that name carries one.
#[derive(PartialEq, Eq, Debug)]
pub struct DocSuggestion {
    pub sug: Suggestion,
    pub meta: Option<crate::metadata::Metadata>,
}

/// Ghost view of a documented candidate.
pub struct DocSugV {
    pub sug: SugV,
    pub meta: Option<crate::metadata::MetadataV>,
}

/// View of a documented candidate.
pub open spec fn doc_sug_view(d: DocSuggestion) -> DocSugV {
    DocSugV { sug: sug_view(d.sug), meta: crate::metadata::opt_metadata_view(d.meta) }
}

/// View of a run of documented candidates.
pub open spec fn doc_sugs_view(s: Seq<DocSuggestion>) -> Seq<DocSugV> {
    Seq::new(s.len(), |i: int| doc_sug_view(s[i]))
}

/// What `suggest_doc` answers: the candidates of `suggest_v`, each
/// annotated with the metadata `metadata_for_name_v` resolves for its
/// name at the position.
pub open spec fn suggest_doc_v(
    env: TypeEnv,
    roots: Seq<FsDir>,
    map: crate::metadata::MetaMap,
    tree: Expr,
    pos: int,
) -> Option<Seq<DocSugV>> {
    match suggest_v(env, roots, tree, pos) {
        Some(s) => Some(
            Seq::new(
                s.len(),
                |i: int| DocSugV {
                    sug: s[i],
                    meta: crate::metadata::opt_metadata_view(
                        crate::metadata::metadata_for_name_v(map, tree, pos, s[i].name),
                    ),
                },
            ),
        ),
        None => None,
    }
}

/// Completion with documentation: each candidate of `suggest`, annotated
/// with the doc comment its name resolves to at the position; see
/// `suggest_doc_v`.
#[verifier::loop_isolation(false)]
pub fn suggest_doc(
    env: &TypeEnv,
    roots: &Vec<FsDir>,
    map: &crate::metadata::MetaMap,
    tree: &Expr,
    pos: usize,
) -> (r: Option<Vec<DocSuggestion>>)
    ensures
        match r {
            Some(v) => suggest_doc_v(*env, roots@, *map, *tree, pos as int) == Some(
                doc_sugs_view(v@),
            ),
            None => suggest_doc_v(*env, roots@, *map, *tree, pos as int) is None,
        },
{
    match suggest(env, roots, tree, pos) {
        Some(sugs) => {
            let ghost sv = sugs_view(sugs@);
            proof {
                crate::candidates::lemma_sugs_view_all(sugs@);
            }
            let mut out: Vec<DocSuggestion> = Vec::new();
            let mut i: usize = 0;
            while i < sugs.len()
                invariant
                    i <= sugs.len(),
                    out@.len() == i,
                    forall|j: int|
                        0 <= j < i ==> doc_sug_view(out@[j]) == (DocSugV {
                            sug: sv[j],
                            meta: crate::metadata::opt_metadata_view(
                                crate::metadata::metadata_for_name_v(
                                    *map,
                                    *tree,
                                    pos as int,
                                    sv[j].name,
                                ),
                            ),
                        }),
                decreases sugs.len() - i,
            {
                let m = crate::metadata::metadata_for_name(map, tree, pos, &sugs[i].name);
                let s = crate::candidates::clone_suggestion(&sugs[i]);
                out.push(DocSuggestion { sug: s, meta: m });
                i = i + 1;
            }
            proof {
                assert(doc_sugs_view(out@) =~= (match suggest_doc_v(
                    *env,
                    roots@,
                    *map,
                    *tree,
                    pos as int,
                ) {
                    Some(x) => x,
                    None => Seq::empty(),
                }));
            }
            Some(out)
        },
        None => None,
    }
}

} // verus!
