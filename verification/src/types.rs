//! The type environment: resolving a named type, possibly through a chain
//! of aliases, to its underlying record or variant shape.
//!
//! Aliases come from two places with the same shape: the ambient
//! environment handed in by the caller, and `type` declarations collected
//! from the tree while walking to the queried position. A scope entry
//! shadows an ambient one, and an inner declaration shadows an outer one.

use vstd::prelude::*;

use crate::ast::{
    clone_ty, lemma_tfs_view_index, lemma_tys_view_index, ty_view, tys_view, tfs_view, Span, Ty,
    TyField, TyFieldV, TyV,
};
use crate::name::{copy_name, copy_names, name_eq, names_view, Name};

verus! {

/// A type-namespace entry: either a declared (possibly parameterised)
/// type name whose body is its definition, or a type-variable binder
/// (`is_var`), which has no definition of its own.
pub struct TypeEntry {
    pub name: Name,
    pub params: Vec<Name>,
    pub body: Ty,
    pub origin: Span,
    pub is_var: bool,
}

/// Ghost view of a type-namespace entry.
pub struct TypeEntryV {
    pub name: Seq<u8>,
    pub params: Seq<Seq<u8>>,
    pub body: TyV,
    pub origin: Span,
    pub is_var: bool,
}

/// View of a type-namespace entry.
pub open spec fn type_entry_view(e: TypeEntry) -> TypeEntryV {
    TypeEntryV {
        name: e.name@,
        params: names_view(e.params@),
        body: ty_view(e.body),
        origin: e.origin,
        is_var: e.is_var,
    }
}

/// View of a sequence of type-namespace entries.
pub open spec fn type_entries_view(s: Seq<TypeEntry>) -> Seq<TypeEntryV>
    decreases s.len(),
{
    if s.len() == 0 {
        Seq::empty()
    } else {
        seq![type_entry_view(s[0])] + type_entries_view(s.subrange(1, s.len() as int))
    }
}

/// The view of an entry sequence is pointwise.
pub proof fn lemma_type_entries_view_index(s: Seq<TypeEntry>, i: int)
    ensures
        type_entries_view(s).len() == s.len(),
        0 <= i < s.len() ==> type_entries_view(s)[i] == type_entry_view(s[i]),
    decreases s.len(),
{
    if s.len() > 0 {
        lemma_type_entries_view_index(s.subrange(1, s.len() as int), i - 1);
    }
}

/// Copies a type-namespace entry.
pub fn clone_type_entry(e: &TypeEntry) -> (r: TypeEntry)
    ensures
        type_entry_view(r) == type_entry_view(*e),
{
    TypeEntry {
        name: copy_name(&e.name),
        params: copy_names(&e.params),
        body: clone_ty(&e.body),
        origin: e.origin,
        is_var: e.is_var,
    }
}

/// The ambient type environment: the alias definitions the caller already
/// resolved outside the queried tree, in declaration order.
pub struct TypeEnv {
    pub aliases: Vec<TypeEntry>,
}

/// Index of the first parameter named `n`, or `-1`.
pub open spec fn param_index(params: Seq<Seq<u8>>, n: Seq<u8>) -> int
    decreases params.len(),
{
    if params.len() == 0 {
        -1
    } else if params[0] == n {
        0
    } else {
        let r = param_index(params.subrange(1, params.len() as int), n);
        if r < 0 {
            -1
        } else {
            1 + r
        }
    }
}

/// If the first `i` parameters are not `n` and the `i`th is, the first
/// match stands at `i`; if none of the first `i` is `n` and the sequence
/// ends there, there is no match.
pub proof fn lemma_param_index_prefix(params: Seq<Seq<u8>>, n: Seq<u8>, i: int)
    requires
        0 <= i <= params.len(),
        forall|j: int| 0 <= j < i ==> params[j] != n,
        i < params.len() ==> params[i] == n,
    ensures
        i < params.len() ==> param_index(params, n) == i,
        i == params.len() ==> param_index(params, n) == -1,
    decreases i, params.len(),
{
    if params.len() == 0 {
    } else if i == 0 {
        if params.len() > 0 && params[0] != n {
            // i == params.len() == 0 is excluded here, so params[0] == n.
        }
    } else {
        let t = params.subrange(1, params.len() as int);
        assert(forall|j: int| 0 <= j < i - 1 ==> t[j] != n);
        lemma_param_index_prefix(t, n, i - 1);
    }
}

/// Finds the first parameter named like `n`.
#[verifier::loop_isolation(false)]
fn find_param(params: &Vec<Name>, n: &Name) -> (r: Option<usize>)
    ensures
        match r {
            Some(i) => param_index(names_view(params@), n@) == i as int && i < params@.len(),
            None => param_index(names_view(params@), n@) == -1,
        },
{
    proof {
        lemma_names_view_all(params@);
    }
    let mut i: usize = 0;
    while i < params.len()
        invariant
            i <= params.len(),
            forall|j: int| 0 <= j < i ==> names_view(params@)[j] != n@,
        decreases params.len() - i,
    {
        if name_eq(&params[i], n) {
            proof {
                lemma_param_index_prefix(names_view(params@), n@, i as int);
            }
            return Some(i);
        }
        i = i + 1;
    }
    proof {
        lemma_param_index_prefix(names_view(params@), n@, params@.len() as int);
    }
    None
}

/// Makes the pointwise view of a whole name sequence available.
pub proof fn lemma_names_view_all(s: Seq<Name>)
    ensures
        names_view(s).len() == s.len(),
        forall|j: int| 0 <= j < s.len() ==> names_view(s)[j] == s[j]@,
{
    assert forall|j: int| 0 <= j < s.len() implies names_view(s)[j] == s[j]@ by {
        crate::name::lemma_names_view_index(s, j);
    }
    crate::name::lemma_names_view_index(s, 0);
}

/// Makes the pointwise view of a whole type sequence available.
pub proof fn lemma_tys_view_all(s: Seq<Ty>)
    ensures
        tys_view(s).len() == s.len(),
        forall|j: int| 0 <= j < s.len() ==> tys_view(s)[j] == ty_view(s[j]),
{
    assert forall|j: int| 0 <= j < s.len() implies tys_view(s)[j] == ty_view(s[j]) by {
        lemma_tys_view_index(s, j);
    }
    lemma_tys_view_index(s, 0);
}

/// Makes the pointwise view of a whole shape-component sequence available.
pub proof fn lemma_tfs_view_all(s: Seq<TyField>)
    ensures
        tfs_view(s).len() == s.len(),
        forall|j: int|
            0 <= j < s.len() ==> tfs_view(s)[j] == (TyFieldV {
                name: s[j].name@,
                ty: ty_view(s[j].ty),
            }),
{
    assert forall|j: int|
        0 <= j < s.len() implies tfs_view(s)[j] == (TyFieldV {
        name: s[j].name@,
        ty: ty_view(s[j].ty),
    }) by {
        lemma_tfs_view_index(s, j);
    }
    lemma_tfs_view_index(s, 0);
}

/// Makes the pointwise view of a whole entry sequence available.
pub proof fn lemma_type_entries_view_all(s: Seq<TypeEntry>)
    ensures
        type_entries_view(s).len() == s.len(),
        forall|j: int| 0 <= j < s.len() ==> type_entries_view(s)[j] == type_entry_view(s[j]),
{
    assert forall|j: int| 0 <= j < s.len() implies type_entries_view(s)[j] == type_entry_view(
        s[j],
    ) by {
        lemma_type_entries_view_index(s, j);
    }
    lemma_type_entries_view_index(s, 0);
}

/// Substitution of type arguments for named type parameters, applied
/// structurally; a variable that names no parameter, or whose parameter
/// has no matching argument, stays as it is.
pub open spec fn subst_v(t: TyV, params: Seq<Seq<u8>>, args: Seq<TyV>) -> TyV
    decreases t, 0nat,
{
    match t {
        TyV::Var(n) => {
            let i = param_index(params, n);
            if 0 <= i < args.len() {
                args[i]
            } else {
                TyV::Var(n)
            }
        },
        TyV::Named(n, ts) => TyV::Named(n, subst_list_v(ts, params, args)),
        TyV::Func(a, r) => TyV::Func(
            Box::new(subst_v(*a, params, args)),
            Box::new(subst_v(*r, params, args)),
        ),
        TyV::Record(fs) => TyV::Record(subst_fields_v(fs, params, args)),
        TyV::Variants(fs) => TyV::Variants(subst_fields_v(fs, params, args)),
        _ => t,
    }
}

/// `subst_v` over a sequence of types.
pub open spec fn subst_list_v(s: Seq<TyV>, params: Seq<Seq<u8>>, args: Seq<TyV>) -> Seq<TyV>
    decreases s, s.len(),
{
    if s.len() == 0 {
        Seq::empty()
    } else {
        seq![subst_v(s[0], params, args)] + subst_list_v(
            s.subrange(1, s.len() as int),
            params,
            args,
        )
    }
}

/// `subst_v` over shape components.
pub open spec fn subst_fields_v(s: Seq<TyFieldV>, params: Seq<Seq<u8>>, args: Seq<TyV>) -> Seq<
    TyFieldV,
>
    decreases s, s.len(),
{
    if s.len() == 0 {
        Seq::empty()
    } else {
        seq![TyFieldV { name: s[0].name, ty: subst_v(s[0].ty, params, args) }] + subst_fields_v(
            s.subrange(1, s.len() as int),
            params,
            args,
        )
    }
}

/// `subst_list_v` is pointwise.
pub proof fn lemma_subst_list_v_index(s: Seq<TyV>, params: Seq<Seq<u8>>, args: Seq<TyV>, i: int)
    ensures
        subst_list_v(s, params, args).len() == s.len(),
        0 <= i < s.len() ==> subst_list_v(s, params, args)[i] == subst_v(s[i], params, args),
    decreases s.len(),
{
    if s.len() > 0 {
        lemma_subst_list_v_index(s.subrange(1, s.len() as int), params, args, i - 1);
    }
}

/// `subst_fields_v` is pointwise.
pub proof fn lemma_subst_fields_v_index(
    s: Seq<TyFieldV>,
    params: Seq<Seq<u8>>,
    args: Seq<TyV>,
    i: int,
)
    ensures
        subst_fields_v(s, params, args).len() == s.len(),
        0 <= i < s.len() ==> subst_fields_v(s, params, args)[i] == (TyFieldV {
            name: s[i].name,
            ty: subst_v(s[i].ty, params, args),
        }),
    decreases s.len(),
{
    if s.len() > 0 {
        lemma_subst_fields_v_index(s.subrange(1, s.len() as int), params, args, i - 1);
    }
}

/// Applies `subst_v` to a type: replaces each type variable that names a
/// parameter by the corresponding argument.
#[verifier::loop_isolation(false)]
pub fn subst_ty(t: &Ty, params: &Vec<Name>, args: &Vec<Ty>) -> (r: Ty)
    ensures
        ty_view(r) == subst_v(ty_view(*t), names_view(params@), tys_view(args@)),
    decreases *t,
{
    proof {
        lemma_tys_view_all(args@);
    }
    match t {
        Ty::Var(n) => {
            match find_param(params, n) {
                Some(i) => {
                    if i < args.len() {
                        clone_ty(&args[i])
                    } else {
                        Ty::Var(copy_name(n))
                    }
                },
                None => Ty::Var(copy_name(n)),
            }
        },
        Ty::Named(n, ts) => {
            let mut out: Vec<Ty> = Vec::new();
            let mut i: usize = 0;
            while i < ts.len()
                invariant
                    i <= ts.len(),
                    out@.len() == i,
                    forall|j: int|
                        0 <= j < i ==> ty_view(out@[j]) == subst_v(
                            ty_view(ts@[j]),
                            names_view(params@),
                            tys_view(args@),
                        ),
                decreases ts.len() - i,
            {
                proof {
                    assert(decreases_to!(ts@ => ts@[i as int]));
                }
                let c = subst_ty(&ts[i], params, args);
                out.push(c);
                i = i + 1;
            }
            proof {
                lemma_tys_view_all(out@);
                lemma_tys_view_all(ts@);
                assert forall|j: int|
                    0 <= j < ts@.len() implies subst_list_v(
                    tys_view(ts@),
                    names_view(params@),
                    tys_view(args@),
                )[j] == tys_view(out@)[j] by {
                    lemma_subst_list_v_index(tys_view(ts@), names_view(params@), tys_view(args@), j);
                }
                lemma_subst_list_v_index(tys_view(ts@), names_view(params@), tys_view(args@), 0);
                assert(tys_view(out@) =~= subst_list_v(
                    tys_view(ts@),
                    names_view(params@),
                    tys_view(args@),
                ));
            }
            Ty::Named(copy_name(n), out)
        },
        Ty::Func(a, r) => Ty::Func(
            Box::new(subst_ty(a, params, args)),
            Box::new(subst_ty(r, params, args)),
        ),
        Ty::Record(fs) => Ty::Record(subst_ty_fields(fs, params, args)),
        Ty::Variants(fs) => Ty::Variants(subst_ty_fields(fs, params, args)),
        Ty::Hole => Ty::Hole,
        Ty::Int => Ty::Int,
        Ty::Float => Ty::Float,
        Ty::Str => Ty::Str,
        Ty::Bool => Ty::Bool,
        Ty::Unit => Ty::Unit,
    }
}

/// Applies `subst_v` to each component of a record or variant shape.
#[verifier::loop_isolation(false)]
fn subst_ty_fields(fs: &Vec<TyField>, params: &Vec<Name>, args: &Vec<Ty>) -> (r: Vec<TyField>)
    ensures
        tfs_view(r@) == subst_fields_v(tfs_view(fs@), names_view(params@), tys_view(args@)),
    decreases fs@,
{
    let mut out: Vec<TyField> = Vec::new();
    let mut i: usize = 0;
    while i < fs.len()
        invariant
            i <= fs.len(),
            out@.len() == i,
            forall|j: int|
                0 <= j < i ==> out@[j].name@ == fs@[j].name@ && ty_view(out@[j].ty) == subst_v(
                    ty_view(fs@[j].ty),
                    names_view(params@),
                    tys_view(args@),
                ),
        decreases fs.len() - i,
    {
        proof {
            assert(decreases_to!(fs@ => fs@[i as int]));
        }
        let c = TyField { name: copy_name(&fs[i].name), ty: subst_ty(&fs[i].ty, params, args) };
        out.push(c);
        i = i + 1;
    }
    proof {
        lemma_tfs_view_all(out@);
        lemma_tfs_view_all(fs@);
        assert forall|j: int|
            0 <= j < fs@.len() implies subst_fields_v(
            tfs_view(fs@),
            names_view(params@),
            tys_view(args@),
        )[j] == tfs_view(out@)[j] by {
            lemma_subst_fields_v_index(tfs_view(fs@), names_view(params@), tys_view(args@), j);
        }
        lemma_subst_fields_v_index(tfs_view(fs@), names_view(params@), tys_view(args@), 0);
        assert(tfs_view(out@) =~= subst_fields_v(
            tfs_view(fs@),
            names_view(params@),
            tys_view(args@),
        ));
    }
    out
}

} // verus!

verus! {

/// Index of the innermost (last) non-variable entry named `n`, or `-1`.
pub open spec fn last_alias_index(s: Seq<TypeEntryV>, n: Seq<u8>) -> int
    decreases s.len(),
{
    if s.len() == 0 {
        -1
    } else if s[s.len() - 1].name == n && !s[s.len() - 1].is_var {
        s.len() - 1
    } else {
        last_alias_index(s.drop_last(), n)
    }
}

/// Index of the first non-variable entry named `n`, or `-1`.
pub open spec fn first_alias_index(s: Seq<TypeEntryV>, n: Seq<u8>) -> int
    decreases s.len(),
{
    if s.len() == 0 {
        -1
    } else if s[0].name == n && !s[0].is_var {
        0
    } else {
        let r = first_alias_index(s.subrange(1, s.len() as int), n);
        if r < 0 {
            -1
        } else {
            1 + r
        }
    }
}

/// What `last_alias_index` finds: the match itself, and that nothing later
/// matches; `-1` means nothing matches at all.
pub proof fn lemma_last_alias_index(s: Seq<TypeEntryV>, n: Seq<u8>)
    ensures
        last_alias_index(s, n) >= 0 ==> {
            let i = last_alias_index(s, n);
            &&& i < s.len()
            &&& s[i].name == n
            &&& !s[i].is_var
            &&& forall|j: int| i < j < s.len() ==> !(s[j].name == n && !s[j].is_var)
        },
        last_alias_index(s, n) == -1 ==> forall|j: int|
            0 <= j < s.len() ==> !(s[j].name == n && !s[j].is_var),
        last_alias_index(s, n) >= -1,
    decreases s.len(),
{
    if s.len() > 0 {
        if s[s.len() - 1].name == n && !s[s.len() - 1].is_var {
        } else {
            lemma_last_alias_index(s.drop_last(), n);
            assert(forall|j: int| 0 <= j < s.len() - 1 ==> s.drop_last()[j] == s[j]);
        }
    }
}

/// What `first_alias_index` finds: the match itself, and that nothing
/// earlier matches; `-1` means nothing matches at all.
pub proof fn lemma_first_alias_index(s: Seq<TypeEntryV>, n: Seq<u8>)
    ensures
        first_alias_index(s, n) >= 0 ==> {
            let i = first_alias_index(s, n);
            &&& i < s.len()
            &&& s[i].name == n
            &&& !s[i].is_var
            &&& forall|j: int| 0 <= j < i ==> !(s[j].name == n && !s[j].is_var)
        },
        first_alias_index(s, n) == -1 ==> forall|j: int|
            0 <= j < s.len() ==> !(s[j].name == n && !s[j].is_var),
        first_alias_index(s, n) >= -1,
    decreases s.len(),
{
    if s.len() > 0 {
        if s[0].name == n && !s[0].is_var {
        } else {
            let t = s.subrange(1, s.len() as int);
            lemma_first_alias_index(t, n);
            assert(forall|j: int| 0 <= j < t.len() ==> t[j] == s[j + 1]);
            let rt = first_alias_index(t, n);
            if rt >= 0 {
                assert(s[rt + 1] == t[rt]);
                assert forall|j: int| 0 <= j < rt + 1 implies !(s[j].name == n && !s[j].is_var) by {
                    if j >= 1 {
                        assert(s[j] == t[j - 1]);
                    }
                }
            } else {
                assert forall|j: int| 0 <= j < s.len() implies !(s[j].name == n && !s[j].is_var) by {
                    if j >= 1 {
                        assert(s[j] == t[j - 1]);
                    }
                }
            }
        }
    }
}

/// Resolves a named type through alias definitions to its underlying
/// shape. Scope entries are searched innermost-first and shadow the
/// ambient environment; each definition is followed at most once, so a
/// cyclic chain stops instead of looping.
pub open spec fn resolve_v(tys: Seq<TypeEntryV>, env: Seq<TypeEntryV>, t: TyV) -> TyV
    decreases tys.len() + env.len(),
{
    match t {
        TyV::Named(n, args) => {
            let i = last_alias_index(tys, n);
            if 0 <= i < tys.len() {
                let a = tys[i];
                resolve_v(tys.remove(i), env, subst_v(a.body, a.params, args))
            } else {
                let k = first_alias_index(env, n);
                if 0 <= k < env.len() {
                    let a = env[k];
                    resolve_v(tys, env.remove(k), subst_v(a.body, a.params, args))
                } else {
                    t
                }
            }
        },
        _ => t,
    }
}

/// Finds the innermost non-variable scope entry named like `n`.
#[verifier::loop_isolation(false)]
fn find_last_alias(tys: &Vec<TypeEntry>, n: &Name) -> (r: Option<usize>)
    ensures
        match r {
            Some(i) => last_alias_index(type_entries_view(tys@), n@) == i as int && i
                < tys@.len(),
            None => last_alias_index(type_entries_view(tys@), n@) == -1,
        },
{
    proof {
        lemma_type_entries_view_all(tys@);
        lemma_last_alias_index(type_entries_view(tys@), n@);
    }
    let ghost sv = type_entries_view(tys@);
    let mut i: usize = tys.len();
    while i > 0
        invariant
            i <= tys.len(),
            forall|j: int| i <= j < tys@.len() ==> !(sv[j].name == n@ && !sv[j].is_var),
        decreases i,
    {
        i = i - 1;
        if !tys[i].is_var && name_eq(&tys[i].name, n) {
            proof {
                assert(sv[i as int].name == n@ && !sv[i as int].is_var);
                lemma_last_alias_index(sv, n@);
                let li = last_alias_index(sv, n@);
                if li < i as int {
                    assert(!(sv[i as int].name == n@ && !sv[i as int].is_var));
                }
                if li > i as int {
                    assert(!(sv[li].name == n@ && !sv[li].is_var));
                }
            }
            return Some(i);
        }
    }
    None
}

/// Finds the first non-variable ambient entry named like `n`.
#[verifier::loop_isolation(false)]
fn find_first_alias(env: &Vec<TypeEntry>, n: &Name) -> (r: Option<usize>)
    ensures
        match r {
            Some(i) => first_alias_index(type_entries_view(env@), n@) == i as int && i
                < env@.len(),
            None => first_alias_index(type_entries_view(env@), n@) == -1,
        },
{
    proof {
        lemma_type_entries_view_all(env@);
        lemma_first_alias_index(type_entries_view(env@), n@);
    }
    let ghost sv = type_entries_view(env@);
    let mut i: usize = 0;
    while i < env.len()
        invariant
            i <= env.len(),
            forall|j: int| 0 <= j < i ==> !(sv[j].name == n@ && !sv[j].is_var),
        decreases env.len() - i,
    {
        if !env[i].is_var && name_eq(&env[i].name, n) {
            proof {
                assert(sv[i as int].name == n@ && !sv[i as int].is_var);
                lemma_first_alias_index(sv, n@);
                let fi = first_alias_index(sv, n@);
                if fi > i as int {
                    assert(!(sv[i as int].name == n@ && !sv[i as int].is_var));
                }
                if fi >= 0 && fi < i as int {
                    assert(!(sv[fi].name == n@ && !sv[fi].is_var));
                }
            }
            return Some(i);
        }
        i = i + 1;
    }
    None
}

/// Copies a list of type-namespace entries.
fn clone_type_entries(s: &Vec<TypeEntry>) -> (r: Vec<TypeEntry>)
    ensures
        type_entries_view(r@) == type_entries_view(s@),
{
    let mut out: Vec<TypeEntry> = Vec::new();
    let mut i: usize = 0;
    while i < s.len()
        invariant
            i <= s.len(),
            out@.len() == i,
            forall|j: int| 0 <= j < i ==> type_entry_view(out@[j]) == type_entry_view(s@[j]),
        decreases s.len() - i,
    {
        let c = clone_type_entry(&s[i]);
        out.push(c);
        i = i + 1;
    }
    proof {
        lemma_type_entries_view_pointwise(out@, s@);
    }
    out
}

/// Two entry sequences with pointwise equal views have equal views.
pub proof fn lemma_type_entries_view_pointwise(a: Seq<TypeEntry>, b: Seq<TypeEntry>)
    requires
        a.len() == b.len(),
        forall|j: int| 0 <= j < a.len() ==> type_entry_view(a[j]) == type_entry_view(b[j]),
    ensures
        type_entries_view(a) == type_entries_view(b),
    decreases a.len(),
{
    if a.len() > 0 {
        let ta = a.subrange(1, a.len() as int);
        let tb = b.subrange(1, b.len() as int);
        assert(forall|j: int|
            0 <= j < ta.len() ==> type_entry_view(ta[j]) == type_entry_view(tb[j]));
        lemma_type_entries_view_pointwise(ta, tb);
    }
}

/// Resolves a type through the scope and ambient alias definitions to its
/// underlying shape.
pub fn resolve_shape(tys: &Vec<TypeEntry>, env: &TypeEnv, t: &Ty) -> (r: Ty)
    ensures
        ty_view(r) == resolve_v(
            type_entries_view(tys@),
            type_entries_view(env.aliases@),
            ty_view(*t),
        ),
{
    let ctys = clone_type_entries(tys);
    let cenv = clone_type_entries(&env.aliases);
    let ct = clone_ty(t);
    resolve_work(ctys, cenv, ct)
}

/// Work loop of `resolve_shape`, consuming each followed definition.
#[verifier::loop_isolation(false)]
fn resolve_work(tys: Vec<TypeEntry>, env: Vec<TypeEntry>, t: Ty) -> (r: Ty)
    ensures
        ty_view(r) == resolve_v(type_entries_view(tys@), type_entries_view(env@), ty_view(t)),
    decreases tys@.len() + env@.len(),
{
    let is_named: bool = match &t {
        Ty::Named(_, _) => true,
        _ => false,
    };
    if !is_named {
        return t;
    }
    match t {
        Ty::Named(n, args) => {
            let ghost tv = type_entries_view(tys@);
            let ghost ev = type_entries_view(env@);
            proof {
                lemma_type_entries_view_all(tys@);
                lemma_type_entries_view_all(env@);
            }
            match find_last_alias(&tys, &n) {
                Some(i) => {
                    let mut tys2 = tys;
                    let a = tys2.remove(i);
                    let t2 = subst_ty(&a.body, &a.params, &args);
                    proof {
                        lemma_type_entries_view_all(tys2@);
                        assert(type_entries_view(tys2@) =~= tv.remove(i as int)) by {
                            lemma_type_entries_view_all(tys2@);
                            lemma_type_entries_view_all(tys@);
                        }
                    }
                    resolve_work(tys2, env, t2)
                },
                None => {
                    match find_first_alias(&env, &n) {
                        Some(k) => {
                            let mut env2 = env;
                            let a = env2.remove(k);
                            let t2 = subst_ty(&a.body, &a.params, &args);
                            proof {
                                assert(type_entries_view(env2@) =~= ev.remove(k as int)) by {
                                    lemma_type_entries_view_all(env2@);
                                    lemma_type_entries_view_all(env@);
                                }
                            }
                            resolve_work(tys, env2, t2)
                        },
                        None => Ty::Named(n, args),
                    }
                },
            }
        },
        _ => t,
    }
}

} // verus!
