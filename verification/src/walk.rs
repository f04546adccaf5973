//! The descent from the root to the queried position: collecting the two
//! scope namespaces on the way down and classifying the syntactic slot
//! the position stands in.

use vstd::prelude::*;

use crate::ast::{
    span_at, ty_view, Alt, Binding, Expr, Ident, Pat, PatField, Ty, TyExpr, TyExprField, TyV,
    TypeBind,
};
use crate::name::{copy_name, Name, names_view};
use crate::scope::{
    ctx_view, entries_view, entry_from_ident, entry_of_ident, lemma_entries_view_push,
    lemma_names_view_push, lemma_type_entries_view_push, prefix_of, prefix_of_v, Ctx, CtxKind,
    CtxKindV, CtxV, Entry, EntryV,
};
use crate::types::{type_entries_view, type_entry_view, TypeEntry, TypeEntryV};

verus! {

/// Index of the first identifier whose span holds `pos`, or `-1`.
pub open spec fn ident_at(s: Seq<Ident>, pos: int, i: int) -> int
    decreases s.len() - i,
{
    if i < 0 || i >= s.len() {
        -1
    } else if span_at(s[i].span, pos) {
        i
    } else {
        ident_at(s, pos, i + 1)
    }
}

/// Finds the first identifier of `s` whose span holds `pos`.
pub fn find_ident_at(s: &Vec<Ident>, pos: usize) -> (r: Option<usize>)
    ensures
        match r {
            Some(i) => ident_at(s@, pos as int, 0) == i as int && i < s@.len(),
            None => ident_at(s@, pos as int, 0) == -1,
        },
{
    let mut i: usize = 0;
    while i < s.len()
        invariant
            i <= s.len(),
            ident_at(s@, pos as int, 0) == ident_at(s@, pos as int, i as int),
        decreases s.len() - i,
    {
        if s[i].span.at(pos) {
            return Some(i);
        }
        i = i + 1;
    }
    None
}

/// Appends the entries of a run of identifiers (binders or constructors).
pub open spec fn push_ident_entries(
    vals: Seq<EntryV>,
    s: Seq<Ident>,
    i: int,
    ctor: bool,
) -> Seq<EntryV>
    decreases s.len() - i,
{
    if i < 0 || i >= s.len() {
        vals
    } else {
        push_ident_entries(vals.push(entry_of_ident(s[i], ctor)), s, i + 1, ctor)
    }
}

/// Pushes an entry for each identifier of `s`.
pub fn push_idents(vals: &mut Vec<Entry>, s: &Vec<Ident>, ctor: bool)
    ensures
        entries_view(final(vals)@) == push_ident_entries(entries_view(old(vals)@), s@, 0, ctor),
{
    let mut i: usize = 0;
    while i < s.len()
        invariant
            i <= s.len(),
            push_ident_entries(entries_view(old(vals)@), s@, 0, ctor) == push_ident_entries(
                entries_view(vals@),
                s@,
                i as int,
                ctor,
            ),
        decreases s.len() - i,
    {
        let e = entry_from_ident(&s[i], ctor);
        proof {
            lemma_entries_view_push(vals@, e);
        }
        vals.push(e);
        i = i + 1;
    }
}

/// Appends the entries a record-pattern's fields introduce: the rename
/// binder where a field has one, else the field name itself, and nothing
/// more.
pub open spec fn push_patfield_entries(vals: Seq<EntryV>, s: Seq<PatField>, i: int) -> Seq<EntryV>
    decreases s.len() - i,
{
    if i < 0 || i >= s.len() {
        vals
    } else {
        let binder = match s[i].bind {
            Some(b) => b,
            None => s[i].name,
        };
        push_patfield_entries(vals.push(entry_of_ident(binder, false)), s, i + 1)
    }
}

/// Pushes an entry for each binder a record-pattern's fields introduce.
pub fn push_patfields(vals: &mut Vec<Entry>, s: &Vec<PatField>)
    ensures
        entries_view(final(vals)@) == push_patfield_entries(entries_view(old(vals)@), s@, 0),
{
    let mut i: usize = 0;
    while i < s.len()
        invariant
            i <= s.len(),
            push_patfield_entries(entries_view(old(vals)@), s@, 0) == push_patfield_entries(
                entries_view(vals@),
                s@,
                i as int,
            ),
        decreases s.len() - i,
    {
        let e = match &s[i].bind {
            Some(b) => entry_from_ident(b, false),
            None => entry_from_ident(&s[i].name, false),
        };
        proof {
            lemma_entries_view_push(vals@, e);
        }
        vals.push(e);
        i = i + 1;
    }
}

/// Appends the entries a pattern binds: a plain binder itself, a
/// constructor pattern's argument binders, a record pattern's field
/// binders and its `@`-alias.
pub open spec fn push_pat_entries(vals: Seq<EntryV>, p: Pat) -> Seq<EntryV> {
    match p {
        Pat::Var { ident } => vals.push(entry_of_ident(ident, false)),
        Pat::Ctor { args, .. } => push_ident_entries(vals, args@, 0, false),
        Pat::Record { alias, fields, .. } => {
            let with_fields = push_patfield_entries(vals, fields@, 0);
            match alias {
                Some(a) => with_fields.push(entry_of_ident(a, false)),
                None => with_fields,
            }
        },
    }
}

/// Pushes an entry for each name a pattern binds.
pub fn push_pat(vals: &mut Vec<Entry>, p: &Pat)
    ensures
        entries_view(final(vals)@) == push_pat_entries(entries_view(old(vals)@), *p),
{
    match p {
        Pat::Var { ident } => {
            let e = entry_from_ident(ident, false);
            proof {
                lemma_entries_view_push(vals@, e);
            }
            vals.push(e);
        },
        Pat::Ctor { args, .. } => {
            push_idents(vals, args, false);
        },
        Pat::Record { alias, fields, .. } => {
            push_patfields(vals, fields);
            match alias {
                Some(a) => {
                    let e = entry_from_ident(a, false);
                    proof {
                        lemma_entries_view_push(vals@, e);
                    }
                    vals.push(e);
                },
                None => {},
            }
        },
    }
}

/// Appends the entries a `let`/`and` group makes visible: every binding's
/// pattern names and, where the group is seen from inside the right-hand
/// side at index `skip` of a binding without arguments, all but that
/// binding's own names — a plain binding is not visible to itself, a
/// function binding (one with arguments) is.
pub open spec fn push_group_entries(
    vals: Seq<EntryV>,
    bs: Seq<Binding>,
    i: int,
    skip: int,
) -> Seq<EntryV>
    decreases bs.len() - i,
{
    if i < 0 || i >= bs.len() {
        vals
    } else if i == skip && bs[i].args@.len() == 0 {
        push_group_entries(vals, bs, i + 1, skip)
    } else {
        push_group_entries(push_pat_entries(vals, bs[i].name), bs, i + 1, skip)
    }
}

/// Pushes the entries a binding group makes visible; see
/// `push_group_entries` for `skip`.
#[verifier::loop_isolation(false)]
pub fn push_group(vals: &mut Vec<Entry>, bs: &Vec<Binding>, skip: Option<usize>)
    ensures
        entries_view(final(vals)@) == push_group_entries(
            entries_view(old(vals)@),
            bs@,
            0,
            match skip {
                Some(k) => k as int,
                None => -1,
            },
        ),
{
    let ghost sk: int = match skip {
        Some(k) => k as int,
        None => -1,
    };
    let mut i: usize = 0;
    while i < bs.len()
        invariant
            i <= bs.len(),
            push_group_entries(entries_view(old(vals)@), bs@, 0, sk) == push_group_entries(
                entries_view(vals@),
                bs@,
                i as int,
                sk,
            ),
        decreases bs.len() - i,
    {
        let ghost pre = entries_view(vals@);
        let is_skip = match skip {
            Some(k) => k == i,
            None => false,
        };
        if is_skip && bs[i].args.len() == 0 {
            proof {
                assert(push_group_entries(pre, bs@, i as int, sk) == push_group_entries(
                    pre,
                    bs@,
                    (i + 1) as int,
                    sk,
                ));
            }
        } else {
            push_pat(vals, &bs[i].name);
            proof {
                assert(push_group_entries(pre, bs@, i as int, sk) == push_group_entries(
                    push_pat_entries(pre, bs@[i as int].name),
                    bs@,
                    (i + 1) as int,
                    sk,
                ));
            }
        }
        i = i + 1;
    }
}

/// Appends the type-variable entries of a run of binder identifiers.
pub open spec fn push_tyvar_entries(tys: Seq<TypeEntryV>, s: Seq<Ident>, i: int) -> Seq<TypeEntryV>
    decreases s.len() - i,
{
    if i < 0 || i >= s.len() {
        tys
    } else {
        let e = TypeEntryV {
            name: s[i].sym.name@,
            params: Seq::empty(),
            body: ty_view(Ty::Hole),
            origin: s[i].span,
            is_var: true,
        };
        push_tyvar_entries(tys.push(e), s, i + 1)
    }
}

/// Pushes a type-variable entry for each binder identifier.
pub fn push_tyvars(tys: &mut Vec<TypeEntry>, s: &Vec<Ident>)
    ensures
        type_entries_view(final(tys)@) == push_tyvar_entries(type_entries_view(old(tys)@), s@, 0),
{
    let mut i: usize = 0;
    while i < s.len()
        invariant
            i <= s.len(),
            push_tyvar_entries(type_entries_view(old(tys)@), s@, 0) == push_tyvar_entries(
                type_entries_view(tys@),
                s@,
                i as int,
            ),
        decreases s.len() - i,
    {
        let e = TypeEntry {
            name: copy_name(&s[i].sym.name),
            params: Vec::new(),
            body: Ty::Hole,
            origin: s[i].span,
            is_var: true,
        };
        proof {
            assert(names_view(e.params@) =~= Seq::<Seq<u8>>::empty());
            lemma_type_entries_view_push(tys@, e);
        }
        tys.push(e);
        i = i + 1;
    }
}

/// The parameter names of a type declaration, in order.
pub open spec fn push_ident_names(acc: Seq<Seq<u8>>, s: Seq<Ident>, i: int) -> Seq<Seq<u8>>
    decreases s.len() - i,
{
    if i < 0 || i >= s.len() {
        acc
    } else {
        push_ident_names(acc.push(s[i].sym.name@), s, i + 1)
    }
}

/// Collects the names of a run of identifiers.
pub fn ident_names(s: &Vec<Ident>) -> (r: Vec<Name>)
    ensures
        names_view(r@) == push_ident_names(Seq::empty(), s@, 0),
{
    let mut out: Vec<Name> = Vec::new();
    proof {
        assert(names_view(out@) =~= Seq::<Seq<u8>>::empty());
    }
    let mut i: usize = 0;
    while i < s.len()
        invariant
            i <= s.len(),
            push_ident_names(Seq::empty(), s@, 0) == push_ident_names(
                names_view(out@),
                s@,
                i as int,
            ),
        decreases s.len() - i,
    {
        let n = copy_name(&s[i].sym.name);
        proof {
            lemma_names_view_push(out@, n);
        }
        out.push(n);
        i = i + 1;
    }
    out
}

/// The type-namespace entry a type declaration introduces.
pub open spec fn decl_type_entry(d: TypeBind) -> TypeEntryV {
    TypeEntryV {
        name: d.name.sym.name@,
        params: push_ident_names(Seq::empty(), d.params@, 0),
        body: ty_view(d.body),
        origin: d.span,
        is_var: false,
    }
}

/// Builds the type-namespace entry of a type declaration.
pub fn decl_entry(d: &TypeBind) -> (r: TypeEntry)
    ensures
        type_entry_view(r) == decl_type_entry(*d),
{
    TypeEntry {
        name: copy_name(&d.name.sym.name),
        params: ident_names(&d.params),
        body: crate::ast::clone_ty(&d.body),
        origin: d.span,
        is_var: false,
    }
}

} // verus!

verus! {

/// The typed prefix of an identifier occurrence at `pos`.
pub open spec fn ident_prefix(i: Ident, pos: int) -> Seq<u8> {
    prefix_of_v(i.sym.name@, i.span.start as int, pos)
}

/// Takes the typed prefix of an identifier occurrence at `pos`.
pub fn ident_prefix_x(i: &Ident, pos: usize) -> (r: Name)
    ensures
        r@ == ident_prefix(*i, pos as int),
{
    prefix_of(&i.sym.name, i.span.start, pos)
}

/// Index of the first expression whose span holds `pos`, or `-1`.
pub open spec fn expr_at_idx(s: Seq<Expr>, pos: int, i: int) -> int
    decreases s.len() - i,
{
    if i < 0 || i >= s.len() {
        -1
    } else if span_at(crate::ast::expr_span(s[i]), pos) {
        i
    } else {
        expr_at_idx(s, pos, i + 1)
    }
}

/// Finds the first expression of `s` whose span holds `pos`.
pub fn find_expr_at(s: &Vec<Expr>, pos: usize) -> (r: Option<usize>)
    ensures
        match r {
            Some(i) => expr_at_idx(s@, pos as int, 0) == i as int && i < s@.len(),
            None => expr_at_idx(s@, pos as int, 0) == -1,
        },
{
    let mut i: usize = 0;
    while i < s.len()
        invariant
            i <= s.len(),
            expr_at_idx(s@, pos as int, 0) == expr_at_idx(s@, pos as int, i as int),
        decreases s.len() - i,
    {
        if s[i].span().at(pos) {
            return Some(i);
        }
        i = i + 1;
    }
    None
}

/// Index of the first binding whose span holds `pos`, or `-1`.
pub open spec fn binding_at(s: Seq<Binding>, pos: int, i: int) -> int
    decreases s.len() - i,
{
    if i < 0 || i >= s.len() {
        -1
    } else if span_at(s[i].span, pos) {
        i
    } else {
        binding_at(s, pos, i + 1)
    }
}

/// Finds the first binding of `s` whose span holds `pos`.
pub fn find_binding_at(s: &Vec<Binding>, pos: usize) -> (r: Option<usize>)
    ensures
        match r {
            Some(i) => binding_at(s@, pos as int, 0) == i as int && i < s@.len(),
            None => binding_at(s@, pos as int, 0) == -1,
        },
{
    let mut i: usize = 0;
    while i < s.len()
        invariant
            i <= s.len(),
            binding_at(s@, pos as int, 0) == binding_at(s@, pos as int, i as int),
        decreases s.len() - i,
    {
        if s[i].span.at(pos) {
            return Some(i);
        }
        i = i + 1;
    }
    None
}

/// Index of the first alternative whose span holds `pos`, or `-1`.
pub open spec fn alt_at(s: Seq<Alt>, pos: int, i: int) -> int
    decreases s.len() - i,
{
    if i < 0 || i >= s.len() {
        -1
    } else if span_at(s[i].span, pos) {
        i
    } else {
        alt_at(s, pos, i + 1)
    }
}

/// Finds the first alternative of `s` whose span holds `pos`.
pub fn find_alt_at(s: &Vec<Alt>, pos: usize) -> (r: Option<usize>)
    ensures
        match r {
            Some(i) => alt_at(s@, pos as int, 0) == i as int && i < s@.len(),
            None => alt_at(s@, pos as int, 0) == -1,
        },
{
    let mut i: usize = 0;
    while i < s.len()
        invariant
            i <= s.len(),
            alt_at(s@, pos as int, 0) == alt_at(s@, pos as int, i as int),
        decreases s.len() - i,
    {
        if s[i].span.at(pos) {
            return Some(i);
        }
        i = i + 1;
    }
    None
}

/// Index of the first record-literal field whose name holds `pos`, or `-1`.
pub open spec fn recfield_name_at(s: Seq<crate::ast::RecField>, pos: int, i: int) -> int
    decreases s.len() - i,
{
    if i < 0 || i >= s.len() {
        -1
    } else if span_at(s[i].name.span, pos) {
        i
    } else {
        recfield_name_at(s, pos, i + 1)
    }
}

/// Finds the first record-literal field whose name holds `pos`.
pub fn find_recfield_name_at(s: &Vec<crate::ast::RecField>, pos: usize) -> (r: Option<usize>)
    ensures
        match r {
            Some(i) => recfield_name_at(s@, pos as int, 0) == i as int && i < s@.len(),
            None => recfield_name_at(s@, pos as int, 0) == -1,
        },
{
    let mut i: usize = 0;
    while i < s.len()
        invariant
            i <= s.len(),
            recfield_name_at(s@, pos as int, 0) == recfield_name_at(s@, pos as int, i as int),
        decreases s.len() - i,
    {
        if s[i].name.span.at(pos) {
            return Some(i);
        }
        i = i + 1;
    }
    None
}

/// Index of the first record-literal field whose value expression holds
/// `pos`, or `-1`.
pub open spec fn recfield_value_at(s: Seq<crate::ast::RecField>, pos: int, i: int) -> int
    decreases s.len() - i,
{
    if i < 0 || i >= s.len() {
        -1
    } else if (match s[i].value {
        Some(v) => span_at(crate::ast::expr_span(v), pos),
        None => false,
    }) {
        i
    } else {
        recfield_value_at(s, pos, i + 1)
    }
}

/// Finds the first record-literal field whose value expression holds `pos`.
pub fn find_recfield_value_at(s: &Vec<crate::ast::RecField>, pos: usize) -> (r: Option<usize>)
    ensures
        match r {
            Some(i) => recfield_value_at(s@, pos as int, 0) == i as int && i < s@.len()
                && s@[i as int].value is Some,
            None => recfield_value_at(s@, pos as int, 0) == -1,
        },
{
    let mut i: usize = 0;
    while i < s.len()
        invariant
            i <= s.len(),
            recfield_value_at(s@, pos as int, 0) == recfield_value_at(s@, pos as int, i as int),
        decreases s.len() - i,
    {
        let hit = match &s[i].value {
            Some(v) => v.span().at(pos),
            None => false,
        };
        if hit {
            return Some(i);
        }
        i = i + 1;
    }
    None
}

/// Index of the first pattern field whose name or rename binder holds
/// `pos`, or `-1`.
pub open spec fn patfield_at(s: Seq<PatField>, pos: int, i: int) -> int
    decreases s.len() - i,
{
    if i < 0 || i >= s.len() {
        -1
    } else if span_at(s[i].name.span, pos) || (match s[i].bind {
        Some(b) => span_at(b.span, pos),
        None => false,
    }) {
        i
    } else {
        patfield_at(s, pos, i + 1)
    }
}

/// Finds the first pattern field whose name or rename binder holds `pos`.
pub fn find_patfield_at(s: &Vec<PatField>, pos: usize) -> (r: Option<usize>)
    ensures
        match r {
            Some(i) => patfield_at(s@, pos as int, 0) == i as int && i < s@.len() && (span_at(
                s@[i as int].name.span,
                pos as int,
            ) || (match s@[i as int].bind {
                Some(b) => span_at(b.span, pos as int),
                None => false,
            })),
            None => patfield_at(s@, pos as int, 0) == -1,
        },
{
    let mut i: usize = 0;
    while i < s.len()
        invariant
            i <= s.len(),
            patfield_at(s@, pos as int, 0) == patfield_at(s@, pos as int, i as int),
        decreases s.len() - i,
    {
        let hit = s[i].name.span.at(pos) || (match &s[i].bind {
            Some(b) => b.span.at(pos),
            None => false,
        });
        if hit {
            return Some(i);
        }
        i = i + 1;
    }
    None
}

/// Index of the first type-syntax node whose span holds `pos`, or `-1`.
pub open spec fn tyexpr_at(s: Seq<TyExpr>, pos: int, i: int) -> int
    decreases s.len() - i,
{
    if i < 0 || i >= s.len() {
        -1
    } else if span_at(crate::ast::tyexpr_span(s[i]), pos) {
        i
    } else {
        tyexpr_at(s, pos, i + 1)
    }
}

/// Finds the first type-syntax node of `s` whose span holds `pos`.
pub fn find_tyexpr_at(s: &Vec<TyExpr>, pos: usize) -> (r: Option<usize>)
    ensures
        match r {
            Some(i) => tyexpr_at(s@, pos as int, 0) == i as int && i < s@.len(),
            None => tyexpr_at(s@, pos as int, 0) == -1,
        },
{
    let mut i: usize = 0;
    while i < s.len()
        invariant
            i <= s.len(),
            tyexpr_at(s@, pos as int, 0) == tyexpr_at(s@, pos as int, i as int),
        decreases s.len() - i,
    {
        if s[i].span().at(pos) {
            return Some(i);
        }
        i = i + 1;
    }
    None
}

/// Index of the first record-shape field whose name span holds `pos`, or `-1`.
pub open spec fn tyfield_name_at(s: Seq<TyExprField>, pos: int, i: int) -> int
    decreases s.len() - i,
{
    if i < 0 || i >= s.len() {
        -1
    } else if span_at(s[i].name_span, pos) {
        i
    } else {
        tyfield_name_at(s, pos, i + 1)
    }
}

/// Finds the first record-shape field whose name span holds `pos`.
pub fn find_tyfield_name_at(s: &Vec<TyExprField>, pos: usize) -> (r: Option<usize>)
    ensures
        match r {
            Some(i) => tyfield_name_at(s@, pos as int, 0) == i as int && i < s@.len(),
            None => tyfield_name_at(s@, pos as int, 0) == -1,
        },
{
    let mut i: usize = 0;
    while i < s.len()
        invariant
            i <= s.len(),
            tyfield_name_at(s@, pos as int, 0) == tyfield_name_at(s@, pos as int, i as int),
        decreases s.len() - i,
    {
        if s[i].name_span.at(pos) {
            return Some(i);
        }
        i = i + 1;
    }
    None
}

/// Index of the first record-shape field whose type syntax holds `pos`, or `-1`.
pub open spec fn tyfield_ty_at(s: Seq<TyExprField>, pos: int, i: int) -> int
    decreases s.len() - i,
{
    if i < 0 || i >= s.len() {
        -1
    } else if span_at(crate::ast::tyexpr_span(s[i].ty), pos) {
        i
    } else {
        tyfield_ty_at(s, pos, i + 1)
    }
}

/// Finds the first record-shape field whose type syntax holds `pos`.
pub fn find_tyfield_ty_at(s: &Vec<TyExprField>, pos: usize) -> (r: Option<usize>)
    ensures
        match r {
            Some(i) => tyfield_ty_at(s@, pos as int, 0) == i as int && i < s@.len(),
            None => tyfield_ty_at(s@, pos as int, 0) == -1,
        },
{
    let mut i: usize = 0;
    while i < s.len()
        invariant
            i <= s.len(),
            tyfield_ty_at(s@, pos as int, 0) == tyfield_ty_at(s@, pos as int, i as int),
        decreases s.len() - i,
    {
        if s[i].ty.span().at(pos) {
            return Some(i);
        }
        i = i + 1;
    }
    None
}

/// The field names a record pattern has already consumed, leaving out the
/// slot at `skip`: each field's name and any rename binder's name.
pub open spec fn consumed_names(acc: Seq<Seq<u8>>, s: Seq<PatField>, i: int, skip: int) -> Seq<
    Seq<u8>,
>
    decreases s.len() - i,
{
    if i < 0 || i >= s.len() {
        acc
    } else if i == skip {
        consumed_names(acc, s, i + 1, skip)
    } else {
        let acc1 = acc.push(s[i].name.sym.name@);
        let acc2 = match s[i].bind {
            Some(b) => acc1.push(b.sym.name@),
            None => acc1,
        };
        consumed_names(acc2, s, i + 1, skip)
    }
}

/// Collects the names a record pattern has already consumed; `skip` leaves
/// out the slot under the cursor, `alias` adds the `@`-alias binder.
#[verifier::loop_isolation(false)]
pub fn consumed(s: &Vec<PatField>, skip: Option<usize>, alias: &Option<Ident>) -> (r: Vec<Name>)
    ensures
        names_view(r@) == (match *alias {
            Some(a) => consumed_names(
                Seq::empty(),
                s@,
                0,
                match skip {
                    Some(k) => k as int,
                    None => -1,
                },
            ).push(a.sym.name@),
            None => consumed_names(
                Seq::empty(),
                s@,
                0,
                match skip {
                    Some(k) => k as int,
                    None => -1,
                },
            ),
        }),
{
    let ghost sk: int = match skip {
        Some(k) => k as int,
        None => -1,
    };
    let mut out: Vec<Name> = Vec::new();
    proof {
        assert(names_view(out@) =~= Seq::<Seq<u8>>::empty());
    }
    let mut i: usize = 0;
    while i < s.len()
        invariant
            i <= s.len(),
            consumed_names(Seq::empty(), s@, 0, sk) == consumed_names(
                names_view(out@),
                s@,
                i as int,
                sk,
            ),
        decreases s.len() - i,
    {
        let is_skip = match skip {
            Some(k) => k == i,
            None => false,
        };
        if !is_skip {
            let n = copy_name(&s[i].name.sym.name);
            proof {
                lemma_names_view_push(out@, n);
            }
            out.push(n);
            match &s[i].bind {
                Some(b) => {
                    let bn = copy_name(&b.sym.name);
                    proof {
                        lemma_names_view_push(out@, bn);
                    }
                    out.push(bn);
                },
                None => {},
            }
        }
        i = i + 1;
    }
    match alias {
        Some(a) => {
            let an = copy_name(&a.sym.name);
            proof {
                lemma_names_view_push(out@, an);
            }
            out.push(an);
        },
        None => {},
    }
    out
}

} // verus!

verus! {

/// Classifies a position inside a pattern. A plain binder or a
/// constructor-argument binder is an open-expression slot (a binder name
/// is free choice); a constructor name is an alternative-head slot over
/// `scrut`; a record pattern is a pattern-field slot whose pool excludes
/// the names the pattern has already consumed.
pub open spec fn cls_pat(p: Pat, pos: int, vals: Seq<EntryV>, tys: Seq<TypeEntryV>, scrut: TyV) -> CtxV {
    match p {
        Pat::Var { ident } => CtxV {
            vals,
            tys,
            kind: CtxKindV::OpenExpr { prefix: ident_prefix(ident, pos) },
        },
        Pat::Ctor { span, name, args } => {
            if span_at(name.span, pos) {
                CtxV { vals, tys, kind: CtxKindV::AltHead { prefix: ident_prefix(name, pos), scrut } }
            } else {
                let k = ident_at(args@, pos, 0);
                if 0 <= k < args@.len() {
                    CtxV {
                        vals,
                        tys,
                        kind: CtxKindV::OpenExpr { prefix: ident_prefix(args@[k], pos) },
                    }
                } else {
                    CtxV { vals, tys, kind: CtxKindV::AltHead { prefix: Seq::empty(), scrut } }
                }
            }
        },
        Pat::Record { span, ty, alias, fields } => {
            let k = patfield_at(fields@, pos, 0);
            if 0 <= k < fields@.len() {
                let f = fields@[k];
                let pref = if span_at(f.name.span, pos) {
                    ident_prefix(f.name, pos)
                } else {
                    ident_prefix(f.bind->0, pos)
                };
                CtxV {
                    vals,
                    tys,
                    kind: CtxKindV::PatternSlot {
                        prefix: pref,
                        expected: ty_view(ty),
                        consumed: consumed_all(fields@, k, alias),
                    },
                }
            } else if (match alias {
                Some(a) => span_at(a.span, pos),
                None => false,
            }) {
                CtxV {
                    vals,
                    tys,
                    kind: CtxKindV::PatternSlot {
                        prefix: ident_prefix(alias->0, pos),
                        expected: ty_view(ty),
                        consumed: consumed_names(Seq::empty(), fields@, 0, -1),
                    },
                }
            } else {
                CtxV {
                    vals,
                    tys,
                    kind: CtxKindV::PatternSlot {
                        prefix: Seq::empty(),
                        expected: ty_view(ty),
                        consumed: consumed_all(fields@, -1, alias),
                    },
                }
            }
        },
    }
}

/// The consumed names of a record pattern, alias binder included.
pub open spec fn consumed_all(fields: Seq<PatField>, skip: int, alias: Option<Ident>) -> Seq<
    Seq<u8>,
> {
    match alias {
        Some(a) => consumed_names(Seq::empty(), fields, 0, skip).push(a.sym.name@),
        None => consumed_names(Seq::empty(), fields, 0, skip),
    }
}

/// Classifies a position inside a pattern; see `cls_pat`.
pub fn cls_pat_x(p: &Pat, pos: usize, vals: Vec<Entry>, tys: Vec<TypeEntry>, scrut: &Ty) -> (r: Ctx)
    ensures
        ctx_view(r) == cls_pat(
            *p,
            pos as int,
            entries_view(vals@),
            type_entries_view(tys@),
            ty_view(*scrut),
        ),
{
    match p {
        Pat::Var { ident } => {
            let prefix = ident_prefix_x(ident, pos);
            Ctx { vals, tys, kind: CtxKind::OpenExpr { prefix } }
        },
        Pat::Ctor { span, name, args } => {
            if name.span.at(pos) {
                let prefix = ident_prefix_x(name, pos);
                let scrut2 = crate::ast::clone_ty(scrut);
                Ctx { vals, tys, kind: CtxKind::AltHead { prefix, scrut: scrut2 } }
            } else {
                match find_ident_at(args, pos) {
                    Some(k) => {
                        let prefix = ident_prefix_x(&args[k], pos);
                        Ctx { vals, tys, kind: CtxKind::OpenExpr { prefix } }
                    },
                    None => {
                        let scrut2 = crate::ast::clone_ty(scrut);
                        Ctx {
                            vals,
                            tys,
                            kind: CtxKind::AltHead { prefix: Vec::new(), scrut: scrut2 },
                        }
                    },
                }
            }
        },
        Pat::Record { span, ty, alias, fields } => {
            match find_patfield_at(fields, pos) {
                Some(k) => {
                    let prefix = if fields[k].name.span.at(pos) {
                        ident_prefix_x(&fields[k].name, pos)
                    } else {
                        match &fields[k].bind {
                            Some(b) => ident_prefix_x(b, pos),
                            None => Vec::new(),
                        }
                    };
                    let cons = consumed(fields, Some(k), alias);
                    let exp = crate::ast::clone_ty(ty);
                    Ctx {
                        vals,
                        tys,
                        kind: CtxKind::PatternSlot { prefix, expected: exp, consumed: cons },
                    }
                },
                None => {
                    let alias_hit = match alias {
                        Some(a) => a.span.at(pos),
                        None => false,
                    };
                    if alias_hit {
                        let prefix = match alias {
                            Some(a) => ident_prefix_x(a, pos),
                            None => Vec::new(),
                        };
                        let cons = consumed(fields, None, &None);
                        let exp = crate::ast::clone_ty(ty);
                        Ctx {
                            vals,
                            tys,
                            kind: CtxKind::PatternSlot { prefix, expected: exp, consumed: cons },
                        }
                    } else {
                        let cons = consumed(fields, None, alias);
                        let exp = crate::ast::clone_ty(ty);
                        Ctx {
                            vals,
                            tys,
                            kind: CtxKind::PatternSlot {
                                prefix: Vec::new(),
                                expected: exp,
                                consumed: cons,
                            },
                        }
                    }
                },
            }
        },
    }
}

/// Classifies a position inside type syntax: every slot is a type
/// context; a `forall` brings its variable binders into the type
/// namespace for its body.
pub open spec fn cls_tyexpr(te: TyExpr, pos: int, vals: Seq<EntryV>, tys: Seq<TypeEntryV>) -> CtxV
    decreases te,
{
    match te {
        TyExpr::Ref { span, name } => CtxV {
            vals,
            tys,
            kind: CtxKindV::TypeCtx { prefix: prefix_of_v(name@, span.start as int, pos) },
        },
        TyExpr::Func { span, arg, ret } => {
            if span_at(crate::ast::tyexpr_span(*arg), pos) {
                cls_tyexpr(*arg, pos, vals, tys)
            } else if span_at(crate::ast::tyexpr_span(*ret), pos) {
                cls_tyexpr(*ret, pos, vals, tys)
            } else {
                CtxV { vals, tys, kind: CtxKindV::TypeCtx { prefix: Seq::empty() } }
            }
        },
        TyExpr::App { span, func, args } => {
            if span_at(crate::ast::tyexpr_span(*func), pos) {
                cls_tyexpr(*func, pos, vals, tys)
            } else {
                let k = tyexpr_at(args@, pos, 0);
                if 0 <= k < args@.len() {
                    cls_tyexpr(args@[k], pos, vals, tys)
                } else {
                    CtxV { vals, tys, kind: CtxKindV::TypeCtx { prefix: Seq::empty() } }
                }
            }
        },
        TyExpr::Record { span, fields } => {
            let k = tyfield_name_at(fields@, pos, 0);
            if 0 <= k < fields@.len() {
                CtxV {
                    vals,
                    tys,
                    kind: CtxKindV::TypeCtx {
                        prefix: prefix_of_v(fields@[k].name@, fields@[k].name_span.start as int, pos),
                    },
                }
            } else {
                let m = tyfield_ty_at(fields@, pos, 0);
                if 0 <= m < fields@.len() {
                    cls_tyexpr(fields@[m].ty, pos, vals, tys)
                } else {
                    CtxV { vals, tys, kind: CtxKindV::TypeCtx { prefix: Seq::empty() } }
                }
            }
        },
        TyExpr::Forall { span, vars, body } => {
            let k = ident_at(vars@, pos, 0);
            if 0 <= k < vars@.len() {
                CtxV {
                    vals,
                    tys,
                    kind: CtxKindV::TypeCtx { prefix: ident_prefix(vars@[k], pos) },
                }
            } else if span_at(crate::ast::tyexpr_span(*body), pos) {
                cls_tyexpr(*body, pos, vals, push_tyvar_entries(tys, vars@, 0))
            } else {
                CtxV { vals, tys, kind: CtxKindV::TypeCtx { prefix: Seq::empty() } }
            }
        },
    }
}

/// Classifies a position inside type syntax; see `cls_tyexpr`.
pub fn cls_tyexpr_x(te: &TyExpr, pos: usize, vals: Vec<Entry>, tys: Vec<TypeEntry>) -> (r: Ctx)
    ensures
        ctx_view(r) == cls_tyexpr(*te, pos as int, entries_view(vals@), type_entries_view(tys@)),
    decreases *te,
{
    match te {
        TyExpr::Ref { span, name } => {
            let prefix = prefix_of(name, span.start, pos);
            Ctx { vals, tys, kind: CtxKind::TypeCtx { prefix } }
        },
        TyExpr::Func { span, arg, ret } => {
            if arg.span().at(pos) {
                cls_tyexpr_x(arg, pos, vals, tys)
            } else if ret.span().at(pos) {
                cls_tyexpr_x(ret, pos, vals, tys)
            } else {
                Ctx { vals, tys, kind: CtxKind::TypeCtx { prefix: Vec::new() } }
            }
        },
        TyExpr::App { span, func, args } => {
            if func.span().at(pos) {
                cls_tyexpr_x(func, pos, vals, tys)
            } else {
                match find_tyexpr_at(args, pos) {
                    Some(k) => {
                        proof {
                            assert(decreases_to!(args@ => args@[k as int]));
                        }
                        cls_tyexpr_x(&args[k], pos, vals, tys)
                    },
                    None => Ctx { vals, tys, kind: CtxKind::TypeCtx { prefix: Vec::new() } },
                }
            }
        },
        TyExpr::Record { span, fields } => {
            match find_tyfield_name_at(fields, pos) {
                Some(k) => {
                    let prefix = prefix_of(&fields[k].name, fields[k].name_span.start, pos);
                    Ctx { vals, tys, kind: CtxKind::TypeCtx { prefix } }
                },
                None => {
                    match find_tyfield_ty_at(fields, pos) {
                        Some(m) => {
                            proof {
                                assert(decreases_to!(fields@ => fields@[m as int]));
                            }
                            cls_tyexpr_x(&fields[m].ty, pos, vals, tys)
                        },
                        None => Ctx {
                            vals,
                            tys,
                            kind: CtxKind::TypeCtx { prefix: Vec::new() },
                        },
                    }
                },
            }
        },
        TyExpr::Forall { span, vars, body } => {
            match find_ident_at(vars, pos) {
                Some(k) => {
                    let prefix = ident_prefix_x(&vars[k], pos);
                    Ctx { vals, tys, kind: CtxKind::TypeCtx { prefix } }
                },
                None => {
                    if body.span().at(pos) {
                        let mut tys = tys;
                        push_tyvars(&mut tys, vars);
                        cls_tyexpr_x(body, pos, vals, tys)
                    } else {
                        Ctx { vals, tys, kind: CtxKind::TypeCtx { prefix: Vec::new() } }
                    }
                },
            }
        },
    }
}

} // verus!

verus! {

/// Classifies the syntactic slot at `pos`, walking from `e` down into the
/// child that holds the position and collecting both scope namespaces on
/// the way. Where no child holds the position the enclosing node itself is
/// the slot: an open expression with an empty prefix, so completion at
/// inter-token whitespace still sees the scope there.
pub open spec fn cls_expr(e: Expr, pos: int, vals: Seq<EntryV>, tys: Seq<TypeEntryV>) -> CtxV
    decreases e,
{
    match e {
        Expr::Lit { .. } => CtxV { vals, tys, kind: CtxKindV::OpenExpr { prefix: Seq::empty() } },
        Expr::Error { .. } => CtxV { vals, tys, kind: CtxKindV::OpenExpr { prefix: Seq::empty() } },
        Expr::Var { ident } => CtxV {
            vals,
            tys,
            kind: CtxKindV::OpenExpr { prefix: ident_prefix(ident, pos) },
        },
        Expr::Import { span, path_span, path } => CtxV {
            vals,
            tys,
            kind: CtxKindV::ImportPath { path: path@ },
        },
        Expr::App { span, ty, func, args } => {
            if span_at(crate::ast::expr_span(*func), pos) {
                cls_expr(*func, pos, vals, tys)
            } else {
                let k = expr_at_idx(args@, pos, 0);
                if 0 <= k < args@.len() {
                    cls_expr(args@[k], pos, vals, tys)
                } else {
                    CtxV { vals, tys, kind: CtxKindV::OpenExpr { prefix: Seq::empty() } }
                }
            }
        },
        Expr::Lambda { span, ty, params, body } => {
            let k = ident_at(params@, pos, 0);
            if 0 <= k < params@.len() {
                CtxV {
                    vals,
                    tys,
                    kind: CtxKindV::OpenExpr { prefix: ident_prefix(params@[k], pos) },
                }
            } else if span_at(crate::ast::expr_span(*body), pos) {
                cls_expr(*body, pos, push_ident_entries(vals, params@, 0, false), tys)
            } else {
                CtxV { vals, tys, kind: CtxKindV::OpenExpr { prefix: Seq::empty() } }
            }
        },
        Expr::Record { span, ty, fields } => {
            let k = recfield_name_at(fields@, pos, 0);
            if 0 <= k < fields@.len() {
                CtxV {
                    vals,
                    tys,
                    kind: CtxKindV::OpenExpr { prefix: ident_prefix(fields@[k].name, pos) },
                }
            } else {
                let m = recfield_value_at(fields@, pos, 0);
                if 0 <= m < fields@.len() {
                    match fields@[m].value {
                        Some(v) => cls_expr(v, pos, vals, tys),
                        None => CtxV { vals, tys, kind: CtxKindV::OpenExpr { prefix: Seq::empty() } },
                    }
                } else {
                    CtxV { vals, tys, kind: CtxKindV::OpenExpr { prefix: Seq::empty() } }
                }
            }
        },
        Expr::FieldAccess { span, recv, field } => {
            if span_at(crate::ast::expr_span(*recv), pos) {
                cls_expr(*recv, pos, vals, tys)
            } else {
                let prefix = if span_at(field.span, pos) {
                    ident_prefix(field, pos)
                } else {
                    Seq::empty()
                };
                let rn = match *recv {
                    Expr::Var { ident } => Some(ident.sym.name@),
                    _ => None,
                };
                CtxV {
                    vals,
                    tys,
                    kind: CtxKindV::FieldTail {
                        prefix,
                        recv: ty_view(crate::ast::ty_spec(*recv)),
                        recv_name: rn,
                    },
                }
            }
        },
        Expr::Let { span, bindings, body } => {
            let k = binding_at(bindings@, pos, 0);
            if 0 <= k < bindings@.len() {
                let b = bindings@[k];
                if span_at(crate::ast::pat_span(b.name), pos) {
                    cls_pat(b.name, pos, vals, tys, TyV::Hole)
                } else {
                    let ai = ident_at(b.args@, pos, 0);
                    if 0 <= ai < b.args@.len() {
                        CtxV {
                            vals,
                            tys,
                            kind: CtxKindV::OpenExpr { prefix: ident_prefix(b.args@[ai], pos) },
                        }
                    } else if (match b.sig {
                        Some(te) => span_at(crate::ast::tyexpr_span(te), pos),
                        None => false,
                    }) {
                        cls_tyexpr(b.sig->0, pos, vals, tys)
                    } else {
                        let vals2 = push_ident_entries(
                            push_group_entries(vals, bindings@, 0, k),
                            b.args@,
                            0,
                            false,
                        );
                        if span_at(crate::ast::expr_span(b.expr), pos) {
                            cls_expr(b.expr, pos, vals2, tys)
                        } else {
                            CtxV { vals: vals2, tys, kind: CtxKindV::OpenExpr { prefix: Seq::empty() } }
                        }
                    }
                }
            } else {
                let vals2 = push_group_entries(vals, bindings@, 0, -1);
                if span_at(crate::ast::expr_span(*body), pos) {
                    cls_expr(*body, pos, vals2, tys)
                } else {
                    CtxV { vals: vals2, tys, kind: CtxKindV::OpenExpr { prefix: Seq::empty() } }
                }
            }
        },
        Expr::Match { span, scrutinee, alts } => {
            if span_at(crate::ast::expr_span(*scrutinee), pos) {
                cls_expr(*scrutinee, pos, vals, tys)
            } else {
                let k = alt_at(alts@, pos, 0);
                if 0 <= k < alts@.len() {
                    let a = alts@[k];
                    if span_at(crate::ast::pat_span(a.pat), pos) {
                        cls_pat(a.pat, pos, vals, tys, ty_view(crate::ast::ty_spec(*scrutinee)))
                    } else {
                        let vals2 = push_pat_entries(vals, a.pat);
                        if span_at(crate::ast::expr_span(a.expr), pos) {
                            cls_expr(a.expr, pos, vals2, tys)
                        } else {
                            CtxV { vals: vals2, tys, kind: CtxKindV::OpenExpr { prefix: Seq::empty() } }
                        }
                    }
                } else {
                    CtxV { vals, tys, kind: CtxKindV::OpenExpr { prefix: Seq::empty() } }
                }
            }
        },
        Expr::TypeDecl { span, decl, body } => {
            if span_at(decl.name.span, pos) {
                CtxV { vals, tys, kind: CtxKindV::TypeCtx { prefix: ident_prefix(decl.name, pos) } }
            } else {
                let ai = ident_at(decl.params@, pos, 0);
                if 0 <= ai < decl.params@.len() {
                    CtxV {
                        vals,
                        tys,
                        kind: CtxKindV::TypeCtx { prefix: ident_prefix(decl.params@[ai], pos) },
                    }
                } else if (match decl.rhs {
                    Some(te) => span_at(crate::ast::tyexpr_span(te), pos),
                    None => false,
                }) {
                    cls_tyexpr(
                        decl.rhs->0,
                        pos,
                        vals,
                        push_tyvar_entries(tys.push(decl_type_entry(decl)), decl.params@, 0),
                    )
                } else {
                    let vals2 = push_ident_entries(vals, decl.ctors@, 0, true);
                    let tys2 = tys.push(decl_type_entry(decl));
                    if span_at(crate::ast::expr_span(*body), pos) {
                        cls_expr(*body, pos, vals2, tys2)
                    } else {
                        CtxV { vals: vals2, tys: tys2, kind: CtxKindV::OpenExpr { prefix: Seq::empty() } }
                    }
                }
            }
        },
    }
}

/// Classifies the syntactic slot at `pos` under `e`; see `cls_expr`.
pub fn cls_expr_x(e: &Expr, pos: usize, vals: Vec<Entry>, tys: Vec<TypeEntry>) -> (r: Ctx)
    ensures
        ctx_view(r) == cls_expr(*e, pos as int, entries_view(vals@), type_entries_view(tys@)),
    decreases *e,
{
    match e {
        Expr::Lit { .. } => Ctx { vals, tys, kind: CtxKind::OpenExpr { prefix: Vec::new() } },
        Expr::Error { .. } => Ctx { vals, tys, kind: CtxKind::OpenExpr { prefix: Vec::new() } },
        Expr::Var { ident } => {
            let prefix = ident_prefix_x(ident, pos);
            Ctx { vals, tys, kind: CtxKind::OpenExpr { prefix } }
        },
        Expr::Import { span, path_span, path } => {
            let p = copy_name(path);
            Ctx { vals, tys, kind: CtxKind::ImportPath { path: p } }
        },
        Expr::App { span, ty, func, args } => {
            if func.span().at(pos) {
                cls_expr_x(func, pos, vals, tys)
            } else {
                match find_expr_at(args, pos) {
                    Some(k) => {
                        proof {
                            assert(decreases_to!(args@ => args@[k as int]));
                        }
                        cls_expr_x(&args[k], pos, vals, tys)
                    },
                    None => Ctx { vals, tys, kind: CtxKind::OpenExpr { prefix: Vec::new() } },
                }
            }
        },
        Expr::Lambda { span, ty, params, body } => {
            match find_ident_at(params, pos) {
                Some(k) => {
                    let prefix = ident_prefix_x(&params[k], pos);
                    Ctx { vals, tys, kind: CtxKind::OpenExpr { prefix } }
                },
                None => {
                    if body.span().at(pos) {
                        let mut vals = vals;
                        push_idents(&mut vals, params, false);
                        cls_expr_x(body, pos, vals, tys)
                    } else {
                        Ctx { vals, tys, kind: CtxKind::OpenExpr { prefix: Vec::new() } }
                    }
                },
            }
        },
        Expr::Record { span, ty, fields } => {
            match find_recfield_name_at(fields, pos) {
                Some(k) => {
                    let prefix = ident_prefix_x(&fields[k].name, pos);
                    Ctx { vals, tys, kind: CtxKind::OpenExpr { prefix } }
                },
                None => {
                    match find_recfield_value_at(fields, pos) {
                        Some(m) => {
                            match &fields[m].value {
                                Some(v) => {
                                    proof {
                                        assert(decreases_to!(fields@ => fields@[m as int]));
                                    }
                                    cls_expr_x(v, pos, vals, tys)
                                },
                                None => Ctx {
                                    vals,
                                    tys,
                                    kind: CtxKind::OpenExpr { prefix: Vec::new() },
                                },
                            }
                        },
                        None => Ctx { vals, tys, kind: CtxKind::OpenExpr { prefix: Vec::new() } },
                    }
                },
            }
        },
        Expr::FieldAccess { span, recv, field } => {
            if recv.span().at(pos) {
                cls_expr_x(recv, pos, vals, tys)
            } else {
                let prefix = if field.span.at(pos) {
                    ident_prefix_x(field, pos)
                } else {
                    Vec::new()
                };
                let rn: Option<Name> = match &**recv {
                    Expr::Var { ident } => Some(copy_name(&ident.sym.name)),
                    _ => None,
                };
                let rt = crate::ast::clone_ty(crate::ast::expr_ty(recv));
                Ctx { vals, tys, kind: CtxKind::FieldTail { prefix, recv: rt, recv_name: rn } }
            }
        },
        Expr::Let { span, bindings, body } => {
            match find_binding_at(bindings, pos) {
                Some(k) => {
                    proof {
                        assert(decreases_to!(bindings@ => bindings@[k as int]));
                    }
                    let b = &bindings[k];
                    if b.name.span().at(pos) {
                        cls_pat_x(&b.name, pos, vals, tys, &Ty::Hole)
                    } else {
                        match find_ident_at(&b.args, pos) {
                            Some(ai) => {
                                let prefix = ident_prefix_x(&b.args[ai], pos);
                                Ctx { vals, tys, kind: CtxKind::OpenExpr { prefix } }
                            },
                            None => {
                                let sig_hit = match &b.sig {
                                    Some(te) => te.span().at(pos),
                                    None => false,
                                };
                                if sig_hit {
                                    match &b.sig {
                                        Some(te) => cls_tyexpr_x(te, pos, vals, tys),
                                        None => Ctx {
                                            vals,
                                            tys,
                                            kind: CtxKind::OpenExpr { prefix: Vec::new() },
                                        },
                                    }
                                } else {
                                    let mut vals = vals;
                                    push_group(&mut vals, bindings, Some(k));
                                    push_idents(&mut vals, &b.args, false);
                                    if b.expr.span().at(pos) {
                                        cls_expr_x(&b.expr, pos, vals, tys)
                                    } else {
                                        Ctx {
                                            vals,
                                            tys,
                                            kind: CtxKind::OpenExpr { prefix: Vec::new() },
                                        }
                                    }
                                }
                            },
                        }
                    }
                },
                None => {
                    let mut vals = vals;
                    push_group(&mut vals, bindings, None);
                    if body.span().at(pos) {
                        cls_expr_x(body, pos, vals, tys)
                    } else {
                        Ctx { vals, tys, kind: CtxKind::OpenExpr { prefix: Vec::new() } }
                    }
                },
            }
        },
        Expr::Match { span, scrutinee, alts } => {
            if scrutinee.span().at(pos) {
                cls_expr_x(scrutinee, pos, vals, tys)
            } else {
                match find_alt_at(alts, pos) {
                    Some(k) => {
                        proof {
                            assert(decreases_to!(alts@ => alts@[k as int]));
                        }
                        let a = &alts[k];
                        if a.pat.span().at(pos) {
                            cls_pat_x(&a.pat, pos, vals, tys, crate::ast::expr_ty(scrutinee))
                        } else {
                            let mut vals = vals;
                            push_pat(&mut vals, &a.pat);
                            if a.expr.span().at(pos) {
                                cls_expr_x(&a.expr, pos, vals, tys)
                            } else {
                                Ctx { vals, tys, kind: CtxKind::OpenExpr { prefix: Vec::new() } }
                            }
                        }
                    },
                    None => Ctx { vals, tys, kind: CtxKind::OpenExpr { prefix: Vec::new() } },
                }
            }
        },
        Expr::TypeDecl { span, decl, body } => {
            if decl.name.span.at(pos) {
                let prefix = ident_prefix_x(&decl.name, pos);
                Ctx { vals, tys, kind: CtxKind::TypeCtx { prefix } }
            } else {
                match find_ident_at(&decl.params, pos) {
                    Some(ai) => {
                        let prefix = ident_prefix_x(&decl.params[ai], pos);
                        Ctx { vals, tys, kind: CtxKind::TypeCtx { prefix } }
                    },
                    None => {
                        let rhs_hit = match &decl.rhs {
                            Some(te) => te.span().at(pos),
                            None => false,
                        };
                        if rhs_hit {
                            let mut tys = tys;
                            let de = decl_entry(decl);
                            proof {
                                lemma_type_entries_view_push(tys@, de);
                            }
                            tys.push(de);
                            push_tyvars(&mut tys, &decl.params);
                            match &decl.rhs {
                                Some(te) => cls_tyexpr_x(te, pos, vals, tys),
                                None => Ctx {
                                    vals,
                                    tys,
                                    kind: CtxKind::OpenExpr { prefix: Vec::new() },
                                },
                            }
                        } else {
                            let mut vals = vals;
                            let mut tys = tys;
                            push_idents(&mut vals, &decl.ctors, true);
                            let de = decl_entry(decl);
                            proof {
                                lemma_type_entries_view_push(tys@, de);
                            }
                            tys.push(de);
                            if body.span().at(pos) {
                                cls_expr_x(body, pos, vals, tys)
                            } else {
                                Ctx { vals, tys, kind: CtxKind::OpenExpr { prefix: Vec::new() } }
                            }
                        }
                    },
                }
            }
        },
    }
}

/// Classifies the syntactic slot at `pos` in the whole tree: the context
/// of the innermost node holding the position, with the scope collected on
/// the way down, or a not-found context when the position lies outside the
/// tree.
pub open spec fn classify_v(e: Expr, pos: int) -> CtxV {
    if span_at(crate::ast::expr_span(e), pos) {
        cls_expr(e, pos, Seq::empty(), Seq::empty())
    } else {
        CtxV { vals: Seq::empty(), tys: Seq::empty(), kind: CtxKindV::NotFound }
    }
}

/// Classifies the syntactic slot at `pos` in the whole tree; see
/// `classify_v`.
pub fn classify(e: &Expr, pos: usize) -> (r: Ctx)
    ensures
        ctx_view(r) == classify_v(*e, pos as int),
{
    proof {
        assert(entries_view(Seq::<Entry>::empty()) =~= Seq::<EntryV>::empty());
        assert(type_entries_view(Seq::<TypeEntry>::empty()) =~= Seq::<TypeEntryV>::empty());
    }
    if e.span().at(pos) {
        let vals: Vec<Entry> = Vec::new();
        let tys: Vec<TypeEntry> = Vec::new();
        cls_expr_x(e, pos, vals, tys)
    } else {
        Ctx { vals: Vec::new(), tys: Vec::new(), kind: CtxKind::NotFound }
    }
}

} // verus!

verus! {

/// The scope chain at a position: the visible value bindings, innermost
/// first, so that the first entry of a name shadows the rest.
pub open spec fn scope_at_v(e: Expr, pos: int) -> Seq<EntryV> {
    let vals = classify_v(e, pos).vals;
    Seq::new(vals.len(), |i: int| vals[vals.len() - 1 - i])
}

/// The visible value bindings at `pos`, innermost first; see
/// `scope_at_v`.
#[verifier::loop_isolation(false)]
pub fn scope_at(tree: &Expr, pos: usize) -> (r: Vec<Entry>)
    ensures
        entries_view(r@) == scope_at_v(*tree, pos as int),
{
    let c = classify(tree, pos);
    let ghost vv = entries_view(c.vals@);
    proof {
        crate::scope::lemma_entries_view_all(c.vals@);
    }
    let mut out: Vec<Entry> = Vec::new();
    let mut i: usize = c.vals.len();
    while i > 0
        invariant
            i <= c.vals@.len(),
            out@.len() == c.vals@.len() - i,
            forall|j: int|
                0 <= j < out@.len() ==> crate::scope::entry_view(out@[j]) == vv[vv.len() - 1 - j],
        decreases i,
    {
        i = i - 1;
        let en = crate::scope::clone_entry(&c.vals[i]);
        out.push(en);
    }
    proof {
        crate::scope::lemma_entries_view_all(out@);
        assert(entries_view(out@) =~= scope_at_v(*tree, pos as int));
    }
    out
}

} // verus!
