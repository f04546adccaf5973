//! Laws the library keeps, stated over the same spec functions its
//! contracts use and proved once for all inputs.

use vstd::prelude::*;

use crate::ast::{Expr, Span, TyV};
use crate::candidates::{lemma_process_props, names_as_set, strictly_sorted, SugV};
use crate::name::is_prefix_of;
use crate::imports::FsDir;
use crate::locate::hover_v;
use crate::metadata::{metadata_for_v, MetaMap, Metadata};
use crate::scope::CtxKindV;
use crate::suggest::{minus_names, suggest_v};
use crate::types::TypeEnv;
use crate::walk::classify_v;

verus! {

/// Every query is a pure function of its inputs, so running it twice over
/// the same immutable tree, environment and position yields identical
/// results: two hover answers meeting the contract are equal.
pub proof fn lemma_hover_idempotent(
    tree: Expr,
    pos: int,
    r1: Option<(Span, TyV)>,
    r2: Option<(Span, TyV)>,
)
    requires
        r1 == hover_v(tree, pos),
        r2 == hover_v(tree, pos),
    ensures
        r1 == r2,
{
}

/// Two suggestion answers over the same inputs are identical.
pub proof fn lemma_suggest_idempotent(
    env: TypeEnv,
    roots: Seq<FsDir>,
    tree: Expr,
    pos: int,
    r1: Option<Seq<SugV>>,
    r2: Option<Seq<SugV>>,
)
    requires
        r1 == suggest_v(env, roots, tree, pos),
        r2 == suggest_v(env, roots, tree, pos),
    ensures
        r1 == r2,
{
}

/// Two symbol-search answers over the same inputs are identical.
pub proof fn lemma_find_all_symbols_idempotent(
    tree: Expr,
    pos: int,
    r1: Option<(Seq<u8>, Seq<Span>)>,
    r2: Option<(Seq<u8>, Seq<Span>)>,
)
    requires
        r1 == crate::symbols::find_all_symbols_v(tree, pos),
        r2 == crate::symbols::find_all_symbols_v(tree, pos),
    ensures
        r1 == r2,
{
}

/// Two metadata answers over the same inputs are identical.
pub proof fn lemma_metadata_idempotent(
    map: MetaMap,
    tree: Expr,
    pos: int,
    r1: Option<Metadata>,
    r2: Option<Metadata>,
)
    requires
        r1 == metadata_for_v(map, tree, pos),
        r2 == metadata_for_v(map, tree, pos),
    ensures
        r1 == r2,
{
}

/// Whatever the context, a suggestion list is strictly sorted by
/// byte-wise lexicographic name order: sorted, and each name at most
/// once.
pub proof fn lemma_suggest_sorted(env: TypeEnv, roots: Seq<FsDir>, tree: Expr, pos: int)
    ensures
        match suggest_v(env, roots, tree, pos) {
            Some(s) => strictly_sorted(s),
            None => true,
        },
{
    let c = classify_v(tree, pos);
    let envv = crate::types::type_entries_view(env.aliases@);
    match c.kind {
        CtxKindV::NotFound => {},
        CtxKindV::OpenExpr { prefix } => {
            lemma_process_props(
                crate::suggest::pool_vals(c.vals, c.vals.len() as int),
                prefix,
            );
        },
        CtxKindV::AltHead { prefix, scrut } => {
            lemma_process_props(
                crate::suggest::ctors_pool(crate::types::resolve_v(c.tys, envv, scrut))
                    + crate::suggest::pool_ctors(c.vals, c.vals.len() as int),
                prefix,
            );
        },
        CtxKindV::FieldTail { prefix, recv, recv_name } => {
            lemma_process_props(
                crate::suggest::field_tail_pool(
                    crate::types::resolve_v(c.tys, envv, recv),
                    recv,
                    recv_name,
                ),
                prefix,
            );
        },
        CtxKindV::PatternSlot { prefix, expected, consumed } => {
            lemma_process_props(
                minus_names(
                    crate::suggest::fields_pool(crate::types::resolve_v(c.tys, envv, expected)),
                    names_as_set(consumed),
                ),
                prefix,
            );
        },
        CtxKindV::TypeCtx { prefix } => {
            lemma_process_props(crate::suggest::pool_tys(c.tys, c.tys.len() as int), prefix);
        },
        CtxKindV::ImportPath { path } => {
            let segs = crate::imports::split_dots(path);
            lemma_process_props(
                crate::imports::module_sugs(crate::imports::resolve_names(roots, segs)),
                segs[segs.len() - 1],
            );
        },
    }
}

/// Every suggested candidate's name begins with the typed prefix of its
/// context (for an import path, with the path's last segment).
pub proof fn lemma_suggest_prefix(env: TypeEnv, roots: Seq<FsDir>, tree: Expr, pos: int)
    ensures
        match suggest_v(env, roots, tree, pos) {
            Some(s) => {
                let k = classify_v(tree, pos).kind;
                forall|y: SugV| #[trigger]
                    s.contains(y) ==> (match k {
                        CtxKindV::OpenExpr { prefix } => is_prefix_of(prefix, y.name),
                        CtxKindV::AltHead { prefix, .. } => is_prefix_of(prefix, y.name),
                        CtxKindV::FieldTail { prefix, .. } => is_prefix_of(prefix, y.name),
                        CtxKindV::PatternSlot { prefix, .. } => is_prefix_of(prefix, y.name),
                        CtxKindV::TypeCtx { prefix } => is_prefix_of(prefix, y.name),
                        CtxKindV::ImportPath { path } => {
                            let segs = crate::imports::split_dots(path);
                            is_prefix_of(segs[segs.len() - 1], y.name)
                        },
                        CtxKindV::NotFound => true,
                    })
            },
            None => true,
        },
{
    let c = classify_v(tree, pos);
    let envv = crate::types::type_entries_view(env.aliases@);
    match c.kind {
        CtxKindV::NotFound => {},
        CtxKindV::OpenExpr { prefix } => {
            lemma_process_props(
                crate::suggest::pool_vals(c.vals, c.vals.len() as int),
                prefix,
            );
        },
        CtxKindV::AltHead { prefix, scrut } => {
            lemma_process_props(
                crate::suggest::ctors_pool(crate::types::resolve_v(c.tys, envv, scrut))
                    + crate::suggest::pool_ctors(c.vals, c.vals.len() as int),
                prefix,
            );
        },
        CtxKindV::FieldTail { prefix, recv, recv_name } => {
            lemma_process_props(
                crate::suggest::field_tail_pool(
                    crate::types::resolve_v(c.tys, envv, recv),
                    recv,
                    recv_name,
                ),
                prefix,
            );
        },
        CtxKindV::PatternSlot { prefix, expected, consumed } => {
            lemma_process_props(
                minus_names(
                    crate::suggest::fields_pool(crate::types::resolve_v(c.tys, envv, expected)),
                    names_as_set(consumed),
                ),
                prefix,
            );
        },
        CtxKindV::TypeCtx { prefix } => {
            lemma_process_props(crate::suggest::pool_tys(c.tys, c.tys.len() as int), prefix);
        },
        CtxKindV::ImportPath { path } => {
            let segs = crate::imports::split_dots(path);
            lemma_process_props(
                crate::imports::module_sugs(crate::imports::resolve_names(roots, segs)),
                segs[segs.len() - 1],
            );
        },
    }
}

/// What `minus_names` keeps is free of the dropped names.
pub proof fn lemma_minus_names_excludes(s: Seq<SugV>, consumed: Set<Seq<u8>>, y: SugV)
    ensures
        minus_names(s, consumed).contains(y) ==> s.contains(y) && !consumed.contains(y.name),
    decreases s.len(),
{
    if s.len() > 0 {
        let t = s.subrange(1, s.len() as int);
        lemma_minus_names_excludes(t, consumed, y);
        let r = minus_names(s, consumed);
        if r.contains(y) {
            let i = choose|i: int| 0 <= i < r.len() && r[i] == y;
            if consumed.contains(s[0].name) {
                assert(minus_names(t, consumed).contains(y));
                let k = choose|k: int| 0 <= k < t.len() && t[k] == y;
                assert(s[k + 1] == y);
            } else {
                if i == 0 {
                    assert(s[0] == y);
                } else {
                    assert(minus_names(t, consumed)[i - 1] == y);
                    assert(minus_names(t, consumed).contains(y));
                    let k = choose|k: int| 0 <= k < t.len() && t[k] == y;
                    assert(s[k + 1] == y);
                }
            }
        }
    }
}

/// Pattern-field exclusion: in a record-pattern slot, no suggested
/// candidate carries a name the pattern has already consumed — a field
/// named elsewhere in the pattern, a rename binder or an `@`-alias never
/// comes back as a candidate.
pub proof fn lemma_pattern_slot_excludes(
    env: TypeEnv,
    roots: Seq<FsDir>,
    tree: Expr,
    pos: int,
    y: SugV,
)
    ensures
        (match classify_v(tree, pos).kind {
            CtxKindV::PatternSlot { consumed, .. } => match suggest_v(env, roots, tree, pos) {
                Some(s) => s.contains(y) ==> !names_as_set(consumed).contains(y.name),
                None => true,
            },
            _ => true,
        }),
{
    let c = classify_v(tree, pos);
    let envv = crate::types::type_entries_view(env.aliases@);
    match c.kind {
        CtxKindV::PatternSlot { prefix, expected, consumed } => {
            let pool = minus_names(
                crate::suggest::fields_pool(crate::types::resolve_v(c.tys, envv, expected)),
                names_as_set(consumed),
            );
            lemma_process_props(pool, prefix);
            match suggest_v(env, roots, tree, pos) {
                Some(s) => {
                    if s.contains(y) {
                        lemma_minus_names_excludes(
                            crate::suggest::fields_pool(
                                crate::types::resolve_v(c.tys, envv, expected),
                            ),
                            names_as_set(consumed),
                            y,
                        );
                    }
                },
                None => {},
            }
        },
        _ => {},
    }
}

} // verus!

verus! {

/// Suggestion is local to the classified context: the engine reads
/// nothing of the tree beyond the slot classification and the scope
/// collected on the way to the position, so two trees that classify a
/// position identically — whatever stands elsewhere in them, a
/// type-incorrect subtree included — suggest identically there.
pub proof fn lemma_suggest_local(
    env: TypeEnv,
    roots: Seq<FsDir>,
    t1: Expr,
    t2: Expr,
    pos: int,
)
    requires
        classify_v(t1, pos) == classify_v(t2, pos),
    ensures
        suggest_v(env, roots, t1, pos) == suggest_v(env, roots, t2, pos),
{
}

} // verus!

verus! {

/// Two binding groups that agree everywhere except in the right-hand side
/// of the binding at `k`, whose replacement keeps its span.
pub open spec fn same_but_rhs(bs: Seq<crate::ast::Binding>, cs: Seq<crate::ast::Binding>, k: int) -> bool {
    &&& bs.len() == cs.len()
    &&& 0 <= k < bs.len()
    &&& (forall|i: int| 0 <= i < bs.len() && i != k ==> #[trigger] cs[i] == bs[i])
    &&& cs[k].span == bs[k].span
    &&& cs[k].name == bs[k].name
    &&& cs[k].args == bs[k].args
    &&& cs[k].sig == bs[k].sig
    &&& crate::ast::expr_span(cs[k].expr) == crate::ast::expr_span(bs[k].expr)
}

/// The binding finder reads only spans, which the replacement keeps.
proof fn lemma_binding_at_cong(
    bs: Seq<crate::ast::Binding>,
    cs: Seq<crate::ast::Binding>,
    k: int,
    pos: int,
    i: int,
)
    requires
        same_but_rhs(bs, cs, k),
        0 <= i,
    ensures
        crate::walk::binding_at(bs, pos, i) == crate::walk::binding_at(cs, pos, i),
    decreases bs.len() - i,
{
    if i < bs.len() {
        assert(cs[i].span == bs[i].span);
        lemma_binding_at_cong(bs, cs, k, pos, i + 1);
    }
}

/// The scope a binding group contributes reads only patterns and
/// arguments, which the replacement keeps.
proof fn lemma_push_group_cong(
    vals: Seq<crate::scope::EntryV>,
    bs: Seq<crate::ast::Binding>,
    cs: Seq<crate::ast::Binding>,
    k: int,
    i: int,
    skip: int,
)
    requires
        same_but_rhs(bs, cs, k),
        0 <= i,
    ensures
        crate::walk::push_group_entries(vals, bs, i, skip) == crate::walk::push_group_entries(
            vals,
            cs,
            i,
            skip,
        ),
    decreases bs.len() - i,
{
    if i < bs.len() {
        assert(cs[i].name == bs[i].name && cs[i].args == bs[i].args);
        if i == skip && bs[i].args@.len() == 0 {
            lemma_push_group_cong(vals, bs, cs, k, i + 1, skip);
        } else {
            lemma_push_group_cong(
                crate::walk::push_pat_entries(vals, bs[i].name),
                bs,
                cs,
                k,
                i + 1,
                skip,
            );
        }
    }
}

/// Error tolerance at a binding group: replacing one binding's right-hand
/// side by any expression of the same extent — a type-incorrect or
/// error-recovered one included — leaves classification, and so
/// suggestion, unchanged at every position outside the replaced
/// expression.
pub proof fn lemma_error_tolerance(
    e1: Expr,
    e2: Expr,
    k: int,
    pos: int,
    vals: Seq<crate::scope::EntryV>,
    tys: Seq<crate::types::TypeEntryV>,
)
    requires
        e1 matches Expr::Let { span: s1, bindings: b1, body: d1 },
        e2 matches Expr::Let { span: s2, bindings: b2, body: d2 },
        (e1->Let_span == e2->Let_span),
        e1->Let_body == e2->Let_body,
        same_but_rhs(e1->Let_bindings@, e2->Let_bindings@, k),
        !crate::ast::span_at(crate::ast::expr_span(e1->Let_bindings@[k].expr), pos),
    ensures
        crate::walk::cls_expr(e1, pos, vals, tys) == crate::walk::cls_expr(e2, pos, vals, tys),
{
    let bs = e1->Let_bindings@;
    let cs = e2->Let_bindings@;
    lemma_binding_at_cong(bs, cs, k, pos, 0);
    let j = crate::walk::binding_at(bs, pos, 0);
    if 0 <= j < bs.len() {
        lemma_push_group_cong(vals, bs, cs, k, 0, j);
        if j != k {
            assert(cs[j] == bs[j]);
        } else {
            assert(cs[k].name == bs[k].name && cs[k].args == bs[k].args && cs[k].sig == bs[k].sig);
            // the position avoids the replaced right-hand side on both sides
            assert(!crate::ast::span_at(crate::ast::expr_span(cs[k].expr), pos));
            lemma_push_group_cong(vals, bs, cs, k, 0, k);
        }
    } else {
        lemma_push_group_cong(vals, bs, cs, k, 0, -1);
    }
}

/// Error tolerance for the whole suggestion query: with the binding group
/// at the root, the replacement changes no suggestion outside it.
pub proof fn lemma_suggest_error_tolerance(
    env: TypeEnv,
    roots: Seq<FsDir>,
    e1: Expr,
    e2: Expr,
    k: int,
    pos: int,
)
    requires
        e1 matches Expr::Let { .. },
        e2 matches Expr::Let { .. },
        (e1->Let_span == e2->Let_span),
        e1->Let_body == e2->Let_body,
        same_but_rhs(e1->Let_bindings@, e2->Let_bindings@, k),
        !crate::ast::span_at(crate::ast::expr_span(e1->Let_bindings@[k].expr), pos),
    ensures
        suggest_v(env, roots, e1, pos) == suggest_v(env, roots, e2, pos),
{
    lemma_error_tolerance(e1, e2, k, pos, Seq::empty(), Seq::empty());
    lemma_suggest_local(env, roots, e1, e2, pos);
}

} // verus!
