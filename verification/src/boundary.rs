//! Boundary inclusion: on a well-formed tree — span containment a strict
//! forest, sibling spans disjoint — the hover answer for an identifier
//! occupying `[s, e)` is identical at every position of `[s, e]`, the
//! right edge included.

use vstd::prelude::*;

use crate::ast::{
    expr_span, pat_span, span_at, span_inside, Alt, Binding, Expr, Ident, Pat, PatField, RecField,
    Span,
};
use crate::locate::{locate_in, locate_pat, node_span, Node};

verus! {

/// Two sibling spans are separated: they share no position, boundary
/// positions included.
pub open spec fn span_sep(a: Span, b: Span) -> bool {
    a.end < b.start || b.end < a.start
}

/// Every identifier of the run lies inside `outer`.
pub open spec fn idents_inside(s: Seq<Ident>, outer: Span) -> bool {
    forall|i: int| 0 <= i < s.len() ==> span_inside(#[trigger] s[i].span, outer)
}

/// The identifiers of the run are pairwise separated.
pub open spec fn idents_sep(s: Seq<Ident>) -> bool {
    forall|i: int, j: int|
        0 <= i < s.len() && 0 <= j < s.len() && i != j ==> span_sep(
            #[trigger] s[i].span,
            #[trigger] s[j].span,
        )
}

/// Every identifier of the run is separated from `b`.
pub open spec fn idents_sep_from(s: Seq<Ident>, b: Span) -> bool {
    forall|i: int| 0 <= i < s.len() ==> span_sep(#[trigger] s[i].span, b)
}

/// The effective spans of a pattern field: its name, and its rename
/// binder where it has one (taken as the name's span otherwise, which
/// keeps the forest conditions one-dimensional).
pub open spec fn patfield_spans_ok(s: Seq<PatField>, outer: Span) -> bool {
    &&& forall|i: int|
        0 <= i < s.len() ==> span_inside(#[trigger] s[i].name.span, outer) && (match s[i].bind {
            Some(b) => span_inside(b.span, outer) && span_sep(s[i].name.span, b.span),
            None => true,
        })
    &&& forall|i: int, j: int|
        0 <= i < s.len() && 0 <= j < s.len() && i != j ==> span_sep(
            #[trigger] s[i].name.span,
            #[trigger] s[j].name.span,
        ) && (match (s[i].bind, s[j].bind) {
            (Some(a), Some(b)) => span_sep(a.span, b.span) && span_sep(s[i].name.span, b.span),
            (Some(a), None) => span_sep(a.span, s[j].name.span),
            (None, Some(b)) => span_sep(s[i].name.span, b.span),
            (None, None) => true,
        })
}

/// A well-formed pattern: components inside its span, pairwise separated.
pub open spec fn wf_pat(p: Pat) -> bool {
    match p {
        Pat::Var { ident } => true,
        Pat::Ctor { span, name, args } => {
            &&& span_inside(name.span, span)
            &&& idents_inside(args@, span)
            &&& idents_sep(args@)
            &&& idents_sep_from(args@, name.span)
        },
        Pat::Record { span, ty, alias, fields } => {
            &&& patfield_spans_ok(fields@, span)
            &&& (match alias {
                Some(a) => span_inside(a.span, span) && (forall|i: int|
                    0 <= i < fields@.len() ==> span_sep(#[trigger] fields@[i].name.span, a.span)
                        && (match fields@[i].bind {
                        Some(b) => span_sep(b.span, a.span),
                        None => true,
                    }))
                ,
                None => true,
            })
        },
    }
}

/// The record-literal fields' spans: names and values inside `outer`,
/// pairwise separated.
pub open spec fn recfield_spans_ok(s: Seq<RecField>, outer: Span) -> bool {
    &&& forall|i: int|
        0 <= i < s.len() ==> span_inside(#[trigger] s[i].name.span, outer) && (match s[i].value {
            Some(v) => span_inside(expr_span(v), outer) && span_sep(
                s[i].name.span,
                expr_span(v),
            ),
            None => true,
        })
    &&& forall|i: int, j: int|
        0 <= i < s.len() && 0 <= j < s.len() && i != j ==> span_sep(
            #[trigger] s[i].name.span,
            #[trigger] s[j].name.span,
        ) && (match (s[i].value, s[j].value) {
            (Some(a), Some(b)) => span_sep(expr_span(a), expr_span(b)) && span_sep(
                s[i].name.span,
                expr_span(b),
            ),
            (Some(a), None) => span_sep(expr_span(a), s[j].name.span),
            (None, Some(b)) => span_sep(s[i].name.span, expr_span(b)),
            (None, None) => true,
        })
}

/// The spans of a binding's own components: pattern, arguments and bound
/// expression inside the binding's span, pairwise separated.
pub open spec fn wf_binding_spans(b: Binding) -> bool {
    &&& span_inside(pat_span(b.name), b.span)
    &&& idents_inside(b.args@, b.span)
    &&& span_inside(expr_span(b.expr), b.span)
    &&& idents_sep(b.args@)
    &&& idents_sep_from(b.args@, pat_span(b.name))
    &&& idents_sep_from(b.args@, expr_span(b.expr))
    &&& span_sep(pat_span(b.name), expr_span(b.expr))
}

/// A well-formed tree: every child's span inside its parent's, sibling
/// spans pairwise separated, recursively.
pub open spec fn wf_expr(e: Expr) -> bool
    decreases e, 0nat,
{
    match e {
        Expr::Lit { .. } => true,
        Expr::Error { .. } => true,
        Expr::Import { .. } => true,
        Expr::Var { .. } => true,
        Expr::App { span, ty, func, args } => {
            &&& span_inside(expr_span(*func), span)
            &&& wf_expr(*func)
            &&& wf_exprs(args@, 0, span)
            &&& (forall|i: int|
                0 <= i < args@.len() ==> span_sep(
                    expr_span(*func),
                    expr_span(#[trigger] args@[i]),
                ))
            &&& (forall|i: int, j: int|
                0 <= i < args@.len() && 0 <= j < args@.len() && i != j ==> span_sep(
                    expr_span(#[trigger] args@[i]),
                    expr_span(#[trigger] args@[j]),
                ))
        },
        Expr::Lambda { span, ty, params, body } => {
            &&& idents_inside(params@, span)
            &&& idents_sep(params@)
            &&& idents_sep_from(params@, expr_span(*body))
            &&& span_inside(expr_span(*body), span)
            &&& wf_expr(*body)
        },
        Expr::Record { span, ty, fields } => {
            &&& recfield_spans_ok(fields@, span)
            &&& wf_recfields(fields@, 0)
        },
        Expr::FieldAccess { span, recv, field } => {
            &&& span_inside(expr_span(*recv), span)
            &&& span_inside(field.span, span)
            &&& span_sep(expr_span(*recv), field.span)
            &&& wf_expr(*recv)
        },
        Expr::Let { span, bindings, body } => {
            &&& wf_bindings(bindings@, 0, span)
            &&& (forall|i: int, j: int|
                0 <= i < bindings@.len() && 0 <= j < bindings@.len() && i != j ==> span_sep(
                    #[trigger] bindings@[i].span,
                    #[trigger] bindings@[j].span,
                ))
            &&& (forall|i: int|
                0 <= i < bindings@.len() ==> span_sep(
                    #[trigger] bindings@[i].span,
                    expr_span(*body),
                ))
            &&& span_inside(expr_span(*body), span)
            &&& wf_expr(*body)
        },
        Expr::Match { span, scrutinee, alts } => {
            &&& span_inside(expr_span(*scrutinee), span)
            &&& wf_expr(*scrutinee)
            &&& wf_alts(alts@, 0, span)
            &&& (forall|i: int|
                0 <= i < alts@.len() ==> span_sep(
                    expr_span(*scrutinee),
                    #[trigger] alts@[i].span,
                ))
            &&& (forall|i: int, j: int|
                0 <= i < alts@.len() && 0 <= j < alts@.len() && i != j ==> span_sep(
                    #[trigger] alts@[i].span,
                    #[trigger] alts@[j].span,
                ))
        },
        Expr::TypeDecl { span, decl, body } => {
            &&& span_inside(expr_span(*body), span)
            &&& wf_expr(*body)
        },
    }
}

/// `wf_expr` over a run of expressions inside `outer`.
pub open spec fn wf_exprs(s: Seq<Expr>, i: int, outer: Span) -> bool
    decreases s, s.len() - i,
{
    if i < 0 || i >= s.len() {
        true
    } else {
        span_inside(expr_span(s[i]), outer) && wf_expr(s[i]) && wf_exprs(s, i + 1, outer)
    }
}

/// `wf_expr` over a binding group inside `outer`.
pub open spec fn wf_bindings(s: Seq<Binding>, i: int, outer: Span) -> bool
    decreases s, s.len() - i,
{
    if i < 0 || i >= s.len() {
        true
    } else {
        span_inside(s[i].span, outer) && wf_binding_spans(s[i]) && wf_pat(s[i].name) && wf_expr(
            s[i].expr,
        ) && wf_bindings(s, i + 1, outer)
    }
}

/// `wf_expr` over the alternatives of a match inside `outer`.
pub open spec fn wf_alts(s: Seq<Alt>, i: int, outer: Span) -> bool
    decreases s, s.len() - i,
{
    if i < 0 || i >= s.len() {
        true
    } else {
        span_inside(s[i].span, outer) && span_inside(pat_span(s[i].pat), s[i].span) && span_inside(
            expr_span(s[i].expr),
            s[i].span,
        ) && span_sep(pat_span(s[i].pat), expr_span(s[i].expr)) && wf_pat(s[i].pat) && wf_expr(
            s[i].expr,
        ) && wf_alts(s, i + 1, outer)
    }
}

/// `wf_expr` over record-literal field values.
pub open spec fn wf_recfields(s: Seq<RecField>, i: int) -> bool
    decreases s, s.len() - i,
{
    if i < 0 || i >= s.len() {
        true
    } else {
        (match s[i].value {
            Some(v) => wf_expr(v),
            None => true,
        }) && wf_recfields(s, i + 1)
    }
}

/// Makes the element facts of `wf_exprs` available at an index.
proof fn lemma_wf_exprs_at(s: Seq<Expr>, i: int, outer: Span, k: int)
    requires
        wf_exprs(s, i, outer),
        i <= k < s.len(),
        0 <= i,
    ensures
        span_inside(expr_span(s[k]), outer),
        wf_expr(s[k]),
    decreases k - i,
{
    if i < k {
        lemma_wf_exprs_at(s, i + 1, outer, k);
    }
}

/// Makes the element facts of `wf_bindings` available at an index.
proof fn lemma_wf_bindings_at(s: Seq<Binding>, i: int, outer: Span, k: int)
    requires
        wf_bindings(s, i, outer),
        i <= k < s.len(),
        0 <= i,
    ensures
        span_inside(s[k].span, outer),
        wf_binding_spans(s[k]),
        wf_pat(s[k].name),
        wf_expr(s[k].expr),
    decreases k - i,
{
    if i < k {
        lemma_wf_bindings_at(s, i + 1, outer, k);
    }
}

/// Makes the element facts of `wf_alts` available at an index.
proof fn lemma_wf_alts_at(s: Seq<Alt>, i: int, outer: Span, k: int)
    requires
        wf_alts(s, i, outer),
        i <= k < s.len(),
        0 <= i,
    ensures
        span_inside(s[k].span, outer),
        span_inside(pat_span(s[k].pat), s[k].span),
        span_inside(expr_span(s[k].expr), s[k].span),
        span_sep(pat_span(s[k].pat), expr_span(s[k].expr)),
        wf_pat(s[k].pat),
        wf_expr(s[k].expr),
    decreases k - i,
{
    if i < k {
        lemma_wf_alts_at(s, i + 1, outer, k);
    }
}

/// Makes the element facts of `wf_recfields` available at an index.
proof fn lemma_wf_recfields_at(s: Seq<RecField>, i: int, k: int)
    requires
        wf_recfields(s, i),
        i <= k < s.len(),
        0 <= i,
    ensures
        (match s[k].value {
            Some(v) => wf_expr(v),
            None => true,
        }),
    decreases k - i,
{
    if i < k {
        lemma_wf_recfields_at(s, i + 1, k);
    }
}

} // verus!

verus! {

/// A position inside one of two separated spans is outside the other.
proof fn lemma_sep_excludes(a: Span, b: Span, q: int)
    requires
        span_sep(a, b),
        span_at(a, q),
    ensures
        !span_at(b, q),
{
}

/// The identifier finder answers `k` when `k` is the first hit.
proof fn lemma_ident_at_hit(s: Seq<Ident>, q: int, k: int, i: int)
    requires
        0 <= i <= k < s.len(),
        span_at(s[k].span, q),
        forall|j: int| i <= j < k ==> !span_at(#[trigger] s[j].span, q),
    ensures
        crate::walk::ident_at(s, q, i) == k,
    decreases k - i,
{
    if i < k {
        lemma_ident_at_hit(s, q, k, i + 1);
    }
}

/// The identifier finder misses when nothing holds the position.
proof fn lemma_ident_at_miss(s: Seq<Ident>, q: int, i: int)
    requires
        0 <= i,
        forall|j: int| i <= j < s.len() ==> !span_at(#[trigger] s[j].span, q),
    ensures
        crate::walk::ident_at(s, q, i) == -1,
    decreases s.len() - i,
{
    if i < s.len() {
        lemma_ident_at_miss(s, q, i + 1);
    }
}

/// The expression finder answers `k` when `k` is the first hit.
proof fn lemma_expr_at_hit(s: Seq<Expr>, q: int, k: int, i: int)
    requires
        0 <= i <= k < s.len(),
        span_at(expr_span(s[k]), q),
        forall|j: int| i <= j < k ==> !span_at(expr_span(#[trigger] s[j]), q),
    ensures
        crate::walk::expr_at_idx(s, q, i) == k,
    decreases k - i,
{
    if i < k {
        lemma_expr_at_hit(s, q, k, i + 1);
    }
}

/// The expression finder misses when nothing holds the position.
proof fn lemma_expr_at_miss(s: Seq<Expr>, q: int, i: int)
    requires
        0 <= i,
        forall|j: int| i <= j < s.len() ==> !span_at(expr_span(#[trigger] s[j]), q),
    ensures
        crate::walk::expr_at_idx(s, q, i) == -1,
    decreases s.len() - i,
{
    if i < s.len() {
        lemma_expr_at_miss(s, q, i + 1);
    }
}

/// The binding finder answers `k` when `k` is the first hit.
proof fn lemma_binding_at_hit(s: Seq<Binding>, q: int, k: int, i: int)
    requires
        0 <= i <= k < s.len(),
        span_at(s[k].span, q),
        forall|j: int| i <= j < k ==> !span_at(#[trigger] s[j].span, q),
    ensures
        crate::walk::binding_at(s, q, i) == k,
    decreases k - i,
{
    if i < k {
        lemma_binding_at_hit(s, q, k, i + 1);
    }
}

/// The binding finder misses when nothing holds the position.
proof fn lemma_binding_at_miss(s: Seq<Binding>, q: int, i: int)
    requires
        0 <= i,
        forall|j: int| i <= j < s.len() ==> !span_at(#[trigger] s[j].span, q),
    ensures
        crate::walk::binding_at(s, q, i) == -1,
    decreases s.len() - i,
{
    if i < s.len() {
        lemma_binding_at_miss(s, q, i + 1);
    }
}

/// The alternative finder answers `k` when `k` is the first hit.
proof fn lemma_alt_at_hit(s: Seq<Alt>, q: int, k: int, i: int)
    requires
        0 <= i <= k < s.len(),
        span_at(s[k].span, q),
        forall|j: int| i <= j < k ==> !span_at(#[trigger] s[j].span, q),
    ensures
        crate::walk::alt_at(s, q, i) == k,
    decreases k - i,
{
    if i < k {
        lemma_alt_at_hit(s, q, k, i + 1);
    }
}

/// The alternative finder misses when nothing holds the position.
proof fn lemma_alt_at_miss(s: Seq<Alt>, q: int, i: int)
    requires
        0 <= i,
        forall|j: int| i <= j < s.len() ==> !span_at(#[trigger] s[j].span, q),
    ensures
        crate::walk::alt_at(s, q, i) == -1,
    decreases s.len() - i,
{
    if i < s.len() {
        lemma_alt_at_miss(s, q, i + 1);
    }
}

/// The field-name finder answers `k` when `k` is the first hit.
proof fn lemma_recfield_name_at_hit(s: Seq<RecField>, q: int, k: int, i: int)
    requires
        0 <= i <= k < s.len(),
        span_at(s[k].name.span, q),
        forall|j: int| i <= j < k ==> !span_at(#[trigger] s[j].name.span, q),
    ensures
        crate::walk::recfield_name_at(s, q, i) == k,
    decreases k - i,
{
    if i < k {
        lemma_recfield_name_at_hit(s, q, k, i + 1);
    }
}

/// The field-value finder answers `k` when the position lies in field
/// `k`'s value and the fields are well-formed.
proof fn lemma_recfield_value_det(s: Seq<RecField>, outer: Span, q: int, k: int, i: int)
    requires
        recfield_spans_ok(s, outer),
        0 <= i <= k < s.len(),
        (match s[k].value {
            Some(v) => span_at(expr_span(v), q),
            None => false,
        }),
    ensures
        crate::walk::recfield_value_at(s, q, i) == k,
    decreases k - i,
{
    if i < k {
        assert(span_sep(s[i].name.span, s[k].name.span));
        match s[k].value {
            Some(v) => {
                match s[i].value {
                    Some(a) => {
                        assert(span_sep(expr_span(a), expr_span(v)));
                    },
                    None => {},
                }
            },
            None => {},
        }
        lemma_recfield_value_det(s, outer, q, k, i + 1);
    }
}

/// The field-name finder misses when the position lies in a value and the
/// fields are well-formed.
proof fn lemma_recfield_name_misses_values(s: Seq<RecField>, outer: Span, q: int, m: int, i: int)
    requires
        recfield_spans_ok(s, outer),
        0 <= i,
        0 <= m < s.len(),
        (match s[m].value {
            Some(v) => span_at(expr_span(v), q),
            None => false,
        }),
    ensures
        crate::walk::recfield_name_at(s, q, i) == -1,
    decreases s.len() - i,
{
    if i < s.len() {
        match s[m].value {
            Some(v) => {
                if i == m {
                    assert(span_sep(s[m].name.span, expr_span(v)));
                } else {
                    assert(span_sep(s[i].name.span, s[m].name.span));
                    assert(match (s[i].value, s[m].value) {
                        (Some(a), Some(b)) => span_sep(expr_span(a), expr_span(b)) && span_sep(
                            s[i].name.span,
                            expr_span(b),
                        ),
                        (Some(a), None) => span_sep(expr_span(a), s[m].name.span),
                        (None, Some(b)) => span_sep(s[i].name.span, expr_span(b)),
                        (None, None) => true,
                    });
                }
            },
            None => {},
        }
        lemma_recfield_name_misses_values(s, outer, q, m, i + 1);
    }
}

/// The pattern-field finder answers `k` when the position lies in field
/// `k` and the fields are well-formed.
proof fn lemma_patfield_det(s: Seq<PatField>, outer: Span, q: int, k: int, i: int)
    requires
        patfield_spans_ok(s, outer),
        0 <= i <= k < s.len(),
        span_at(s[k].name.span, q) || (s[k].bind is Some && span_at(s[k].bind->0.span, q)),
    ensures
        crate::walk::patfield_at(s, q, i) == k,
    decreases k - i,
{
    if i < k {
        assert(span_sep(s[i].name.span, s[k].name.span));
        assert(span_sep(s[k].name.span, s[i].name.span));
        assert(match (s[i].bind, s[k].bind) {
            (Some(a), Some(b)) => span_sep(a.span, b.span) && span_sep(s[i].name.span, b.span),
            (Some(a), None) => span_sep(a.span, s[k].name.span),
            (None, Some(b)) => span_sep(s[i].name.span, b.span),
            (None, None) => true,
        });
        assert(match (s[k].bind, s[i].bind) {
            (Some(a), Some(b)) => span_sep(a.span, b.span) && span_sep(s[k].name.span, b.span),
            (Some(a), None) => span_sep(a.span, s[i].name.span),
            (None, Some(b)) => span_sep(s[k].name.span, b.span),
            (None, None) => true,
        });
        lemma_patfield_det(s, outer, q, k, i + 1);
    }
}

/// The pattern-field finder misses when the position lies in the
/// `@`-alias of a well-formed pattern.
proof fn lemma_patfield_misses_alias(s: Seq<PatField>, a: Ident, q: int, i: int)
    requires
        0 <= i,
        span_at(a.span, q),
        forall|j: int|
            0 <= j < s.len() ==> span_sep(#[trigger] s[j].name.span, a.span) && (match s[j].bind {
                Some(b) => span_sep(b.span, a.span),
                None => true,
            }),
    ensures
        crate::walk::patfield_at(s, q, i) == -1,
    decreases s.len() - i,
{
    if i < s.len() {
        lemma_patfield_misses_alias(s, a, q, i + 1);
    }
}

} // verus!

verus! {

/// A non-negative identifier-finder answer is an in-range hit.
proof fn lemma_ident_at_found(s: Seq<Ident>, q: int, i: int)
    requires
        0 <= i,
    ensures
        crate::walk::ident_at(s, q, i) == -1 || (i <= crate::walk::ident_at(s, q, i) < s.len()
            && span_at(s[crate::walk::ident_at(s, q, i)].span, q)),
    decreases s.len() - i,
{
    if i < s.len() {
        lemma_ident_at_found(s, q, i + 1);
    }
}

/// A non-negative expression-finder answer is an in-range hit.
proof fn lemma_expr_at_found(s: Seq<Expr>, q: int, i: int)
    requires
        0 <= i,
    ensures
        crate::walk::expr_at_idx(s, q, i) == -1 || (i <= crate::walk::expr_at_idx(s, q, i)
            < s.len() && span_at(expr_span(s[crate::walk::expr_at_idx(s, q, i)]), q)),
    decreases s.len() - i,
{
    if i < s.len() {
        lemma_expr_at_found(s, q, i + 1);
    }
}

/// A non-negative binding-finder answer is an in-range hit.
proof fn lemma_binding_at_found(s: Seq<Binding>, q: int, i: int)
    requires
        0 <= i,
    ensures
        crate::walk::binding_at(s, q, i) == -1 || (i <= crate::walk::binding_at(s, q, i) < s.len()
            && span_at(s[crate::walk::binding_at(s, q, i)].span, q)),
    decreases s.len() - i,
{
    if i < s.len() {
        lemma_binding_at_found(s, q, i + 1);
    }
}

/// A non-negative alternative-finder answer is an in-range hit.
proof fn lemma_alt_at_found(s: Seq<Alt>, q: int, i: int)
    requires
        0 <= i,
    ensures
        crate::walk::alt_at(s, q, i) == -1 || (i <= crate::walk::alt_at(s, q, i) < s.len()
            && span_at(s[crate::walk::alt_at(s, q, i)].span, q)),
    decreases s.len() - i,
{
    if i < s.len() {
        lemma_alt_at_found(s, q, i + 1);
    }
}

/// A non-negative field-name-finder answer is an in-range hit.
proof fn lemma_recfield_name_at_found(s: Seq<RecField>, q: int, i: int)
    requires
        0 <= i,
    ensures
        crate::walk::recfield_name_at(s, q, i) == -1 || (i <= crate::walk::recfield_name_at(
            s,
            q,
            i,
        ) < s.len() && span_at(s[crate::walk::recfield_name_at(s, q, i)].name.span, q)),
    decreases s.len() - i,
{
    if i < s.len() {
        lemma_recfield_name_at_found(s, q, i + 1);
    }
}

/// A non-negative field-value-finder answer is an in-range hit.
proof fn lemma_recfield_value_at_found(s: Seq<RecField>, q: int, i: int)
    requires
        0 <= i,
    ensures
        crate::walk::recfield_value_at(s, q, i) == -1 || (i <= crate::walk::recfield_value_at(
            s,
            q,
            i,
        ) < s.len() && (match s[crate::walk::recfield_value_at(s, q, i)].value {
            Some(v) => span_at(expr_span(v), q),
            None => false,
        })),
    decreases s.len() - i,
{
    if i < s.len() {
        lemma_recfield_value_at_found(s, q, i + 1);
    }
}

/// A non-negative pattern-field-finder answer is an in-range hit.
proof fn lemma_patfield_at_found(s: Seq<PatField>, q: int, i: int)
    requires
        0 <= i,
    ensures
        crate::walk::patfield_at(s, q, i) == -1 || (i <= crate::walk::patfield_at(s, q, i)
            < s.len() && (span_at(s[crate::walk::patfield_at(s, q, i)].name.span, q) || (
        match s[crate::walk::patfield_at(s, q, i)].bind {
            Some(b) => span_at(b.span, q),
            None => false,
        }))),
    decreases s.len() - i,
{
    if i < s.len() {
        lemma_patfield_at_found(s, q, i + 1);
    }
}

/// The node a pattern locates lies inside the pattern's span.
proof fn lemma_locate_pat_inside(p: Pat, q: int)
    requires
        wf_pat(p),
        span_at(pat_span(p), q),
    ensures
        span_inside(node_span(locate_pat(p, q)), pat_span(p)),
{
    match p {
        Pat::Var { ident } => {},
        Pat::Ctor { span, name, args } => {
            lemma_ident_at_found(args@, q, 0);
        },
        Pat::Record { span, ty, alias, fields } => {
            lemma_patfield_at_found(fields@, q, 0);
        },
    }
}

/// The node the locator answers lies inside the tree's span.
proof fn lemma_locate_inside(e: Expr, q: int)
    requires
        wf_expr(e),
        span_at(expr_span(e), q),
    ensures
        span_inside(node_span(locate_in(e, q)), expr_span(e)),
    decreases e,
{
    match e {
        Expr::Lit { .. } => {},
        Expr::Error { .. } => {},
        Expr::Import { .. } => {},
        Expr::Var { .. } => {},
        Expr::App { span, ty, func, args } => {
            if span_at(expr_span(*func), q) {
                lemma_locate_inside(*func, q);
            } else {
                let k = crate::walk::expr_at_idx(args@, q, 0);
                lemma_expr_at_found(args@, q, 0);
                if 0 <= k < args@.len() {
                    lemma_wf_exprs_at(args@, 0, span, k);
                    lemma_locate_inside(args@[k], q);
                }
            }
        },
        Expr::Lambda { span, ty, params, body } => {
            let k = crate::walk::ident_at(params@, q, 0);
            lemma_ident_at_found(params@, q, 0);
            if 0 <= k < params@.len() {
            } else if span_at(expr_span(*body), q) {
                lemma_locate_inside(*body, q);
            }
        },
        Expr::Record { span, ty, fields } => {
            let k = crate::walk::recfield_name_at(fields@, q, 0);
            lemma_recfield_name_at_found(fields@, q, 0);
            if 0 <= k < fields@.len() {
            } else {
                let m = crate::walk::recfield_value_at(fields@, q, 0);
                lemma_recfield_value_at_found(fields@, q, 0);
                if 0 <= m < fields@.len() {
                    match fields@[m].value {
                        Some(v) => {
                            lemma_wf_recfields_at(fields@, 0, m);
                            lemma_locate_inside(v, q);
                            assert(span_inside(fields@[m].name.span, span));
                        },
                        None => {},
                    }
                }
            }
        },
        Expr::FieldAccess { span, recv, field } => {
            if span_at(expr_span(*recv), q) {
                lemma_locate_inside(*recv, q);
            }
        },
        Expr::Let { span, bindings, body } => {
            let k = crate::walk::binding_at(bindings@, q, 0);
            lemma_binding_at_found(bindings@, q, 0);
            if 0 <= k < bindings@.len() {
                let b = bindings@[k];
                lemma_wf_bindings_at(bindings@, 0, span, k);
                if span_at(pat_span(b.name), q) {
                    lemma_locate_pat_inside(b.name, q);
                } else {
                    let ai = crate::walk::ident_at(b.args@, q, 0);
                    lemma_ident_at_found(b.args@, q, 0);
                    if 0 <= ai < b.args@.len() {
                    } else if span_at(expr_span(b.expr), q) {
                        lemma_locate_inside(b.expr, q);
                    }
                }
            } else if span_at(expr_span(*body), q) {
                lemma_locate_inside(*body, q);
            }
        },
        Expr::Match { span, scrutinee, alts } => {
            if span_at(expr_span(*scrutinee), q) {
                lemma_locate_inside(*scrutinee, q);
            } else {
                let k = crate::walk::alt_at(alts@, q, 0);
                lemma_alt_at_found(alts@, q, 0);
                if 0 <= k < alts@.len() {
                    let a = alts@[k];
                    lemma_wf_alts_at(alts@, 0, span, k);
                    if span_at(pat_span(a.pat), q) {
                        lemma_locate_pat_inside(a.pat, q);
                    } else if span_at(expr_span(a.expr), q) {
                        lemma_locate_inside(a.expr, q);
                    }
                }
            }
        },
        Expr::TypeDecl { span, decl, body } => {
            if span_at(expr_span(*body), q) {
                lemma_locate_inside(*body, q);
            }
        },
    }
}

} // verus!

verus! {

/// On a well-formed pattern, a position anywhere in a located
/// identifier's span — the right edge included — locates that same
/// identifier.
proof fn lemma_boundary_pat(p: Pat, pos: int, q: int)
    requires
        wf_pat(p),
        span_at(pat_span(p), pos),
        locate_pat(p, pos) is Id,
        span_at(node_span(locate_pat(p, pos)), q),
    ensures
        locate_pat(p, q) == locate_pat(p, pos),
{
    match p {
        Pat::Var { ident } => {},
        Pat::Ctor { span, name, args } => {
            if span_at(name.span, pos) {
                // q lies in the name, which every argument is separated from
                assert forall|j: int| 0 <= j < args@.len() implies !span_at(
                    #[trigger] args@[j].span,
                    q,
                ) by {
                    assert(span_sep(args@[j].span, name.span));
                }
                lemma_ident_at_miss(args@, q, 0);
            } else {
                let k = crate::walk::ident_at(args@, pos, 0);
                lemma_ident_at_found(args@, pos, 0);
                if 0 <= k < args@.len() {
                    assert(!span_at(name.span, q)) by {
                        assert(span_sep(args@[k].span, name.span));
                    }
                    assert forall|j: int| 0 <= j < k implies !span_at(
                        #[trigger] args@[j].span,
                        q,
                    ) by {
                        assert(span_sep(args@[j].span, args@[k].span));
                    }
                    lemma_ident_at_hit(args@, q, k, 0);
                }
            }
        },
        Pat::Record { span, ty, alias, fields } => {
            let k = crate::walk::patfield_at(fields@, pos, 0);
            lemma_patfield_at_found(fields@, pos, 0);
            if 0 <= k < fields@.len() {
                let f = fields@[k];
                if span_at(f.name.span, pos) {
                    lemma_patfield_det(fields@, span, q, k, 0);
                    match f.bind {
                        Some(b) => {
                            assert(span_sep(f.name.span, b.span));
                        },
                        None => {},
                    }
                } else {
                    match f.bind {
                        Some(b) => {
                            assert(span_sep(f.name.span, b.span));
                            assert(fields@[k].bind is Some && span_at(
                                fields@[k].bind->0.span,
                                q,
                            ));
                            lemma_patfield_det(fields@, span, q, k, 0);
                        },
                        None => {},
                    }
                }
            } else {
                match alias {
                    Some(a) => {
                        if span_at(a.span, pos) {
                            // q lies in the alias, separated from every field
                            assert forall|j: int|
                                0 <= j < fields@.len() implies span_sep(
                                #[trigger] fields@[j].name.span,
                                a.span,
                            ) && (match fields@[j].bind {
                                Some(b) => span_sep(b.span, a.span),
                                None => true,
                            }) by {}
                            lemma_patfield_misses_alias(fields@, a, q, 0);
                        }
                    },
                    None => {},
                }
            }
        },
    }
}

/// Boundary inclusion for the locator: on a well-formed tree, every
/// position within a located identifier's span — the right edge included —
/// locates that same identifier.
pub proof fn lemma_boundary_locate(e: Expr, pos: int, q: int)
    requires
        wf_expr(e),
        span_at(expr_span(e), pos),
        locate_in(e, pos) is Id,
        span_at(node_span(locate_in(e, pos)), q),
    ensures
        locate_in(e, q) == locate_in(e, pos),
    decreases e,
{
    match e {
        Expr::Lit { .. } => {},
        Expr::Error { .. } => {},
        Expr::Import { .. } => {},
        Expr::Var { ident } => {},
        Expr::App { span, ty, func, args } => {
            if span_at(expr_span(*func), pos) {
                lemma_locate_inside(*func, pos);
                lemma_boundary_locate(*func, pos, q);
            } else {
                let k = crate::walk::expr_at_idx(args@, pos, 0);
                lemma_expr_at_found(args@, pos, 0);
                if 0 <= k < args@.len() {
                    lemma_wf_exprs_at(args@, 0, span, k);
                    lemma_locate_inside(args@[k], pos);
                    assert(!span_at(expr_span(*func), q)) by {
                        assert(span_sep(expr_span(*func), expr_span(args@[k])));
                    }
                    assert forall|j: int| 0 <= j < k implies !span_at(
                        expr_span(#[trigger] args@[j]),
                        q,
                    ) by {
                        assert(span_sep(expr_span(args@[j]), expr_span(args@[k])));
                    }
                    lemma_expr_at_hit(args@, q, k, 0);
                    lemma_boundary_locate(args@[k], pos, q);
                }
            }
        },
        Expr::Lambda { span, ty, params, body } => {
            let k = crate::walk::ident_at(params@, pos, 0);
            lemma_ident_at_found(params@, pos, 0);
            if 0 <= k < params@.len() {
                assert forall|j: int| 0 <= j < k implies !span_at(
                    #[trigger] params@[j].span,
                    q,
                ) by {
                    assert(span_sep(params@[j].span, params@[k].span));
                }
                lemma_ident_at_hit(params@, q, k, 0);
            } else if span_at(expr_span(*body), pos) {
                lemma_locate_inside(*body, pos);
                assert forall|j: int| 0 <= j < params@.len() implies !span_at(
                    #[trigger] params@[j].span,
                    q,
                ) by {
                    assert(span_sep(params@[j].span, expr_span(*body)));
                }
                lemma_ident_at_miss(params@, q, 0);
                lemma_boundary_locate(*body, pos, q);
            }
        },
        Expr::Record { span, ty, fields } => {
            let k = crate::walk::recfield_name_at(fields@, pos, 0);
            lemma_recfield_name_at_found(fields@, pos, 0);
            if 0 <= k < fields@.len() {
                assert forall|j: int| 0 <= j < k implies !span_at(
                    #[trigger] fields@[j].name.span,
                    q,
                ) by {
                    assert(span_sep(fields@[j].name.span, fields@[k].name.span));
                }
                lemma_recfield_name_at_hit(fields@, q, k, 0);
            } else {
                let m = crate::walk::recfield_value_at(fields@, pos, 0);
                lemma_recfield_value_at_found(fields@, pos, 0);
                if 0 <= m < fields@.len() {
                    match fields@[m].value {
                        Some(v) => {
                            lemma_wf_recfields_at(fields@, 0, m);
                            lemma_locate_inside(v, pos);
                            lemma_recfield_name_misses_values(fields@, span, q, m, 0);
                            lemma_recfield_value_det(fields@, span, q, m, 0);
                            lemma_boundary_locate(v, pos, q);
                        },
                        None => {},
                    }
                }
            }
        },
        Expr::FieldAccess { span, recv, field } => {
            if span_at(expr_span(*recv), pos) {
                lemma_locate_inside(*recv, pos);
                lemma_boundary_locate(*recv, pos, q);
            } else if span_at(field.span, pos) {
                assert(!span_at(expr_span(*recv), q)) by {
                    assert(span_sep(expr_span(*recv), field.span));
                }
            }
        },
        Expr::Let { span, bindings, body } => {
            let k = crate::walk::binding_at(bindings@, pos, 0);
            lemma_binding_at_found(bindings@, pos, 0);
            if 0 <= k < bindings@.len() {
                let b = bindings@[k];
                lemma_wf_bindings_at(bindings@, 0, span, k);
                if span_at(pat_span(b.name), pos) {
                    lemma_locate_pat_inside(b.name, pos);
                    assert forall|j: int| 0 <= j < k implies !span_at(
                        #[trigger] bindings@[j].span,
                        q,
                    ) by {
                        assert(span_sep(bindings@[j].span, bindings@[k].span));
                    }
                    lemma_binding_at_hit(bindings@, q, k, 0);
                    lemma_boundary_pat(b.name, pos, q);
                } else {
                    let ai = crate::walk::ident_at(b.args@, pos, 0);
                    lemma_ident_at_found(b.args@, pos, 0);
                    if 0 <= ai < b.args@.len() {
                        assert forall|j: int| 0 <= j < k implies !span_at(
                            #[trigger] bindings@[j].span,
                            q,
                        ) by {
                            assert(span_sep(bindings@[j].span, bindings@[k].span));
                        }
                        lemma_binding_at_hit(bindings@, q, k, 0);
                        assert(!span_at(pat_span(b.name), q)) by {
                            assert(span_sep(b.args@[ai].span, pat_span(b.name)));
                        }
                        assert forall|j: int| 0 <= j < ai implies !span_at(
                            #[trigger] b.args@[j].span,
                            q,
                        ) by {
                            assert(span_sep(b.args@[j].span, b.args@[ai].span));
                        }
                        lemma_ident_at_hit(b.args@, q, ai, 0);
                    } else if span_at(expr_span(b.expr), pos) {
                        lemma_locate_inside(b.expr, pos);
                        assert forall|j: int| 0 <= j < k implies !span_at(
                            #[trigger] bindings@[j].span,
                            q,
                        ) by {
                            assert(span_sep(bindings@[j].span, bindings@[k].span));
                        }
                        lemma_binding_at_hit(bindings@, q, k, 0);
                        assert(!span_at(pat_span(b.name), q)) by {
                            assert(span_sep(pat_span(b.name), expr_span(b.expr)));
                        }
                        assert forall|j: int| 0 <= j < b.args@.len() implies !span_at(
                            #[trigger] b.args@[j].span,
                            q,
                        ) by {
                            assert(span_sep(b.args@[j].span, expr_span(b.expr)));
                        }
                        lemma_ident_at_miss(b.args@, q, 0);
                        lemma_boundary_locate(b.expr, pos, q);
                    }
                }
            } else if span_at(expr_span(*body), pos) {
                lemma_locate_inside(*body, pos);
                assert forall|j: int| 0 <= j < bindings@.len() implies !span_at(
                    #[trigger] bindings@[j].span,
                    q,
                ) by {
                    assert(span_sep(bindings@[j].span, expr_span(*body)));
                }
                lemma_binding_at_miss(bindings@, q, 0);
                lemma_boundary_locate(*body, pos, q);
            }
        },
        Expr::Match { span, scrutinee, alts } => {
            if span_at(expr_span(*scrutinee), pos) {
                lemma_locate_inside(*scrutinee, pos);
                lemma_boundary_locate(*scrutinee, pos, q);
            } else {
                let k = crate::walk::alt_at(alts@, pos, 0);
                lemma_alt_at_found(alts@, pos, 0);
                if 0 <= k < alts@.len() {
                    let a = alts@[k];
                    lemma_wf_alts_at(alts@, 0, span, k);
                    if span_at(pat_span(a.pat), pos) {
                        lemma_locate_pat_inside(a.pat, pos);
                        assert(!span_at(expr_span(*scrutinee), q)) by {
                            assert(span_sep(expr_span(*scrutinee), alts@[k].span));
                        }
                        assert forall|j: int| 0 <= j < k implies !span_at(
                            #[trigger] alts@[j].span,
                            q,
                        ) by {
                            assert(span_sep(alts@[j].span, alts@[k].span));
                        }
                        lemma_alt_at_hit(alts@, q, k, 0);
                        lemma_boundary_pat(a.pat, pos, q);
                    } else if span_at(expr_span(a.expr), pos) {
                        lemma_locate_inside(a.expr, pos);
                        assert(!span_at(expr_span(*scrutinee), q)) by {
                            assert(span_sep(expr_span(*scrutinee), alts@[k].span));
                        }
                        assert forall|j: int| 0 <= j < k implies !span_at(
                            #[trigger] alts@[j].span,
                            q,
                        ) by {
                            assert(span_sep(alts@[j].span, alts@[k].span));
                        }
                        lemma_alt_at_hit(alts@, q, k, 0);
                        assert(!span_at(pat_span(a.pat), q)) by {
                            assert(span_sep(pat_span(a.pat), expr_span(a.expr)));
                        }
                        lemma_boundary_locate(a.expr, pos, q);
                    }
                }
            }
        },
        Expr::TypeDecl { span, decl, body } => {
            if span_at(expr_span(*body), pos) {
                lemma_locate_inside(*body, pos);
                lemma_boundary_locate(*body, pos, q);
            }
        },
    }
}

/// Boundary inclusion for hover: on a well-formed tree, for an identifier
/// occupying `[s, e)`, a type/hover query at every position of `[s, e]`
/// answers identically — the right edge belongs to the token.
pub proof fn lemma_boundary_inclusion(e: Expr, pos: int, q: int)
    requires
        wf_expr(e),
        span_at(expr_span(e), pos),
        locate_in(e, pos) is Id,
        span_at(node_span(locate_in(e, pos)), q),
    ensures
        crate::locate::hover_v(e, q) == crate::locate::hover_v(e, pos),
{
    lemma_locate_inside(e, pos);
    lemma_boundary_locate(e, pos, q);
}

} // verus!
