//! The span locator and the hover query: the innermost node whose span
//! holds a position, and that node's span and type.

use vstd::prelude::*;

use crate::ast::{
    clone_ty, expr_span, pat_span, span_at, ty_spec, ty_view, Expr, Ident, Pat, Span, Ty, TyV,
};

verus! {

/// A located node: an expression, an identifier occurrence, or a pattern.
pub enum Node {
    E(Expr),
    Id(Ident),
    P(Pat),
}

/// The span of a located node.
pub open spec fn node_span(n: Node) -> Span {
    match n {
        Node::E(e) => expr_span(e),
        Node::Id(i) => i.span,
        Node::P(p) => pat_span(p),
    }
}

/// The type of a located node: a pattern's type is its binder's or its
/// expected record type.
pub open spec fn node_ty(n: Node) -> Ty {
    match n {
        Node::E(e) => ty_spec(e),
        Node::Id(i) => i.ty,
        Node::P(p) => match p {
            Pat::Var { ident } => ident.ty,
            Pat::Ctor { name, .. } => name.ty,
            Pat::Record { ty, .. } => ty,
        },
    }
}

/// Locates the innermost node of a pattern holding `pos`: a binder or
/// field occurrence where one holds the position, else the pattern.
pub open spec fn locate_pat(p: Pat, pos: int) -> Node {
    match p {
        Pat::Var { ident } => Node::Id(ident),
        Pat::Ctor { span, name, args } => {
            if span_at(name.span, pos) {
                Node::Id(name)
            } else {
                let k = crate::walk::ident_at(args@, pos, 0);
                if 0 <= k < args@.len() {
                    Node::Id(args@[k])
                } else {
                    Node::P(p)
                }
            }
        },
        Pat::Record { span, ty, alias, fields } => {
            let k = crate::walk::patfield_at(fields@, pos, 0);
            if 0 <= k < fields@.len() {
                let f = fields@[k];
                if span_at(f.name.span, pos) {
                    Node::Id(f.name)
                } else {
                    match f.bind {
                        Some(b) => Node::Id(b),
                        None => Node::P(p),
                    }
                }
            } else if (match alias {
                Some(a) => span_at(a.span, pos),
                None => false,
            }) {
                match alias {
                    Some(a) => Node::Id(a),
                    None => Node::P(p),
                }
            } else {
                Node::P(p)
            }
        },
    }
}

/// Locates the innermost node holding `pos` under `e`: descends into the
/// child whose span holds the position; where no child holds it, the node
/// itself is the result, so a position at inter-token whitespace resolves
/// to the nearest enclosing block-like node. Type annotations carry no
/// value, so a position inside one resolves to the enclosing node.
pub open spec fn locate_in(e: Expr, pos: int) -> Node
    decreases e,
{
    match e {
        Expr::Lit { .. } => Node::E(e),
        Expr::Error { .. } => Node::E(e),
        Expr::Import { .. } => Node::E(e),
        Expr::Var { ident } => Node::Id(ident),
        Expr::App { span, ty, func, args } => {
            if span_at(expr_span(*func), pos) {
                locate_in(*func, pos)
            } else {
                let k = crate::walk::expr_at_idx(args@, pos, 0);
                if 0 <= k < args@.len() {
                    locate_in(args@[k], pos)
                } else {
                    Node::E(e)
                }
            }
        },
        Expr::Lambda { span, ty, params, body } => {
            let k = crate::walk::ident_at(params@, pos, 0);
            if 0 <= k < params@.len() {
                Node::Id(params@[k])
            } else if span_at(expr_span(*body), pos) {
                locate_in(*body, pos)
            } else {
                Node::E(e)
            }
        },
        Expr::Record { span, ty, fields } => {
            let k = crate::walk::recfield_name_at(fields@, pos, 0);
            if 0 <= k < fields@.len() {
                Node::Id(fields@[k].name)
            } else {
                let m = crate::walk::recfield_value_at(fields@, pos, 0);
                if 0 <= m < fields@.len() {
                    match fields@[m].value {
                        Some(v) => locate_in(v, pos),
                        None => Node::E(e),
                    }
                } else {
                    Node::E(e)
                }
            }
        },
        Expr::FieldAccess { span, recv, field } => {
            if span_at(expr_span(*recv), pos) {
                locate_in(*recv, pos)
            } else if span_at(field.span, pos) {
                Node::Id(field)
            } else {
                Node::E(e)
            }
        },
        Expr::Let { span, bindings, body } => {
            let k = crate::walk::binding_at(bindings@, pos, 0);
            if 0 <= k < bindings@.len() {
                let b = bindings@[k];
                if span_at(pat_span(b.name), pos) {
                    locate_pat(b.name, pos)
                } else {
                    let ai = crate::walk::ident_at(b.args@, pos, 0);
                    if 0 <= ai < b.args@.len() {
                        Node::Id(b.args@[ai])
                    } else if span_at(expr_span(b.expr), pos) {
                        locate_in(b.expr, pos)
                    } else {
                        Node::E(e)
                    }
                }
            } else if span_at(expr_span(*body), pos) {
                locate_in(*body, pos)
            } else {
                Node::E(e)
            }
        },
        Expr::Match { span, scrutinee, alts } => {
            if span_at(expr_span(*scrutinee), pos) {
                locate_in(*scrutinee, pos)
            } else {
                let k = crate::walk::alt_at(alts@, pos, 0);
                if 0 <= k < alts@.len() {
                    let a = alts@[k];
                    if span_at(pat_span(a.pat), pos) {
                        locate_pat(a.pat, pos)
                    } else if span_at(expr_span(a.expr), pos) {
                        locate_in(a.expr, pos)
                    } else {
                        Node::E(e)
                    }
                } else {
                    Node::E(e)
                }
            }
        },
        Expr::TypeDecl { span, decl, body } => {
            if span_at(expr_span(*body), pos) {
                locate_in(*body, pos)
            } else {
                Node::E(e)
            }
        },
    }
}

/// The hover answer at `pos`: the innermost containing node's span and
/// type, or nothing when the position lies outside the tree.
pub open spec fn hover_v(e: Expr, pos: int) -> Option<(Span, TyV)> {
    if span_at(expr_span(e), pos) {
        let n = locate_in(e, pos);
        Some((node_span(n), ty_view(node_ty(n))))
    } else {
        None
    }
}

/// Hover on a pattern: span and type of the innermost node at `pos`.
fn hover_pat(p: &Pat, pos: usize) -> (r: (Span, Ty))
    ensures
        r.0 == node_span(locate_pat(*p, pos as int)),
        ty_view(r.1) == ty_view(node_ty(locate_pat(*p, pos as int))),
{
    match p {
        Pat::Var { ident } => (ident.span, clone_ty(&ident.ty)),
        Pat::Ctor { span, name, args } => {
            if name.span.at(pos) {
                (name.span, clone_ty(&name.ty))
            } else {
                match crate::walk::find_ident_at(args, pos) {
                    Some(k) => (args[k].span, clone_ty(&args[k].ty)),
                    None => (*span, clone_ty(&name.ty)),
                }
            }
        },
        Pat::Record { span, ty, alias, fields } => {
            match crate::walk::find_patfield_at(fields, pos) {
                Some(k) => {
                    if fields[k].name.span.at(pos) {
                        (fields[k].name.span, clone_ty(&fields[k].name.ty))
                    } else {
                        match &fields[k].bind {
                            Some(b) => (b.span, clone_ty(&b.ty)),
                            None => (*span, clone_ty(ty)),
                        }
                    }
                },
                None => {
                    let alias_hit = match alias {
                        Some(a) => a.span.at(pos),
                        None => false,
                    };
                    if alias_hit {
                        match alias {
                            Some(a) => (a.span, clone_ty(&a.ty)),
                            None => (*span, clone_ty(ty)),
                        }
                    } else {
                        (*span, clone_ty(ty))
                    }
                },
            }
        },
    }
}

/// Hover under `e`, which holds `pos`: span and type of the innermost
/// containing node.
fn hover_in(e: &Expr, pos: usize) -> (r: (Span, Ty))
    ensures
        r.0 == node_span(locate_in(*e, pos as int)),
        ty_view(r.1) == ty_view(node_ty(locate_in(*e, pos as int))),
    decreases *e,
{
    match e {
        Expr::Lit { span, ty } => (*span, clone_ty(ty)),
        Expr::Error { span } => (*span, Ty::Hole),
        Expr::Import { span, .. } => (*span, Ty::Hole),
        Expr::Var { ident } => (ident.span, clone_ty(&ident.ty)),
        Expr::App { span, ty, func, args } => {
            if func.span().at(pos) {
                hover_in(func, pos)
            } else {
                match crate::walk::find_expr_at(args, pos) {
                    Some(k) => {
                        proof {
                            assert(decreases_to!(args@ => args@[k as int]));
                        }
                        hover_in(&args[k], pos)
                    },
                    None => (*span, clone_ty(ty)),
                }
            }
        },
        Expr::Lambda { span, ty, params, body } => {
            match crate::walk::find_ident_at(params, pos) {
                Some(k) => (params[k].span, clone_ty(&params[k].ty)),
                None => {
                    if body.span().at(pos) {
                        hover_in(body, pos)
                    } else {
                        (*span, clone_ty(ty))
                    }
                },
            }
        },
        Expr::Record { span, ty, fields } => {
            match crate::walk::find_recfield_name_at(fields, pos) {
                Some(k) => (fields[k].name.span, clone_ty(&fields[k].name.ty)),
                None => {
                    match crate::walk::find_recfield_value_at(fields, pos) {
                        Some(m) => {
                            match &fields[m].value {
                                Some(v) => {
                                    proof {
                                        assert(decreases_to!(fields@ => fields@[m as int]));
                                    }
                                    hover_in(v, pos)
                                },
                                None => (*span, clone_ty(ty)),
                            }
                        },
                        None => (*span, clone_ty(ty)),
                    }
                },
            }
        },
        Expr::FieldAccess { span, recv, field } => {
            if recv.span().at(pos) {
                hover_in(recv, pos)
            } else if field.span.at(pos) {
                (field.span, clone_ty(&field.ty))
            } else {
                (*span, clone_ty(&field.ty))
            }
        },
        Expr::Let { span, bindings, body } => {
            match crate::walk::find_binding_at(bindings, pos) {
                Some(k) => {
                    proof {
                        assert(decreases_to!(bindings@ => bindings@[k as int]));
                    }
                    let b = &bindings[k];
                    if b.name.span().at(pos) {
                        hover_pat(&b.name, pos)
                    } else {
                        match crate::walk::find_ident_at(&b.args, pos) {
                            Some(ai) => (b.args[ai].span, clone_ty(&b.args[ai].ty)),
                            None => {
                                if b.expr.span().at(pos) {
                                    hover_in(&b.expr, pos)
                                } else {
                                    let t = crate::ast::expr_ty(e);
                                    (*span, clone_ty(t))
                                }
                            },
                        }
                    }
                },
                None => {
                    if body.span().at(pos) {
                        hover_in(body, pos)
                    } else {
                        let t = crate::ast::expr_ty(e);
                        (*span, clone_ty(t))
                    }
                },
            }
        },
        Expr::Match { span, scrutinee, alts } => {
            if scrutinee.span().at(pos) {
                hover_in(scrutinee, pos)
            } else {
                match crate::walk::find_alt_at(alts, pos) {
                    Some(k) => {
                        proof {
                            assert(decreases_to!(alts@ => alts@[k as int]));
                        }
                        let a = &alts[k];
                        if a.pat.span().at(pos) {
                            hover_pat(&a.pat, pos)
                        } else if a.expr.span().at(pos) {
                            hover_in(&a.expr, pos)
                        } else {
                            let t = crate::ast::expr_ty(e);
                            (*span, clone_ty(t))
                        }
                    },
                    None => {
                        let t = crate::ast::expr_ty(e);
                        (*span, clone_ty(t))
                    },
                }
            }
        },
        Expr::TypeDecl { span, decl, body } => {
            if body.span().at(pos) {
                hover_in(body, pos)
            } else {
                let t = crate::ast::expr_ty(e);
                (*span, clone_ty(t))
            }
        },
    }
}

/// Hover/type-at-position: the span and type of the most specific node
/// whose span holds `pos`, inclusive of the right edge, or nothing when
/// the position lies outside the tree.
pub fn find(tree: &Expr, pos: usize) -> (r: Option<(Span, Ty)>)
    ensures
        match r {
            Some((sp, t)) => hover_v(*tree, pos as int) == Some((sp, ty_view(t))),
            None => hover_v(*tree, pos as int) is None,
        },
{
    if tree.span().at(pos) {
        let (sp, t) = hover_in(tree, pos);
        Some((sp, t))
    } else {
        None
    }
}

} // verus!
