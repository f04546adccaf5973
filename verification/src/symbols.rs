//! The symbol finder: every occurrence of the binding under the cursor,
//! by identity and never by spelling, and the whole tree's declared
//! bindings.

use vstd::prelude::*;

use crate::ast::{
    expr_span, span_at, Alt, Binding, Expr, Ident, Pat, PatField, RecField, Span,
};
use crate::locate::{locate_in, Node};
use crate::name::{copy_name, Name};

verus! {

/// Appends the spans of identifier occurrences with identity `id` among a
/// run of identifiers.
pub open spec fn occs_idents(acc: Seq<Span>, s: Seq<Ident>, i: int, id: u64) -> Seq<Span>
    decreases s.len() - i,
{
    if i < 0 || i >= s.len() {
        acc
    } else if s[i].sym.id == id {
        occs_idents(acc.push(s[i].span), s, i + 1, id)
    } else {
        occs_idents(acc, s, i + 1, id)
    }
}

/// Appends the occurrence spans of `id` in a pattern.
pub open spec fn occs_pat(acc: Seq<Span>, p: Pat, id: u64) -> Seq<Span> {
    match p {
        Pat::Var { ident } => if ident.sym.id == id {
            acc.push(ident.span)
        } else {
            acc
        },
        Pat::Ctor { span, name, args } => {
            let acc1 = if name.sym.id == id {
                acc.push(name.span)
            } else {
                acc
            };
            occs_idents(acc1, args@, 0, id)
        },
        Pat::Record { span, ty, alias, fields } => {
            let acc1 = occs_patfields(acc, fields@, 0, id);
            match alias {
                Some(a) => if a.sym.id == id {
                    acc1.push(a.span)
                } else {
                    acc1
                },
                None => acc1,
            }
        },
    }
}

/// Appends the occurrence spans of `id` among record-pattern fields: the
/// field-name occurrences and any rename binders.
pub open spec fn occs_patfields(acc: Seq<Span>, s: Seq<PatField>, i: int, id: u64) -> Seq<Span>
    decreases s.len() - i,
{
    if i < 0 || i >= s.len() {
        acc
    } else {
        let acc1 = if s[i].name.sym.id == id {
            acc.push(s[i].name.span)
        } else {
            acc
        };
        let acc2 = match s[i].bind {
            Some(b) => if b.sym.id == id {
                acc1.push(b.span)
            } else {
                acc1
            },
            None => acc1,
        };
        occs_patfields(acc2, s, i + 1, id)
    }
}

/// Appends the occurrence spans of the binding with identity `id` under
/// `e`, in source order: identifier occurrences, binders, field
/// occurrences and constructor occurrences that carry that identity.
pub open spec fn occs_expr(acc: Seq<Span>, e: Expr, id: u64) -> Seq<Span>
    decreases e, 0nat,
{
    match e {
        Expr::Lit { .. } => acc,
        Expr::Error { .. } => acc,
        Expr::Import { .. } => acc,
        Expr::Var { ident } => if ident.sym.id == id {
            acc.push(ident.span)
        } else {
            acc
        },
        Expr::App { span, ty, func, args } => occs_exprs(occs_expr(acc, *func, id), args@, 0, id),
        Expr::Lambda { span, ty, params, body } => occs_expr(
            occs_idents(acc, params@, 0, id),
            *body,
            id,
        ),
        Expr::Record { span, ty, fields } => occs_recfields(acc, fields@, 0, id),
        Expr::FieldAccess { span, recv, field } => {
            let acc1 = occs_expr(acc, *recv, id);
            if field.sym.id == id {
                acc1.push(field.span)
            } else {
                acc1
            }
        },
        Expr::Let { span, bindings, body } => occs_expr(
            occs_bindings(acc, bindings@, 0, id),
            *body,
            id,
        ),
        Expr::Match { span, scrutinee, alts } => occs_alts(
            occs_expr(acc, *scrutinee, id),
            alts@,
            0,
            id,
        ),
        Expr::TypeDecl { span, decl, body } => {
            let acc1 = if decl.name.sym.id == id {
                acc.push(decl.name.span)
            } else {
                acc
            };
            let acc2 = occs_idents(acc1, decl.params@, 0, id);
            let acc3 = occs_idents(acc2, decl.ctors@, 0, id);
            occs_expr(acc3, *body, id)
        },
    }
}

/// `occs_expr` over a run of expressions.
pub open spec fn occs_exprs(acc: Seq<Span>, s: Seq<Expr>, i: int, id: u64) -> Seq<Span>
    decreases s, s.len() - i,
{
    if i < 0 || i >= s.len() {
        acc
    } else {
        occs_exprs(occs_expr(acc, s[i], id), s, i + 1, id)
    }
}

/// `occs_expr` over a binding group: each pattern, argument run and bound
/// expression in order.
pub open spec fn occs_bindings(acc: Seq<Span>, s: Seq<Binding>, i: int, id: u64) -> Seq<Span>
    decreases s, s.len() - i,
{
    if i < 0 || i >= s.len() {
        acc
    } else {
        let acc1 = occs_pat(acc, s[i].name, id);
        let acc2 = occs_idents(acc1, s[i].args@, 0, id);
        occs_bindings(occs_expr(acc2, s[i].expr, id), s, i + 1, id)
    }
}

/// `occs_expr` over the alternatives of a match.
pub open spec fn occs_alts(acc: Seq<Span>, s: Seq<Alt>, i: int, id: u64) -> Seq<Span>
    decreases s, s.len() - i,
{
    if i < 0 || i >= s.len() {
        acc
    } else {
        let acc1 = occs_pat(acc, s[i].pat, id);
        occs_alts(occs_expr(acc1, s[i].expr, id), s, i + 1, id)
    }
}

/// `occs_expr` over record-literal fields: each field-name occurrence and
/// value in order.
pub open spec fn occs_recfields(acc: Seq<Span>, s: Seq<RecField>, i: int, id: u64) -> Seq<Span>
    decreases s, s.len() - i,
{
    if i < 0 || i >= s.len() {
        acc
    } else {
        let acc1 = if s[i].name.sym.id == id {
            acc.push(s[i].name.span)
        } else {
            acc
        };
        let acc2 = match s[i].value {
            Some(v) => occs_expr(acc1, v, id),
            None => acc1,
        };
        occs_recfields(acc2, s, i + 1, id)
    }
}

/// All occurrence spans of the binding `id` in the tree, in source order.
pub open spec fn occurrences(e: Expr, id: u64) -> Seq<Span> {
    occs_expr(Seq::empty(), e, id)
}

/// Collects occurrence spans among a run of identifiers.
fn walk_idents(out: &mut Vec<Span>, s: &Vec<Ident>, id: u64)
    ensures
        final(out)@ == occs_idents(old(out)@, s@, 0, id),
{
    let mut i: usize = 0;
    while i < s.len()
        invariant
            i <= s.len(),
            occs_idents(old(out)@, s@, 0, id) == occs_idents(out@, s@, i as int, id),
        decreases s.len() - i,
    {
        if s[i].sym.id == id {
            out.push(s[i].span);
        }
        i = i + 1;
    }
}

/// Collects occurrence spans in a pattern.
fn walk_pat(out: &mut Vec<Span>, p: &Pat, id: u64)
    ensures
        final(out)@ == occs_pat(old(out)@, *p, id),
{
    match p {
        Pat::Var { ident } => {
            if ident.sym.id == id {
                out.push(ident.span);
            }
        },
        Pat::Ctor { span, name, args } => {
            if name.sym.id == id {
                out.push(name.span);
            }
            walk_idents(out, args, id);
        },
        Pat::Record { span, ty, alias, fields } => {
            let mut i: usize = 0;
            while i < fields.len()
                invariant
                    i <= fields.len(),
                    occs_patfields(old(out)@, fields@, 0, id) == occs_patfields(
                        out@,
                        fields@,
                        i as int,
                        id,
                    ),
                decreases fields.len() - i,
            {
                if fields[i].name.sym.id == id {
                    out.push(fields[i].name.span);
                }
                match &fields[i].bind {
                    Some(b) => {
                        if b.sym.id == id {
                            out.push(b.span);
                        }
                    },
                    None => {},
                }
                i = i + 1;
            }
            match alias {
                Some(a) => {
                    if a.sym.id == id {
                        out.push(a.span);
                    }
                },
                None => {},
            }
        },
    }
}

/// Collects occurrence spans under `e`, in source order.
#[verifier::loop_isolation(false)]
fn walk_expr(out: &mut Vec<Span>, e: &Expr, id: u64)
    ensures
        final(out)@ == occs_expr(old(out)@, *e, id),
    decreases *e,
{
    match e {
        Expr::Lit { .. } => {},
        Expr::Error { .. } => {},
        Expr::Import { .. } => {},
        Expr::Var { ident } => {
            if ident.sym.id == id {
                out.push(ident.span);
            }
        },
        Expr::App { span, ty, func, args } => {
            walk_expr(out, func, id);
            let mut i: usize = 0;
            while i < args.len()
                invariant
                    i <= args.len(),
                    occs_expr(old(out)@, *e, id) == occs_exprs(out@, args@, i as int, id),
                decreases args.len() - i,
            {
                proof {
                    assert(decreases_to!(args@ => args@[i as int]));
                }
                walk_expr(out, &args[i], id);
                i = i + 1;
            }
        },
        Expr::Lambda { span, ty, params, body } => {
            walk_idents(out, params, id);
            walk_expr(out, body, id);
        },
        Expr::Record { span, ty, fields } => {
            let mut i: usize = 0;
            while i < fields.len()
                invariant
                    i <= fields.len(),
                    occs_expr(old(out)@, *e, id) == occs_recfields(out@, fields@, i as int, id),
                decreases fields.len() - i,
            {
                if fields[i].name.sym.id == id {
                    out.push(fields[i].name.span);
                }
                match &fields[i].value {
                    Some(v) => {
                        proof {
                            assert(decreases_to!(fields@ => fields@[i as int]));
                        }
                        walk_expr(out, v, id);
                    },
                    None => {},
                }
                i = i + 1;
            }
        },
        Expr::FieldAccess { span, recv, field } => {
            walk_expr(out, recv, id);
            if field.sym.id == id {
                out.push(field.span);
            }
        },
        Expr::Let { span, bindings, body } => {
            let mut i: usize = 0;
            while i < bindings.len()
                invariant
                    i <= bindings.len(),
                    occs_expr(old(out)@, *e, id) == occs_expr(
                        occs_bindings(out@, bindings@, i as int, id),
                        **body,
                        id,
                    ),
                decreases bindings.len() - i,
            {
                proof {
                    assert(decreases_to!(bindings@ => bindings@[i as int]));
                }
                walk_pat(out, &bindings[i].name, id);
                walk_idents(out, &bindings[i].args, id);
                walk_expr(out, &bindings[i].expr, id);
                i = i + 1;
            }
            walk_expr(out, body, id);
        },
        Expr::Match { span, scrutinee, alts } => {
            walk_expr(out, scrutinee, id);
            let mut i: usize = 0;
            while i < alts.len()
                invariant
                    i <= alts.len(),
                    occs_expr(old(out)@, *e, id) == occs_alts(out@, alts@, i as int, id),
                decreases alts.len() - i,
            {
                proof {
                    assert(decreases_to!(alts@ => alts@[i as int]));
                }
                walk_pat(out, &alts[i].pat, id);
                walk_expr(out, &alts[i].expr, id);
                i = i + 1;
            }
        },
        Expr::TypeDecl { span, decl, body } => {
            if decl.name.sym.id == id {
                out.push(decl.name.span);
            }
            walk_idents(out, &decl.params, id);
            walk_idents(out, &decl.ctors, id);
            walk_expr(out, body, id);
        },
    }
}

/// The binding under the cursor and all its occurrences.
#[derive(PartialEq, Eq, Debug)]
pub struct SymbolHit {
    pub name: Name,
    pub spans: Vec<Span>,
}

/// What `find_all_symbols` answers: the spelling of the identifier
/// occurrence located at `pos` and the spans of every occurrence of that
/// exact binding identity in the tree, in source order — never of a
/// differently-scoped binding that merely shares the spelling. Nothing
/// when the position does not stand on an identifier.
pub open spec fn find_all_symbols_v(e: Expr, pos: int) -> Option<(Seq<u8>, Seq<Span>)> {
    if span_at(expr_span(e), pos) {
        match locate_in(e, pos) {
            Node::Id(i) => Some((i.sym.name@, occurrences(e, i.sym.id))),
            _ => None,
        }
    } else {
        None
    }
}

/// The identifier occurrence located at `pos`, as its spelling and
/// identity.
pub fn ident_under(e: &Expr, pos: usize) -> (r: Option<(Name, u64)>)
    ensures
        match r {
            Some((n, id)) => locate_in(*e, pos as int) matches Node::Id(i) && i.sym.name@ == n@
                && i.sym.id == id,
            None => !(locate_in(*e, pos as int) is Id),
        },
    decreases *e,
{
    match e {
        Expr::Lit { .. } => None,
        Expr::Error { .. } => None,
        Expr::Import { .. } => None,
        Expr::Var { ident } => Some((copy_name(&ident.sym.name), ident.sym.id)),
        Expr::App { span, ty, func, args } => {
            if func.span().at(pos) {
                ident_under(func, pos)
            } else {
                match crate::walk::find_expr_at(args, pos) {
                    Some(k) => {
                        proof {
                            assert(decreases_to!(args@ => args@[k as int]));
                        }
                        ident_under(&args[k], pos)
                    },
                    None => None,
                }
            }
        },
        Expr::Lambda { span, ty, params, body } => {
            match crate::walk::find_ident_at(params, pos) {
                Some(k) => Some((copy_name(&params[k].sym.name), params[k].sym.id)),
                None => {
                    if body.span().at(pos) {
                        ident_under(body, pos)
                    } else {
                        None
                    }
                },
            }
        },
        Expr::Record { span, ty, fields } => {
            match crate::walk::find_recfield_name_at(fields, pos) {
                Some(k) => Some((copy_name(&fields[k].name.sym.name), fields[k].name.sym.id)),
                None => {
                    match crate::walk::find_recfield_value_at(fields, pos) {
                        Some(m) => {
                            match &fields[m].value {
                                Some(v) => {
                                    proof {
                                        assert(decreases_to!(fields@ => fields@[m as int]));
                                    }
                                    ident_under(v, pos)
                                },
                                None => None,
                            }
                        },
                        None => None,
                    }
                },
            }
        },
        Expr::FieldAccess { span, recv, field } => {
            if recv.span().at(pos) {
                ident_under(recv, pos)
            } else if field.span.at(pos) {
                Some((copy_name(&field.sym.name), field.sym.id))
            } else {
                None
            }
        },
        Expr::Let { span, bindings, body } => {
            match crate::walk::find_binding_at(bindings, pos) {
                Some(k) => {
                    proof {
                        assert(decreases_to!(bindings@ => bindings@[k as int]));
                    }
                    let b = &bindings[k];
                    if b.name.span().at(pos) {
                        ident_under_pat(&b.name, pos)
                    } else {
                        match crate::walk::find_ident_at(&b.args, pos) {
                            Some(ai) => Some(
                                (copy_name(&b.args[ai].sym.name), b.args[ai].sym.id),
                            ),
                            None => {
                                if b.expr.span().at(pos) {
                                    ident_under(&b.expr, pos)
                                } else {
                                    None
                                }
                            },
                        }
                    }
                },
                None => {
                    if body.span().at(pos) {
                        ident_under(body, pos)
                    } else {
                        None
                    }
                },
            }
        },
        Expr::Match { span, scrutinee, alts } => {
            if scrutinee.span().at(pos) {
                ident_under(scrutinee, pos)
            } else {
                match crate::walk::find_alt_at(alts, pos) {
                    Some(k) => {
                        proof {
                            assert(decreases_to!(alts@ => alts@[k as int]));
                        }
                        let a = &alts[k];
                        if a.pat.span().at(pos) {
                            ident_under_pat(&a.pat, pos)
                        } else if a.expr.span().at(pos) {
                            ident_under(&a.expr, pos)
                        } else {
                            None
                        }
                    },
                    None => None,
                }
            }
        },
        Expr::TypeDecl { span, decl, body } => {
            if body.span().at(pos) {
                ident_under(body, pos)
            } else {
                None
            }
        },
    }
}

/// The identifier occurrence located at `pos` in a pattern.
fn ident_under_pat(p: &Pat, pos: usize) -> (r: Option<(Name, u64)>)
    ensures
        match r {
            Some((n, id)) => crate::locate::locate_pat(*p, pos as int) matches Node::Id(i)
                && i.sym.name@ == n@ && i.sym.id == id,
            None => !(crate::locate::locate_pat(*p, pos as int) is Id),
        },
{
    match p {
        Pat::Var { ident } => Some((copy_name(&ident.sym.name), ident.sym.id)),
        Pat::Ctor { span, name, args } => {
            if name.span.at(pos) {
                Some((copy_name(&name.sym.name), name.sym.id))
            } else {
                match crate::walk::find_ident_at(args, pos) {
                    Some(k) => Some((copy_name(&args[k].sym.name), args[k].sym.id)),
                    None => None,
                }
            }
        },
        Pat::Record { span, ty, alias, fields } => {
            match crate::walk::find_patfield_at(fields, pos) {
                Some(k) => {
                    if fields[k].name.span.at(pos) {
                        Some((copy_name(&fields[k].name.sym.name), fields[k].name.sym.id))
                    } else {
                        match &fields[k].bind {
                            Some(b) => Some((copy_name(&b.sym.name), b.sym.id)),
                            None => None,
                        }
                    }
                },
                None => {
                    let alias_hit = match alias {
                        Some(a) => a.span.at(pos),
                        None => false,
                    };
                    if alias_hit {
                        match alias {
                            Some(a) => Some((copy_name(&a.sym.name), a.sym.id)),
                            None => None,
                        }
                    } else {
                        None
                    }
                },
            }
        },
    }
}

/// Symbol search: the binding referenced or declared at `pos` and the
/// span of every occurrence of that exact binding identity, in source
/// order; see `find_all_symbols_v`.
pub fn find_all_symbols(tree: &Expr, pos: usize) -> (r: Option<SymbolHit>)
    ensures
        match r {
            Some(h) => find_all_symbols_v(*tree, pos as int) == Some((h.name@, h.spans@)),
            None => find_all_symbols_v(*tree, pos as int) is None,
        },
{
    if !tree.span().at(pos) {
        return None;
    }
    match ident_under(tree, pos) {
        Some((name, id)) => {
            let mut spans: Vec<Span> = Vec::new();
            proof {
                assert(spans@ =~= Seq::<Span>::empty());
            }
            walk_expr(&mut spans, tree, id);
            Some(SymbolHit { name, spans })
        },
        None => None,
    }
}

} // verus!

verus! {

/// A declared binding: its spelling and where it is declared.
#[derive(PartialEq, Eq, Debug)]
pub struct SymDecl {
    pub name: Name,
    pub span: Span,
}

/// Ghost view of a declared binding.
pub struct SymDeclV {
    pub name: Seq<u8>,
    pub span: Span,
}

/// View of a declared binding.
pub open spec fn sym_decl_view(d: SymDecl) -> SymDeclV {
    SymDeclV { name: d.name@, span: d.span }
}

/// View of a run of declared bindings.
pub open spec fn sym_decls_view(s: Seq<SymDecl>) -> Seq<SymDeclV> {
    Seq::new(s.len(), |i: int| sym_decl_view(s[i]))
}

/// Appends the declared bindings under `e`, in source order: plain `let`
/// bindings and type declarations. Names introduced purely by
/// destructuring or unpacking patterns are left out: their defining
/// origin is elsewhere and not authoritative for this listing.
pub open spec fn decls_expr(acc: Seq<SymDeclV>, e: Expr) -> Seq<SymDeclV>
    decreases e, 0nat,
{
    match e {
        Expr::Lit { .. } => acc,
        Expr::Error { .. } => acc,
        Expr::Import { .. } => acc,
        Expr::Var { .. } => acc,
        Expr::App { span, ty, func, args } => decls_exprs(decls_expr(acc, *func), args@, 0),
        Expr::Lambda { span, ty, params, body } => decls_expr(acc, *body),
        Expr::Record { span, ty, fields } => decls_recfields(acc, fields@, 0),
        Expr::FieldAccess { span, recv, field } => decls_expr(acc, *recv),
        Expr::Let { span, bindings, body } => decls_expr(decls_bindings(acc, bindings@, 0), *body),
        Expr::Match { span, scrutinee, alts } => decls_alts(decls_expr(acc, *scrutinee), alts@, 0),
        Expr::TypeDecl { span, decl, body } => decls_expr(
            acc.push(SymDeclV { name: decl.name.sym.name@, span: decl.name.span }),
            *body,
        ),
    }
}

/// `decls_expr` over a run of expressions.
pub open spec fn decls_exprs(acc: Seq<SymDeclV>, s: Seq<Expr>, i: int) -> Seq<SymDeclV>
    decreases s, s.len() - i,
{
    if i < 0 || i >= s.len() {
        acc
    } else {
        decls_exprs(decls_expr(acc, s[i]), s, i + 1)
    }
}

/// `decls_expr` over a binding group: a plain binder is a declaration,
/// a destructuring pattern is not.
pub open spec fn decls_bindings(acc: Seq<SymDeclV>, s: Seq<Binding>, i: int) -> Seq<SymDeclV>
    decreases s, s.len() - i,
{
    if i < 0 || i >= s.len() {
        acc
    } else {
        let acc1 = match s[i].name {
            Pat::Var { ident } => acc.push(
                SymDeclV { name: ident.sym.name@, span: ident.span },
            ),
            _ => acc,
        };
        decls_bindings(decls_expr(acc1, s[i].expr), s, i + 1)
    }
}

/// `decls_expr` over the alternatives of a match.
pub open spec fn decls_alts(acc: Seq<SymDeclV>, s: Seq<Alt>, i: int) -> Seq<SymDeclV>
    decreases s, s.len() - i,
{
    if i < 0 || i >= s.len() {
        acc
    } else {
        decls_alts(decls_expr(acc, s[i].expr), s, i + 1)
    }
}

/// `decls_expr` over record-literal fields.
pub open spec fn decls_recfields(acc: Seq<SymDeclV>, s: Seq<RecField>, i: int) -> Seq<SymDeclV>
    decreases s, s.len() - i,
{
    if i < 0 || i >= s.len() {
        acc
    } else {
        let acc1 = match s[i].value {
            Some(v) => decls_expr(acc, v),
            None => acc,
        };
        decls_recfields(acc1, s, i + 1)
    }
}

/// Appending a declaration appends its view.
pub proof fn lemma_sym_decls_view_push(s: Seq<SymDecl>, x: SymDecl)
    ensures
        sym_decls_view(s.push(x)) == sym_decls_view(s).push(sym_decl_view(x)),
{
    assert(sym_decls_view(s.push(x)) =~= sym_decls_view(s).push(sym_decl_view(x)));
}

/// Collects the declared bindings under `e`, in source order.
#[verifier::loop_isolation(false)]
fn walk_decls(out: &mut Vec<SymDecl>, e: &Expr)
    ensures
        sym_decls_view(final(out)@) == decls_expr(sym_decls_view(old(out)@), *e),
    decreases *e,
{
    match e {
        Expr::Lit { .. } => {},
        Expr::Error { .. } => {},
        Expr::Import { .. } => {},
        Expr::Var { .. } => {},
        Expr::App { span, ty, func, args } => {
            walk_decls(out, func);
            let mut i: usize = 0;
            while i < args.len()
                invariant
                    i <= args.len(),
                    decls_expr(sym_decls_view(old(out)@), *e) == decls_exprs(
                        sym_decls_view(out@),
                        args@,
                        i as int,
                    ),
                decreases args.len() - i,
            {
                proof {
                    assert(decreases_to!(args@ => args@[i as int]));
                }
                walk_decls(out, &args[i]);
                i = i + 1;
            }
        },
        Expr::Lambda { span, ty, params, body } => {
            walk_decls(out, body);
        },
        Expr::Record { span, ty, fields } => {
            let mut i: usize = 0;
            while i < fields.len()
                invariant
                    i <= fields.len(),
                    decls_expr(sym_decls_view(old(out)@), *e) == decls_recfields(
                        sym_decls_view(out@),
                        fields@,
                        i as int,
                    ),
                decreases fields.len() - i,
            {
                match &fields[i].value {
                    Some(v) => {
                        proof {
                            assert(decreases_to!(fields@ => fields@[i as int]));
                        }
                        walk_decls(out, v);
                    },
                    None => {},
                }
                i = i + 1;
            }
        },
        Expr::FieldAccess { span, recv, field } => {
            walk_decls(out, recv);
        },
        Expr::Let { span, bindings, body } => {
            let mut i: usize = 0;
            while i < bindings.len()
                invariant
                    i <= bindings.len(),
                    decls_expr(sym_decls_view(old(out)@), *e) == decls_expr(
                        decls_bindings(sym_decls_view(out@), bindings@, i as int),
                        **body,
                    ),
                decreases bindings.len() - i,
            {
                proof {
                    assert(decreases_to!(bindings@ => bindings@[i as int]));
                }
                match &bindings[i].name {
                    Pat::Var { ident } => {
                        let d = SymDecl { name: copy_name(&ident.sym.name), span: ident.span };
                        proof {
                            lemma_sym_decls_view_push(out@, d);
                        }
                        out.push(d);
                    },
                    _ => {},
                }
                walk_decls(out, &bindings[i].expr);
                i = i + 1;
            }
            walk_decls(out, body);
        },
        Expr::Match { span, scrutinee, alts } => {
            walk_decls(out, scrutinee);
            let mut i: usize = 0;
            while i < alts.len()
                invariant
                    i <= alts.len(),
                    decls_expr(sym_decls_view(old(out)@), *e) == decls_alts(
                        sym_decls_view(out@),
                        alts@,
                        i as int,
                    ),
                decreases alts.len() - i,
            {
                proof {
                    assert(decreases_to!(alts@ => alts@[i as int]));
                }
                walk_decls(out, &alts[i].expr);
                i = i + 1;
            }
        },
        Expr::TypeDecl { span, decl, body } => {
            let d = SymDecl { name: copy_name(&decl.name.sym.name), span: decl.name.span };
            proof {
                lemma_sym_decls_view_push(out@, d);
            }
            out.push(d);
            walk_decls(out, body);
        },
    }
}

/// The tree's declared bindings, in source order.
pub open spec fn all_symbols_v(e: Expr) -> Seq<SymDeclV> {
    decls_expr(Seq::empty(), e)
}

/// All declared bindings of the tree, in source order; see
/// `all_symbols_v` — destructured names are left out.
pub fn all_symbols(tree: &Expr) -> (r: Vec<SymDecl>)
    ensures
        sym_decls_view(r@) == all_symbols_v(*tree),
{
    let mut out: Vec<SymDecl> = Vec::new();
    proof {
        assert(sym_decls_view(out@) =~= Seq::<SymDeclV>::empty());
    }
    walk_decls(&mut out, tree);
    out
}

} // verus!

verus! {

/// Whether some identifier in the run, from `i` on, is an occurrence of
/// `id` at span `at`.
pub open spec fn has_occ_idents(s: Seq<Ident>, i: int, id: u64, at: Span) -> bool
    decreases s.len() - i,
{
    if i < 0 || i >= s.len() {
        false
    } else {
        (s[i].sym.id == id && s[i].span == at) || has_occ_idents(s, i + 1, id, at)
    }
}

/// Whether a pattern holds an occurrence of `id` at span `at`.
pub open spec fn has_occ_pat(p: Pat, id: u64, at: Span) -> bool {
    match p {
        Pat::Var { ident } => ident.sym.id == id && ident.span == at,
        Pat::Ctor { span, name, args } => (name.sym.id == id && name.span == at) || has_occ_idents(
            args@,
            0,
            id,
            at,
        ),
        Pat::Record { span, ty, alias, fields } => has_occ_patfields(fields@, 0, id, at) || (
        match alias {
            Some(a) => a.sym.id == id && a.span == at,
            None => false,
        }),
    }
}

/// Whether some pattern field, from `i` on, holds an occurrence of `id`
/// at span `at`.
pub open spec fn has_occ_patfields(s: Seq<PatField>, i: int, id: u64, at: Span) -> bool
    decreases s.len() - i,
{
    if i < 0 || i >= s.len() {
        false
    } else {
        (s[i].name.sym.id == id && s[i].name.span == at) || (match s[i].bind {
            Some(b) => b.sym.id == id && b.span == at,
            None => false,
        }) || has_occ_patfields(s, i + 1, id, at)
    }
}

/// Whether the tree under `e` holds an occurrence of the binding `id` at
/// span `at`.
pub open spec fn has_occ_expr(e: Expr, id: u64, at: Span) -> bool
    decreases e, 0nat,
{
    match e {
        Expr::Lit { .. } => false,
        Expr::Error { .. } => false,
        Expr::Import { .. } => false,
        Expr::Var { ident } => ident.sym.id == id && ident.span == at,
        Expr::App { span, ty, func, args } => has_occ_expr(*func, id, at) || has_occ_exprs(
            args@,
            0,
            id,
            at,
        ),
        Expr::Lambda { span, ty, params, body } => has_occ_idents(params@, 0, id, at)
            || has_occ_expr(*body, id, at),
        Expr::Record { span, ty, fields } => has_occ_recfields(fields@, 0, id, at),
        Expr::FieldAccess { span, recv, field } => has_occ_expr(*recv, id, at) || (field.sym.id
            == id && field.span == at),
        Expr::Let { span, bindings, body } => has_occ_bindings(bindings@, 0, id, at)
            || has_occ_expr(*body, id, at),
        Expr::Match { span, scrutinee, alts } => has_occ_expr(*scrutinee, id, at) || has_occ_alts(
            alts@,
            0,
            id,
            at,
        ),
        Expr::TypeDecl { span, decl, body } => (decl.name.sym.id == id && decl.name.span == at)
            || has_occ_idents(decl.params@, 0, id, at) || has_occ_idents(decl.ctors@, 0, id, at)
            || has_occ_expr(*body, id, at),
    }
}

/// `has_occ_expr` over a run of expressions.
pub open spec fn has_occ_exprs(s: Seq<Expr>, i: int, id: u64, at: Span) -> bool
    decreases s, s.len() - i,
{
    if i < 0 || i >= s.len() {
        false
    } else {
        has_occ_expr(s[i], id, at) || has_occ_exprs(s, i + 1, id, at)
    }
}

/// `has_occ_expr` over a binding group.
pub open spec fn has_occ_bindings(s: Seq<Binding>, i: int, id: u64, at: Span) -> bool
    decreases s, s.len() - i,
{
    if i < 0 || i >= s.len() {
        false
    } else {
        has_occ_pat(s[i].name, id, at) || has_occ_idents(s[i].args@, 0, id, at) || has_occ_expr(
            s[i].expr,
            id,
            at,
        ) || has_occ_bindings(s, i + 1, id, at)
    }
}

/// `has_occ_expr` over the alternatives of a match.
pub open spec fn has_occ_alts(s: Seq<Alt>, i: int, id: u64, at: Span) -> bool
    decreases s, s.len() - i,
{
    if i < 0 || i >= s.len() {
        false
    } else {
        has_occ_pat(s[i].pat, id, at) || has_occ_expr(s[i].expr, id, at) || has_occ_alts(
            s,
            i + 1,
            id,
            at,
        )
    }
}

/// `has_occ_expr` over record-literal fields.
pub open spec fn has_occ_recfields(s: Seq<RecField>, i: int, id: u64, at: Span) -> bool
    decreases s, s.len() - i,
{
    if i < 0 || i >= s.len() {
        false
    } else {
        (s[i].name.sym.id == id && s[i].name.span == at) || (match s[i].value {
            Some(v) => has_occ_expr(v, id, at),
            None => false,
        }) || has_occ_recfields(s, i + 1, id, at)
    }
}

/// Membership in a span list after a push.
proof fn lemma_span_push_contains(s: Seq<Span>, x: Span, y: Span)
    ensures
        s.push(x).contains(y) <==> (s.contains(y) || y == x),
{
    if s.push(x).contains(y) {
        let i = choose|i: int| 0 <= i < s.push(x).len() && s.push(x)[i] == y;
        if i < s.len() {
            assert(s[i] == y);
        }
    }
    if s.contains(y) {
        let i = choose|i: int| 0 <= i < s.len() && s[i] == y;
        assert(s.push(x)[i] == y);
    }
    assert(s.push(x)[s.len() as int] == x);
}

/// What the identifier-run collector gathers.
proof fn lemma_occs_idents_mem(acc: Seq<Span>, s: Seq<Ident>, i: int, id: u64, at: Span)
    ensures
        occs_idents(acc, s, i, id).contains(at) <==> (acc.contains(at) || has_occ_idents(
            s,
            i,
            id,
            at,
        )),
    decreases s.len() - i,
{
    if !(i < 0 || i >= s.len()) {
        if s[i].sym.id == id {
            lemma_occs_idents_mem(acc.push(s[i].span), s, i + 1, id, at);
            lemma_span_push_contains(acc, s[i].span, at);
        } else {
            lemma_occs_idents_mem(acc, s, i + 1, id, at);
        }
    }
}

/// What the pattern collector gathers.
proof fn lemma_occs_pat_mem(acc: Seq<Span>, p: Pat, id: u64, at: Span)
    ensures
        occs_pat(acc, p, id).contains(at) <==> (acc.contains(at) || has_occ_pat(p, id, at)),
{
    match p {
        Pat::Var { ident } => {
            if ident.sym.id == id {
                lemma_span_push_contains(acc, ident.span, at);
            }
        },
        Pat::Ctor { span, name, args } => {
            let acc1 = if name.sym.id == id {
                acc.push(name.span)
            } else {
                acc
            };
            if name.sym.id == id {
                lemma_span_push_contains(acc, name.span, at);
            }
            lemma_occs_idents_mem(acc1, args@, 0, id, at);
        },
        Pat::Record { span, ty, alias, fields } => {
            lemma_occs_patfields_mem(acc, fields@, 0, id, at);
            let acc1 = occs_patfields(acc, fields@, 0, id);
            match alias {
                Some(a) => {
                    if a.sym.id == id {
                        lemma_span_push_contains(acc1, a.span, at);
                    }
                },
                None => {},
            }
        },
    }
}

/// What the pattern-field collector gathers.
proof fn lemma_occs_patfields_mem(acc: Seq<Span>, s: Seq<PatField>, i: int, id: u64, at: Span)
    ensures
        occs_patfields(acc, s, i, id).contains(at) <==> (acc.contains(at) || has_occ_patfields(
            s,
            i,
            id,
            at,
        )),
    decreases s.len() - i,
{
    if !(i < 0 || i >= s.len()) {
        let acc1 = if s[i].name.sym.id == id {
            acc.push(s[i].name.span)
        } else {
            acc
        };
        if s[i].name.sym.id == id {
            lemma_span_push_contains(acc, s[i].name.span, at);
        }
        let acc2 = match s[i].bind {
            Some(b) => if b.sym.id == id {
                acc1.push(b.span)
            } else {
                acc1
            },
            None => acc1,
        };
        match s[i].bind {
            Some(b) => {
                if b.sym.id == id {
                    lemma_span_push_contains(acc1, b.span, at);
                }
            },
            None => {},
        }
        lemma_occs_patfields_mem(acc2, s, i + 1, id, at);
    }
}

/// What the expression collector gathers: the accumulator's spans plus
/// exactly the occurrence spans of `id` under `e`.
proof fn lemma_occs_expr_mem(acc: Seq<Span>, e: Expr, id: u64, at: Span)
    ensures
        occs_expr(acc, e, id).contains(at) <==> (acc.contains(at) || has_occ_expr(e, id, at)),
    decreases e, 0nat,
{
    match e {
        Expr::Lit { .. } => {},
        Expr::Error { .. } => {},
        Expr::Import { .. } => {},
        Expr::Var { ident } => {
            if ident.sym.id == id {
                lemma_span_push_contains(acc, ident.span, at);
            }
        },
        Expr::App { span, ty, func, args } => {
            lemma_occs_expr_mem(acc, *func, id, at);
            lemma_occs_exprs_mem(occs_expr(acc, *func, id), args@, 0, id, at);
        },
        Expr::Lambda { span, ty, params, body } => {
            lemma_occs_idents_mem(acc, params@, 0, id, at);
            lemma_occs_expr_mem(occs_idents(acc, params@, 0, id), *body, id, at);
        },
        Expr::Record { span, ty, fields } => {
            lemma_occs_recfields_mem(acc, fields@, 0, id, at);
        },
        Expr::FieldAccess { span, recv, field } => {
            lemma_occs_expr_mem(acc, *recv, id, at);
            if field.sym.id == id {
                lemma_span_push_contains(occs_expr(acc, *recv, id), field.span, at);
            }
        },
        Expr::Let { span, bindings, body } => {
            lemma_occs_bindings_mem(acc, bindings@, 0, id, at);
            lemma_occs_expr_mem(occs_bindings(acc, bindings@, 0, id), *body, id, at);
        },
        Expr::Match { span, scrutinee, alts } => {
            lemma_occs_expr_mem(acc, *scrutinee, id, at);
            lemma_occs_alts_mem(occs_expr(acc, *scrutinee, id), alts@, 0, id, at);
        },
        Expr::TypeDecl { span, decl, body } => {
            let acc1 = if decl.name.sym.id == id {
                acc.push(decl.name.span)
            } else {
                acc
            };
            if decl.name.sym.id == id {
                lemma_span_push_contains(acc, decl.name.span, at);
            }
            lemma_occs_idents_mem(acc1, decl.params@, 0, id, at);
            let acc2 = occs_idents(acc1, decl.params@, 0, id);
            lemma_occs_idents_mem(acc2, decl.ctors@, 0, id, at);
            let acc3 = occs_idents(acc2, decl.ctors@, 0, id);
            lemma_occs_expr_mem(acc3, *body, id, at);
        },
    }
}

/// What the expression-run collector gathers.
proof fn lemma_occs_exprs_mem(acc: Seq<Span>, s: Seq<Expr>, i: int, id: u64, at: Span)
    ensures
        occs_exprs(acc, s, i, id).contains(at) <==> (acc.contains(at) || has_occ_exprs(
            s,
            i,
            id,
            at,
        )),
    decreases s, s.len() - i,
{
    if !(i < 0 || i >= s.len()) {
        lemma_occs_expr_mem(acc, s[i], id, at);
        lemma_occs_exprs_mem(occs_expr(acc, s[i], id), s, i + 1, id, at);
    }
}

/// What the binding-group collector gathers.
proof fn lemma_occs_bindings_mem(acc: Seq<Span>, s: Seq<Binding>, i: int, id: u64, at: Span)
    ensures
        occs_bindings(acc, s, i, id).contains(at) <==> (acc.contains(at) || has_occ_bindings(
            s,
            i,
            id,
            at,
        )),
    decreases s, s.len() - i,
{
    if !(i < 0 || i >= s.len()) {
        lemma_occs_pat_mem(acc, s[i].name, id, at);
        let acc1 = occs_pat(acc, s[i].name, id);
        lemma_occs_idents_mem(acc1, s[i].args@, 0, id, at);
        let acc2 = occs_idents(acc1, s[i].args@, 0, id);
        lemma_occs_expr_mem(acc2, s[i].expr, id, at);
        lemma_occs_bindings_mem(occs_expr(acc2, s[i].expr, id), s, i + 1, id, at);
    }
}

/// What the alternative collector gathers.
proof fn lemma_occs_alts_mem(acc: Seq<Span>, s: Seq<Alt>, i: int, id: u64, at: Span)
    ensures
        occs_alts(acc, s, i, id).contains(at) <==> (acc.contains(at) || has_occ_alts(s, i, id, at)),
    decreases s, s.len() - i,
{
    if !(i < 0 || i >= s.len()) {
        lemma_occs_pat_mem(acc, s[i].pat, id, at);
        let acc1 = occs_pat(acc, s[i].pat, id);
        lemma_occs_expr_mem(acc1, s[i].expr, id, at);
        lemma_occs_alts_mem(occs_expr(acc1, s[i].expr, id), s, i + 1, id, at);
    }
}

/// What the record-field collector gathers.
proof fn lemma_occs_recfields_mem(acc: Seq<Span>, s: Seq<RecField>, i: int, id: u64, at: Span)
    ensures
        occs_recfields(acc, s, i, id).contains(at) <==> (acc.contains(at) || has_occ_recfields(
            s,
            i,
            id,
            at,
        )),
    decreases s, s.len() - i,
{
    if !(i < 0 || i >= s.len()) {
        let acc1 = if s[i].name.sym.id == id {
            acc.push(s[i].name.span)
        } else {
            acc
        };
        if s[i].name.sym.id == id {
            lemma_span_push_contains(acc, s[i].name.span, at);
        }
        let acc2 = match s[i].value {
            Some(v) => occs_expr(acc1, v, id),
            None => acc1,
        };
        match s[i].value {
            Some(v) => {
                lemma_occs_expr_mem(acc1, v, id, at);
            },
            None => {},
        }
        lemma_occs_recfields_mem(acc2, s, i + 1, id, at);
    }
}

/// The binding identity of the identifier occurrence located at `pos`.
pub open spec fn located_id(e: Expr, pos: int) -> u64 {
    match locate_in(e, pos) {
        Node::Id(i) => i.sym.id,
        _ => 0,
    }
}

/// Symbol search is exact: the answered spans are precisely the spans at
/// which the located binding identity occurs in the tree — occurrences of
/// the same identity, all of them, and nothing else.
pub proof fn lemma_find_all_symbols_exact(e: Expr, pos: int, at: Span)
    requires
        find_all_symbols_v(e, pos) is Some,
    ensures
        find_all_symbols_v(e, pos)->Some_0.1.contains(at) <==> has_occ_expr(
            e,
            located_id(e, pos),
            at,
        ),
{
    lemma_occs_expr_mem(Seq::empty(), e, located_id(e, pos), at);
}

/// Shadow correctness: a query inside one binding's scope never returns a
/// span where only a different binding — however it is spelt — occurs.
/// Identity decides, not spelling.
pub proof fn lemma_shadow_correctness(e: Expr, pos: int, other: u64, at: Span)
    requires
        find_all_symbols_v(e, pos) is Some,
        has_occ_expr(e, other, at),
        !has_occ_expr(e, located_id(e, pos), at),
    ensures
        !find_all_symbols_v(e, pos)->Some_0.1.contains(at),
{
    lemma_find_all_symbols_exact(e, pos, at);
}

} // verus!
