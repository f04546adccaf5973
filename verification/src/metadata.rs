//! Metadata resolution: the doc comment and attributes attached to the
//! binding that an occurrence resolves to.
//!
//! The metadata map is keyed by binding identity. Resolution looks the
//! located occurrence's binding up directly; where the binding has no
//! metadata of its own, it follows plain aliasing — `let x = y` — and
//! record-field projection — `let x = r.f` — to the binding they point
//! at, but never through arbitrary computed expressions. An occurrence
//! never inherits metadata from an unrelated binding that merely shares
//! a spelling.

use vstd::prelude::*;

use crate::ast::{expr_span, span_at, Alt, Binding, Expr, Pat, RecField};
use crate::locate::{locate_in, Node};
use crate::name::{copy_name, name_eq, Name};
use crate::scope::{entries_view, EntryV};

verus! {

/// A key/value attribute of a doc comment.
#[derive(PartialEq, Eq, Debug)]
pub struct Attr {
    pub key: Name,
    pub val: Name,
}

/// Doc-comment text and attributes attached to a binding.
#[derive(PartialEq, Eq, Debug)]
pub struct Metadata {
    pub comment: Option<Name>,
    pub attrs: Vec<Attr>,
}

/// One binding's metadata, keyed by the binding's identity.
#[derive(PartialEq, Eq, Debug)]
pub struct MetaEntry {
    pub id: u64,
    pub meta: Metadata,
}

/// The metadata map: one entry per documented binding.
#[derive(PartialEq, Eq, Debug)]
pub struct MetaMap {
    pub entries: Vec<MetaEntry>,
}

/// Ghost view of an attribute.
pub struct AttrV {
    pub key: Seq<u8>,
    pub val: Seq<u8>,
}

/// Ghost view of a metadata record.
pub struct MetadataV {
    pub comment: Option<Seq<u8>>,
    pub attrs: Seq<AttrV>,
}

/// View of the attributes.
pub open spec fn attrs_view(s: Seq<Attr>) -> Seq<AttrV> {
    Seq::new(s.len(), |i: int| AttrV { key: s[i].key@, val: s[i].val@ })
}

/// View of a metadata record.
pub open spec fn metadata_view(m: Metadata) -> MetadataV {
    MetadataV {
        comment: match m.comment {
            Some(c) => Some(c@),
            None => None,
        },
        attrs: attrs_view(m.attrs@),
    }
}

/// View of an optional metadata record.
pub open spec fn opt_metadata_view(m: Option<Metadata>) -> Option<MetadataV> {
    match m {
        Some(x) => Some(metadata_view(x)),
        None => None,
    }
}

/// Copies a metadata record.
pub fn clone_metadata(m: &Metadata) -> (r: Metadata)
    ensures
        metadata_view(r) == metadata_view(*m),
{
    let comment = match &m.comment {
        Some(c) => Some(copy_name(c)),
        None => None,
    };
    let mut attrs: Vec<Attr> = Vec::new();
    let mut i: usize = 0;
    while i < m.attrs.len()
        invariant
            i <= m.attrs.len(),
            attrs@.len() == i,
            forall|j: int|
                0 <= j < i ==> attrs@[j].key@ == m.attrs@[j].key@ && attrs@[j].val@
                    == m.attrs@[j].val@,
        decreases m.attrs.len() - i,
    {
        let a = Attr { key: copy_name(&m.attrs[i].key), val: copy_name(&m.attrs[i].val) };
        attrs.push(a);
        i = i + 1;
    }
    proof {
        assert(attrs_view(attrs@) =~= attrs_view(m.attrs@));
    }
    Metadata { comment, attrs }
}

/// The first map entry for `id`.
pub open spec fn lookup_meta(s: Seq<MetaEntry>, id: u64, i: int) -> Option<Metadata>
    decreases s.len() - i,
{
    if i < 0 || i >= s.len() {
        None
    } else if s[i].id == id {
        Some(s[i].meta)
    } else {
        lookup_meta(s, id, i + 1)
    }
}

/// Finds the first map entry for `id`.
fn find_meta<'a>(m: &'a MetaMap, id: u64) -> (r: Option<&'a Metadata>)
    ensures
        match r {
            Some(x) => lookup_meta(m.entries@, id, 0) == Some(*x),
            None => lookup_meta(m.entries@, id, 0) is None,
        },
{
    let mut i: usize = 0;
    while i < m.entries.len()
        invariant
            i <= m.entries.len(),
            lookup_meta(m.entries@, id, 0) == lookup_meta(m.entries@, id, i as int),
        decreases m.entries.len() - i,
    {
        if m.entries[i].id == id {
            return Some(&m.entries[i].meta);
        }
        i = i + 1;
    }
    None
}

/// An aliasing edge: the binding on the left stands for the binding on
/// the right.
pub struct AliasEdge {
    pub from: u64,
    pub to: u64,
}

/// Appends the aliasing edges of a binding group: a binding of a plain
/// name, without arguments, to a plain identifier or to a field access
/// aliases that identifier or field.
pub open spec fn edges_bindings(acc: Seq<AliasEdge>, s: Seq<Binding>, i: int) -> Seq<AliasEdge>
    decreases s, s.len() - i,
{
    if i < 0 || i >= s.len() {
        acc
    } else {
        let acc1 = match s[i].name {
            Pat::Var { ident } => {
                if s[i].args@.len() == 0 {
                    match s[i].expr {
                        Expr::Var { ident: t } => acc.push(
                            AliasEdge { from: ident.sym.id, to: t.sym.id },
                        ),
                        Expr::FieldAccess { field, .. } => acc.push(
                            AliasEdge { from: ident.sym.id, to: field.sym.id },
                        ),
                        _ => acc,
                    }
                } else {
                    acc
                }
            },
            _ => acc,
        };
        edges_bindings(edges_expr(acc1, s[i].expr), s, i + 1)
    }
}

/// Appends the aliasing edges found under `e`, in source order.
pub open spec fn edges_expr(acc: Seq<AliasEdge>, e: Expr) -> Seq<AliasEdge>
    decreases e, 0nat,
{
    match e {
        Expr::Lit { .. } => acc,
        Expr::Error { .. } => acc,
        Expr::Import { .. } => acc,
        Expr::Var { .. } => acc,
        Expr::App { span, ty, func, args } => edges_exprs(edges_expr(acc, *func), args@, 0),
        Expr::Lambda { span, ty, params, body } => edges_expr(acc, *body),
        Expr::Record { span, ty, fields } => edges_recfields(acc, fields@, 0),
        Expr::FieldAccess { span, recv, field } => edges_expr(acc, *recv),
        Expr::Let { span, bindings, body } => edges_expr(
            edges_bindings(acc, bindings@, 0),
            *body,
        ),
        Expr::Match { span, scrutinee, alts } => edges_alts(edges_expr(acc, *scrutinee), alts@, 0),
        Expr::TypeDecl { span, decl, body } => edges_expr(acc, *body),
    }
}

/// `edges_expr` over a run of expressions.
pub open spec fn edges_exprs(acc: Seq<AliasEdge>, s: Seq<Expr>, i: int) -> Seq<AliasEdge>
    decreases s, s.len() - i,
{
    if i < 0 || i >= s.len() {
        acc
    } else {
        edges_exprs(edges_expr(acc, s[i]), s, i + 1)
    }
}

/// `edges_expr` over the alternatives of a match.
pub open spec fn edges_alts(acc: Seq<AliasEdge>, s: Seq<Alt>, i: int) -> Seq<AliasEdge>
    decreases s, s.len() - i,
{
    if i < 0 || i >= s.len() {
        acc
    } else {
        edges_alts(edges_expr(acc, s[i].expr), s, i + 1)
    }
}

/// `edges_expr` over record-literal fields.
pub open spec fn edges_recfields(acc: Seq<AliasEdge>, s: Seq<RecField>, i: int) -> Seq<AliasEdge>
    decreases s, s.len() - i,
{
    if i < 0 || i >= s.len() {
        acc
    } else {
        let acc1 = match s[i].value {
            Some(v) => edges_expr(acc, v),
            None => acc,
        };
        edges_recfields(acc1, s, i + 1)
    }
}

/// Collects the aliasing edges of a binding group.
#[verifier::loop_isolation(false)]
fn walk_edges_bindings(out: &mut Vec<AliasEdge>, s: &Vec<Binding>)
    ensures
        final(out)@ == edges_bindings(old(out)@, s@, 0),
    decreases s@, s@.len(),
{
    let mut i: usize = 0;
    while i < s.len()
        invariant
            i <= s.len(),
            edges_bindings(old(out)@, s@, 0) == edges_bindings(out@, s@, i as int),
        decreases s.len() - i,
    {
        proof {
            assert(decreases_to!(s@ => s@[i as int]));
        }
        let b = &s[i];
        match &b.name {
            Pat::Var { ident } => {
                if b.args.len() == 0 {
                    match &b.expr {
                        Expr::Var { ident: t } => {
                            out.push(AliasEdge { from: ident.sym.id, to: t.sym.id });
                        },
                        Expr::FieldAccess { field, .. } => {
                            out.push(AliasEdge { from: ident.sym.id, to: field.sym.id });
                        },
                        _ => {},
                    }
                }
            },
            _ => {},
        }
        walk_edges(out, &b.expr);
        i = i + 1;
    }
}

/// Collects the aliasing edges under `e`, in source order.
#[verifier::loop_isolation(false)]
fn walk_edges(out: &mut Vec<AliasEdge>, e: &Expr)
    ensures
        final(out)@ == edges_expr(old(out)@, *e),
    decreases *e, 1nat,
{
    match e {
        Expr::Lit { .. } => {},
        Expr::Error { .. } => {},
        Expr::Import { .. } => {},
        Expr::Var { .. } => {},
        Expr::App { span, ty, func, args } => {
            walk_edges(out, func);
            let mut i: usize = 0;
            while i < args.len()
                invariant
                    i <= args.len(),
                    edges_expr(old(out)@, *e) == edges_exprs(out@, args@, i as int),
                decreases args.len() - i,
            {
                proof {
                    assert(decreases_to!(args@ => args@[i as int]));
                }
                walk_edges(out, &args[i]);
                i = i + 1;
            }
        },
        Expr::Lambda { span, ty, params, body } => {
            walk_edges(out, body);
        },
        Expr::Record { span, ty, fields } => {
            let mut i: usize = 0;
            while i < fields.len()
                invariant
                    i <= fields.len(),
                    edges_expr(old(out)@, *e) == edges_recfields(out@, fields@, i as int),
                decreases fields.len() - i,
            {
                match &fields[i].value {
                    Some(v) => {
                        proof {
                            assert(decreases_to!(fields@ => fields@[i as int]));
                        }
                        walk_edges(out, v);
                    },
                    None => {},
                }
                i = i + 1;
            }
        },
        Expr::FieldAccess { span, recv, field } => {
            walk_edges(out, recv);
        },
        Expr::Let { span, bindings, body } => {
            walk_edges_bindings(out, bindings);
            walk_edges(out, body);
        },
        Expr::Match { span, scrutinee, alts } => {
            walk_edges(out, scrutinee);
            let mut i: usize = 0;
            while i < alts.len()
                invariant
                    i <= alts.len(),
                    edges_expr(old(out)@, *e) == edges_alts(out@, alts@, i as int),
                decreases alts.len() - i,
            {
                proof {
                    assert(decreases_to!(alts@ => alts@[i as int]));
                }
                walk_edges(out, &alts[i].expr);
                i = i + 1;
            }
        },
        Expr::TypeDecl { span, decl, body } => {
            walk_edges(out, body);
        },
    }
}

/// The first aliasing edge out of `id`.
pub open spec fn edge_target(s: Seq<AliasEdge>, id: u64, i: int) -> Option<u64>
    decreases s.len() - i,
{
    if i < 0 || i >= s.len() {
        None
    } else if s[i].from == id {
        Some(s[i].to)
    } else {
        edge_target(s, id, i + 1)
    }
}

/// Finds the first aliasing edge out of `id`.
fn find_edge(s: &Vec<AliasEdge>, id: u64) -> (r: Option<u64>)
    ensures
        match r {
            Some(t) => edge_target(s@, id, 0) == Some(t),
            None => edge_target(s@, id, 0) is None,
        },
{
    let mut i: usize = 0;
    while i < s.len()
        invariant
            i <= s.len(),
            edge_target(s@, id, 0) == edge_target(s@, id, i as int),
        decreases s.len() - i,
    {
        if s[i].from == id {
            return Some(s[i].to);
        }
        i = i + 1;
    }
    None
}

/// The metadata a binding resolves to: its own entry, or the entry of the
/// binding it aliases, followed for at most `fuel` steps — enough for any
/// acyclic chain when `fuel` is the number of edges.
pub open spec fn chase(edges: Seq<AliasEdge>, entries: Seq<MetaEntry>, id: u64, fuel: nat) -> Option<
    Metadata,
>
    decreases fuel,
{
    match lookup_meta(entries, id, 0) {
        Some(m) => Some(m),
        None => {
            if fuel == 0 {
                None
            } else {
                match edge_target(edges, id, 0) {
                    Some(t) => chase(edges, entries, t, (fuel - 1) as nat),
                    None => None,
                }
            }
        },
    }
}

/// Resolves a binding's metadata through the aliasing edges; see `chase`.
fn chase_x(edges: &Vec<AliasEdge>, map: &MetaMap, id: u64, fuel: usize) -> (r: Option<Metadata>)
    ensures
        opt_metadata_view(r) == opt_metadata_view(
            chase(edges@, map.entries@, id, fuel as nat),
        ),
    decreases fuel,
{
    match find_meta(map, id) {
        Some(m) => Some(clone_metadata(m)),
        None => {
            if fuel == 0 {
                None
            } else {
                match find_edge(edges, id) {
                    Some(t) => chase_x(edges, map, t, fuel - 1),
                    None => None,
                }
            }
        },
    }
}

/// What `metadata_for` answers: the metadata of the binding referenced or
/// declared at `pos`, following aliasing as `chase` does; nothing when
/// the position does not stand on an identifier or the binding carries
/// none.
pub open spec fn metadata_for_v(map: MetaMap, tree: Expr, pos: int) -> Option<Metadata> {
    if span_at(expr_span(tree), pos) {
        match locate_in(tree, pos) {
            Node::Id(i) => {
                let edges = edges_expr(Seq::empty(), tree);
                chase(edges, map.entries@, i.sym.id, edges.len())
            },
            _ => None,
        }
    } else {
        None
    }
}

/// Metadata at a position: the doc comment and attributes of the binding
/// under the cursor; see `metadata_for_v`.
pub fn metadata_for(map: &MetaMap, tree: &Expr, pos: usize) -> (r: Option<Metadata>)
    ensures
        opt_metadata_view(r) == opt_metadata_view(metadata_for_v(*map, *tree, pos as int)),
{
    if !tree.span().at(pos) {
        return None;
    }
    match crate::symbols::ident_under(tree, pos) {
        Some((_, id)) => {
            let mut edges: Vec<AliasEdge> = Vec::new();
            proof {
                assert(edges@ =~= Seq::<AliasEdge>::empty());
            }
            walk_edges(&mut edges, tree);
            let fuel = edges.len();
            chase_x(&edges, map, id, fuel)
        },
        None => None,
    }
}

/// What `metadata_for_name` answers: the metadata of the innermost
/// visible binding called `name` at `pos`, resolving as `metadata_for`
/// does; used to annotate a suggestion with its documentation.
pub open spec fn metadata_for_name_v(map: MetaMap, tree: Expr, pos: int, name: Seq<u8>) -> Option<
    Metadata,
> {
    let c = crate::walk::classify_v(tree, pos);
    match innermost_named(c.vals, name) {
        Some(id) => {
            let edges = edges_expr(Seq::empty(), tree);
            chase(edges, map.entries@, id, edges.len())
        },
        None => None,
    }
}

/// The identity of the innermost visible entry called `name`.
pub open spec fn innermost_named(vals: Seq<EntryV>, name: Seq<u8>) -> Option<u64>
    decreases vals.len(),
{
    if vals.len() == 0 {
        None
    } else if vals[vals.len() - 1].name == name {
        Some(vals[vals.len() - 1].id)
    } else {
        innermost_named(vals.drop_last(), name)
    }
}

/// Finds the identity of the innermost visible entry called `name`.
#[verifier::loop_isolation(false)]
fn find_innermost_named(vals: &Vec<crate::scope::Entry>, name: &Name) -> (r: Option<u64>)
    ensures
        r == innermost_named(entries_view(vals@), name@),
{
    let ghost vv = entries_view(vals@);
    proof {
        crate::scope::lemma_entries_view_all(vals@);
        assert(vv.subrange(0, vv.len() as int) =~= vv);
    }
    let mut i: usize = vals.len();
    while i > 0
        invariant
            i <= vals@.len(),
            innermost_named(vv, name@) == innermost_named(vv.subrange(0, i as int), name@),
        decreases i,
    {
        i = i - 1;
        proof {
            let sub = vv.subrange(0, i + 1 as int);
            assert(sub[sub.len() - 1] == vv[i as int]);
            assert(sub.drop_last() =~= vv.subrange(0, i as int));
        }
        if name_eq(&vals[i].name, name) {
            return Some(vals[i].id);
        }
    }
    proof {
        assert(vv.subrange(0, 0) =~= Seq::<EntryV>::empty());
    }
    None
}

/// Metadata for a named candidate at a position; see
/// `metadata_for_name_v`.
pub fn metadata_for_name(map: &MetaMap, tree: &Expr, pos: usize, name: &Name) -> (r: Option<
    Metadata,
>)
    ensures
        opt_metadata_view(r) == opt_metadata_view(
            metadata_for_name_v(*map, *tree, pos as int, name@),
        ),
{
    let c = crate::walk::classify(tree, pos);
    proof {
        assert(entries_view(c.vals@).subrange(0, entries_view(c.vals@).len() as int) =~= entries_view(
            c.vals@,
        ));
    }
    match find_innermost_named(&c.vals, name) {
        Some(id) => {
            let mut edges: Vec<AliasEdge> = Vec::new();
            proof {
                assert(edges@ =~= Seq::<AliasEdge>::empty());
            }
            walk_edges(&mut edges, tree);
            let fuel = edges.len();
            chase_x(&edges, map, id, fuel)
        },
        None => None,
    }
}

} // verus!
