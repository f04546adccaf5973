//! The spanned, symbol-resolved, type-annotated syntax tree that queries
//! walk, together with the ghost views that contracts are stated over.
//!
//! The tree is an input: it comes from the parser and the checker, which
//! resolve every identifier occurrence to a `Symbol` and annotate value
//! nodes with a `Ty`. Error recovery in those collaborators leaves
//! placeholder nodes (`Expr::Error`, `Ty::Hole`); queries treat them as
//! ordinary nodes.

use vstd::prelude::*;

use crate::name::{copy_name, Name};

verus! {

/// Half-open byte range `[start, end)` locating a node in the source text.
#[derive(Clone, Copy, PartialEq, Eq, Structural, Debug)]
pub struct Span {
    pub start: usize,
    pub end: usize,
}

/// A span's bounds are ordered.
pub open spec fn span_wf(s: Span) -> bool {
    s.start <= s.end
}

/// Position containment used by every query: a position is "at" a span up
/// to and including its right edge, so a cursor immediately after a token
/// still resolves to that token.
pub open spec fn span_at(s: Span, pos: int) -> bool {
    s.start <= pos <= s.end
}

/// `inner` lies within `outer`.
pub open spec fn span_inside(inner: Span, outer: Span) -> bool {
    outer.start <= inner.start && inner.end <= outer.end
}

impl Span {
    /// Containment test, inclusive of the right edge.
    pub fn at(self, pos: usize) -> (r: bool)
        ensures
            r == span_at(self, pos as int),
    {
        self.start <= pos && pos <= self.end
    }
}

/// An identity-disambiguated handle for a named binding: an interned
/// spelling plus a disambiguating identity. Two occurrences are the same
/// binding exactly when their `id`s agree; spelling alone never decides.
#[derive(PartialEq, Eq, Debug)]
pub struct Symbol {
    pub name: Name,
    pub id: u64,
}

/// Ghost view of a symbol.
pub struct SymbolV {
    pub name: Seq<u8>,
    pub id: u64,
}

/// View of a symbol: the spelling as a byte sequence plus the identity.
pub open spec fn symbol_view(s: Symbol) -> SymbolV {
    SymbolV { name: s.name@, id: s.id }
}

/// Copies a symbol.
pub fn clone_symbol(s: &Symbol) -> (r: Symbol)
    ensures
        symbol_view(r) == symbol_view(*s),
{
    Symbol { name: copy_name(&s.name), id: s.id }
}

/// A semantic type, as the checker resolved it. `Hole` stands for a type
/// the checker could not resolve (a local type error); queries degrade
/// gracefully on it instead of failing.
#[derive(PartialEq, Eq, Debug)]
pub enum Ty {
    /// Unresolved: produced by checker error recovery.
    Hole,
    /// Builtin integer type.
    Int,
    /// Builtin floating type (only named here; the library never computes with it).
    Float,
    /// Builtin string type.
    Str,
    /// Builtin boolean type.
    Bool,
    /// Builtin unit type.
    Unit,
    /// A type variable, by name.
    Var(Name),
    /// A named (declared or aliased) type applied to arguments.
    Named(Name, Vec<Ty>),
    /// A function type `arg -> ret`.
    Func(Box<Ty>, Box<Ty>),
    /// A record shape: named fields with their types.
    Record(Vec<TyField>),
    /// A variant shape: constructor names with their value types.
    Variants(Vec<TyField>),
}

/// A named component of a record or variant shape.
#[derive(PartialEq, Eq, Debug)]
pub struct TyField {
    pub name: Name,
    pub ty: Ty,
}

/// Ghost view of a semantic type.
pub enum TyV {
    Hole,
    Int,
    Float,
    Str,
    Bool,
    Unit,
    Var(Seq<u8>),
    Named(Seq<u8>, Seq<TyV>),
    Func(Box<TyV>, Box<TyV>),
    Record(Seq<TyFieldV>),
    Variants(Seq<TyFieldV>),
}

/// Ghost view of a shape component.
pub struct TyFieldV {
    pub name: Seq<u8>,
    pub ty: TyV,
}

/// View of a semantic type.
pub open spec fn ty_view(t: Ty) -> TyV
    decreases t, 0nat,
{
    match t {
        Ty::Hole => TyV::Hole,
        Ty::Int => TyV::Int,
        Ty::Float => TyV::Float,
        Ty::Str => TyV::Str,
        Ty::Bool => TyV::Bool,
        Ty::Unit => TyV::Unit,
        Ty::Var(n) => TyV::Var(n@),
        Ty::Named(n, args) => TyV::Named(n@, tys_view(args@)),
        Ty::Func(a, r) => TyV::Func(Box::new(ty_view(*a)), Box::new(ty_view(*r))),
        Ty::Record(fs) => TyV::Record(tfs_view(fs@)),
        Ty::Variants(fs) => TyV::Variants(tfs_view(fs@)),
    }
}

/// View of a sequence of types.
pub open spec fn tys_view(s: Seq<Ty>) -> Seq<TyV>
    decreases s, s.len(),
{
    if s.len() == 0 {
        Seq::empty()
    } else {
        seq![ty_view(s[0])] + tys_view(s.subrange(1, s.len() as int))
    }
}

/// View of a sequence of shape components.
pub open spec fn tfs_view(s: Seq<TyField>) -> Seq<TyFieldV>
    decreases s, s.len(),
{
    if s.len() == 0 {
        Seq::empty()
    } else {
        seq![TyFieldV { name: s[0].name@, ty: ty_view(s[0].ty) }] + tfs_view(
            s.subrange(1, s.len() as int),
        )
    }
}

/// The view of a type sequence is pointwise.
pub proof fn lemma_tys_view_index(s: Seq<Ty>, i: int)
    ensures
        tys_view(s).len() == s.len(),
        0 <= i < s.len() ==> tys_view(s)[i] == ty_view(s[i]),
    decreases s.len(),
{
    if s.len() > 0 {
        lemma_tys_view_index(s.subrange(1, s.len() as int), i - 1);
    }
}

/// The view of a shape-component sequence is pointwise.
pub proof fn lemma_tfs_view_index(s: Seq<TyField>, i: int)
    ensures
        tfs_view(s).len() == s.len(),
        0 <= i < s.len() ==> tfs_view(s)[i] == (TyFieldV { name: s[i].name@, ty: ty_view(s[i].ty) }),
    decreases s.len(),
{
    if s.len() > 0 {
        lemma_tfs_view_index(s.subrange(1, s.len() as int), i - 1);
    }
}

/// Two type sequences with pointwise equal views have equal views.
pub proof fn lemma_tys_view_pointwise(a: Seq<Ty>, b: Seq<Ty>)
    requires
        a.len() == b.len(),
        forall|j: int| 0 <= j < a.len() ==> ty_view(a[j]) == ty_view(b[j]),
    ensures
        tys_view(a) == tys_view(b),
    decreases a.len(),
{
    if a.len() > 0 {
        let ta = a.subrange(1, a.len() as int);
        let tb = b.subrange(1, b.len() as int);
        assert(forall|j: int| 0 <= j < ta.len() ==> ty_view(ta[j]) == ty_view(tb[j]));
        lemma_tys_view_pointwise(ta, tb);
    }
}

/// Two shape-component sequences with pointwise equal views have equal views.
pub proof fn lemma_tfs_view_pointwise(a: Seq<TyField>, b: Seq<TyField>)
    requires
        a.len() == b.len(),
        forall|j: int|
            0 <= j < a.len() ==> a[j].name@ == b[j].name@ && ty_view(a[j].ty) == ty_view(b[j].ty),
    ensures
        tfs_view(a) == tfs_view(b),
    decreases a.len(),
{
    if a.len() > 0 {
        let ta = a.subrange(1, a.len() as int);
        let tb = b.subrange(1, b.len() as int);
        assert(forall|j: int|
            0 <= j < ta.len() ==> ta[j].name@ == tb[j].name@ && ty_view(ta[j].ty) == ty_view(
                tb[j].ty,
            ));
        lemma_tfs_view_pointwise(ta, tb);
    }
}

/// Deep copy of a semantic type.
#[verifier::loop_isolation(false)]
pub fn clone_ty(t: &Ty) -> (r: Ty)
    ensures
        ty_view(r) == ty_view(*t),
    decreases *t,
{
    match t {
        Ty::Hole => Ty::Hole,
        Ty::Int => Ty::Int,
        Ty::Float => Ty::Float,
        Ty::Str => Ty::Str,
        Ty::Bool => Ty::Bool,
        Ty::Unit => Ty::Unit,
        Ty::Var(n) => Ty::Var(copy_name(n)),
        Ty::Named(n, args) => {
            let mut out: Vec<Ty> = Vec::new();
            let mut i: usize = 0;
            while i < args.len()
                invariant
                    i <= args.len(),
                    out@.len() == i,
                    forall|j: int| 0 <= j < i ==> ty_view(out@[j]) == ty_view(args@[j]),
                decreases args.len() - i,
            {
                let c = clone_ty(&args[i]);
                out.push(c);
                i = i + 1;
            }
            proof {
                lemma_tys_view_pointwise(out@, args@);
            }
            Ty::Named(copy_name(n), out)
        }
        Ty::Func(a, r) => Ty::Func(Box::new(clone_ty(a)), Box::new(clone_ty(r))),
        Ty::Record(fs) => Ty::Record(clone_ty_fields(fs)),
        Ty::Variants(fs) => Ty::Variants(clone_ty_fields(fs)),
    }
}

/// Deep copy of the components of a record or variant shape.
#[verifier::loop_isolation(false)]
fn clone_ty_fields(fs: &Vec<TyField>) -> (r: Vec<TyField>)
    ensures
        tfs_view(r@) == tfs_view(fs@),
    decreases fs@,
{
    let mut out: Vec<TyField> = Vec::new();
    let mut i: usize = 0;
    while i < fs.len()
        invariant
            i <= fs.len(),
            out@.len() == i,
            forall|j: int|
                0 <= j < i ==> out@[j].name@ == fs@[j].name@ && ty_view(out@[j].ty) == ty_view(
                    fs@[j].ty,
                ),
        decreases fs.len() - i,
    {
        proof {
            assert(decreases_to!(fs@ => fs@[i as int]));
        }
        let c = TyField { name: copy_name(&fs[i].name), ty: clone_ty(&fs[i].ty) };
        out.push(c);
        i = i + 1;
    }
    proof {
        lemma_tfs_view_pointwise(out@, fs@);
    }
    out
}

/// An identifier occurrence: where it stands, which binding it is, and the
/// type the checker gave it.
#[derive(PartialEq, Eq, Debug)]
pub struct Ident {
    pub span: Span,
    pub sym: Symbol,
    pub ty: Ty,
}

/// Ghost view of an identifier occurrence.
pub struct IdentV {
    pub span: Span,
    pub name: Seq<u8>,
    pub id: u64,
    pub ty: TyV,
}

/// View of an identifier occurrence.
pub open spec fn ident_view(i: Ident) -> IdentV {
    IdentV { span: i.span, name: i.sym.name@, id: i.sym.id, ty: ty_view(i.ty) }
}

/// Copies an identifier occurrence.
pub fn clone_ident(i: &Ident) -> (r: Ident)
    ensures
        ident_view(r) == ident_view(*i),
{
    Ident { span: i.span, sym: clone_symbol(&i.sym), ty: clone_ty(&i.ty) }
}

} // verus!

verus! {

/// A record-literal component: the field-name occurrence and its value
/// expression; a punned field (`{ x }`) has no value expression.
pub struct RecField {
    pub name: Ident,
    pub value: Option<Expr>,
}

/// A record-pattern component: the field-name occurrence and the binder it
/// introduces; a bare field (`{ x }`) binds the field name itself.
pub struct PatField {
    pub name: Ident,
    pub bind: Option<Ident>,
}

/// A pattern, as it stands in a `let` binding or a `case` alternative.
pub enum Pat {
    /// A plain binder.
    Var { ident: Ident },
    /// A constructor applied to binders.
    Ctor { span: Span, name: Ident, args: Vec<Ident> },
    /// A record-destructuring pattern, with its expected type, an optional
    /// `@`-alias binder and its field slots.
    Record { span: Span, ty: Ty, alias: Option<Ident>, fields: Vec<PatField> },
}

/// One binding of a `let`/`and` group: a pattern, optional function
/// arguments, an optional type annotation, and the bound expression.
pub struct Binding {
    pub span: Span,
    pub name: Pat,
    pub args: Vec<Ident>,
    pub sig: Option<TyExpr>,
    pub expr: Expr,
}

/// One alternative of a `case`/`match`: a pattern and its body.
pub struct Alt {
    pub span: Span,
    pub pat: Pat,
    pub expr: Expr,
}

/// A type declaration `type N p1 .. = rhs in body`: the declared name, its
/// parameter binders, the spanned right-hand side as written, the resolved
/// semantic body, and the value-namespace constructor bindings it
/// introduces when the right-hand side is a variant shape.
pub struct TypeBind {
    pub span: Span,
    pub name: Ident,
    pub params: Vec<Ident>,
    pub rhs: Option<TyExpr>,
    pub body: Ty,
    pub ctors: Vec<Ident>,
}

/// Type syntax as written in the source, with spans, so that a position
/// inside an annotation can be located and completed.
pub enum TyExpr {
    /// A reference to a type name or type variable.
    Ref { span: Span, name: Name },
    /// A function type `arg -> ret`.
    Func { span: Span, arg: Box<TyExpr>, ret: Box<TyExpr> },
    /// A named type applied to arguments.
    App { span: Span, func: Box<TyExpr>, args: Vec<TyExpr> },
    /// A record shape.
    Record { span: Span, fields: Vec<TyExprField> },
    /// A `forall` quantifier introducing type-variable binders.
    Forall { span: Span, vars: Vec<Ident>, body: Box<TyExpr> },
}

/// A field of record-shaped type syntax.
pub struct TyExprField {
    pub name_span: Span,
    pub name: Name,
    pub ty: TyExpr,
}

/// An expression node. Every variant carries its span; value-producing
/// variants carry the type the checker gave them.
pub enum Expr {
    /// A literal; only its span and type matter to queries.
    Lit { span: Span, ty: Ty },
    /// An identifier occurrence.
    Var { ident: Ident },
    /// An application of a function expression to arguments. Infix
    /// operator expressions are applications whose function is the
    /// operator's identifier occurrence.
    App { span: Span, ty: Ty, func: Box<Expr>, args: Vec<Expr> },
    /// A lambda with parameter binders.
    Lambda { span: Span, ty: Ty, params: Vec<Ident>, body: Box<Expr> },
    /// A `let`/`and` binding group with its body.
    Let { span: Span, bindings: Vec<Binding>, body: Box<Expr> },
    /// A `case`/`match` over a scrutinee with alternatives.
    Match { span: Span, scrutinee: Box<Expr>, alts: Vec<Alt> },
    /// A record literal.
    Record { span: Span, ty: Ty, fields: Vec<RecField> },
    /// A field access `recv.field`; the field occurrence carries the
    /// field's type.
    FieldAccess { span: Span, recv: Box<Expr>, field: Ident },
    /// A type declaration scoping over its body.
    TypeDecl { span: Span, decl: TypeBind, body: Box<Expr> },
    /// An import expression; `path` is the dotted module path as typed and
    /// `path_span` is where it stands.
    Import { span: Span, path_span: Span, path: Name },
    /// A placeholder left by parser or checker error recovery.
    Error { span: Span },
}

/// The span of an expression node.
pub open spec fn expr_span(e: Expr) -> Span {
    match e {
        Expr::Lit { span, .. } => span,
        Expr::Var { ident } => ident.span,
        Expr::App { span, .. } => span,
        Expr::Lambda { span, .. } => span,
        Expr::Let { span, .. } => span,
        Expr::Match { span, .. } => span,
        Expr::Record { span, .. } => span,
        Expr::FieldAccess { span, .. } => span,
        Expr::TypeDecl { span, .. } => span,
        Expr::Import { span, .. } => span,
        Expr::Error { span } => span,
    }
}

/// The span of a pattern.
pub open spec fn pat_span(p: Pat) -> Span {
    match p {
        Pat::Var { ident } => ident.span,
        Pat::Ctor { span, .. } => span,
        Pat::Record { span, .. } => span,
    }
}

/// The span of type syntax.
pub open spec fn tyexpr_span(t: TyExpr) -> Span {
    match t {
        TyExpr::Ref { span, .. } => span,
        TyExpr::Func { span, .. } => span,
        TyExpr::App { span, .. } => span,
        TyExpr::Record { span, .. } => span,
        TyExpr::Forall { span, .. } => span,
    }
}

impl Expr {
    /// The node's span.
    pub fn span(&self) -> (s: Span)
        ensures
            s == expr_span(*self),
    {
        match self {
            Expr::Lit { span, .. } => *span,
            Expr::Var { ident } => ident.span,
            Expr::App { span, .. } => *span,
            Expr::Lambda { span, .. } => *span,
            Expr::Let { span, .. } => *span,
            Expr::Match { span, .. } => *span,
            Expr::Record { span, .. } => *span,
            Expr::FieldAccess { span, .. } => *span,
            Expr::TypeDecl { span, .. } => *span,
            Expr::Import { span, .. } => *span,
            Expr::Error { span } => *span,
        }
    }
}

impl Pat {
    /// The pattern's span.
    pub fn span(&self) -> (s: Span)
        ensures
            s == pat_span(*self),
    {
        match self {
            Pat::Var { ident } => ident.span,
            Pat::Ctor { span, .. } => *span,
            Pat::Record { span, .. } => *span,
        }
    }
}

impl TyExpr {
    /// The type syntax's span.
    pub fn span(&self) -> (s: Span)
        ensures
            s == tyexpr_span(*self),
    {
        match self {
            TyExpr::Ref { span, .. } => *span,
            TyExpr::Func { span, .. } => *span,
            TyExpr::App { span, .. } => *span,
            TyExpr::Record { span, .. } => *span,
            TyExpr::Forall { span, .. } => *span,
        }
    }
}

/// The type of the value an expression produces, as the checker left it:
/// binding groups and type declarations have the type of their body, a
/// match has the type of its first alternative, placeholders are `Hole`.
pub open spec fn ty_spec(e: Expr) -> Ty
    decreases e,
{
    match e {
        Expr::Lit { ty, .. } => ty,
        Expr::Var { ident } => ident.ty,
        Expr::App { ty, .. } => ty,
        Expr::Lambda { ty, .. } => ty,
        Expr::Let { body, .. } => ty_spec(*body),
        Expr::Match { alts, .. } => if alts.len() > 0 {
            ty_spec(alts[0].expr)
        } else {
            Ty::Hole
        },
        Expr::Record { ty, .. } => ty,
        Expr::FieldAccess { field, .. } => field.ty,
        Expr::TypeDecl { body, .. } => ty_spec(*body),
        Expr::Import { .. } => Ty::Hole,
        Expr::Error { .. } => Ty::Hole,
    }
}

/// Borrows the type of the value an expression produces.
pub fn expr_ty(e: &Expr) -> (r: &Ty)
    ensures
        *r == ty_spec(*e),
    decreases *e,
{
    match e {
        Expr::Lit { ty, .. } => ty,
        Expr::Var { ident } => &ident.ty,
        Expr::App { ty, .. } => ty,
        Expr::Lambda { ty, .. } => ty,
        Expr::Let { body, .. } => expr_ty(body),
        Expr::Match { alts, .. } => {
            if alts.len() > 0 {
                proof {
                    assert(decreases_to!(alts@ => alts@[0]));
                }
                expr_ty(&alts[0].expr)
            } else {
                &Ty::Hole
            }
        }
        Expr::Record { ty, .. } => ty,
        Expr::FieldAccess { field, .. } => &field.ty,
        Expr::TypeDecl { body, .. } => expr_ty(body),
        Expr::Import { .. } => &Ty::Hole,
        Expr::Error { .. } => &Ty::Hole,
    }
}

} // verus!
