// Symbol search and metadata resolution over hand-built trees. Offsets in
// each test index the source text quoted above the tree.

use completion::ast::{Binding, Expr, Ident, Pat, RecField, Span, Symbol, Ty, TyField};
use completion::metadata::{metadata_for, Metadata, MetaEntry, MetaMap};
use completion::symbols::{all_symbols, find_all_symbols};

fn sp(a: usize, b: usize) -> Span {
    Span { start: a, end: b }
}

fn nm(s: &str) -> Vec<u8> {
    s.as_bytes().to_vec()
}

fn ident(s: &str, id: u64, a: usize, b: usize, ty: Ty) -> Ident {
    Ident { span: sp(a, b), sym: Symbol { name: nm(s), id }, ty }
}

fn var(s: &str, id: u64, a: usize, b: usize, ty: Ty) -> Expr {
    Expr::Var { ident: ident(s, id, a, b, ty) }
}

fn lit(a: usize, b: usize, ty: Ty) -> Expr {
    Expr::Lit { span: sp(a, b), ty }
}

fn pvar(s: &str, id: u64, a: usize, b: usize, ty: Ty) -> Pat {
    Pat::Var { ident: ident(s, id, a, b, ty) }
}

fn bind(a: usize, b: usize, pat: Pat, args: Vec<Ident>, expr: Expr) -> Binding {
    Binding { span: sp(a, b), name: pat, args, sig: None, expr }
}

fn let_in(a: usize, b: usize, bindings: Vec<Binding>, body: Expr) -> Expr {
    Expr::Let { span: sp(a, b), bindings, body: Box::new(body) }
}

fn app(a: usize, b: usize, ty: Ty, f: Expr, args: Vec<Expr>) -> Expr {
    Expr::App { span: sp(a, b), ty, func: Box::new(f), args }
}

fn func(a: Ty, r: Ty) -> Ty {
    Ty::Func(Box::new(a), Box::new(r))
}

fn ct(t: &Ty) -> Ty {
    completion::ast::clone_ty(t)
}

fn rec_ty(fields: Vec<(&str, Ty)>) -> Ty {
    Ty::Record(fields.into_iter().map(|(n, t)| TyField { name: nm(n), ty: t }).collect())
}

fn doc(id: u64, text: &str) -> MetaEntry {
    MetaEntry { id, meta: Metadata { comment: Some(nm(text)), attrs: vec![] } }
}

fn comment_of(r: Option<Metadata>) -> Option<Vec<u8>> {
    r.and_then(|m| m.comment)
}

#[test]
fn metadata_at_variable() {
    // "\n/// test\nlet abc = 1\nlet abb = 2\nabb\nabc\n"
    let tree = let_in(
        10,
        41,
        vec![bind(14, 21, pvar("abc", 1, 14, 17, Ty::Int), vec![], lit(20, 21, Ty::Int))],
        let_in(
            22,
            41,
            vec![bind(26, 33, pvar("abb", 2, 26, 29, Ty::Int), vec![], lit(32, 33, Ty::Int))],
            app(
                34,
                41,
                Ty::Hole,
                var("abb", 2, 34, 37, Ty::Int),
                vec![var("abc", 1, 38, 41, Ty::Int)],
            ),
        ),
    );
    let map = MetaMap { entries: vec![doc(1, "test")] };
    assert_eq!(comment_of(metadata_for(&map, &tree, 37)), None);
    assert_eq!(comment_of(metadata_for(&map, &tree, 41)), Some(nm("test")));
}

#[test]
fn metadata_at_binop() {
    // "\n/// test\nlet (+++) x y = 1\n1 +++ 3\n"
    let op_ty = func(Ty::Int, func(Ty::Int, Ty::Int));
    let tree = let_in(
        10,
        35,
        vec![bind(
            14,
            27,
            pvar("+++", 1, 14, 19, ct(&op_ty)),
            vec![ident("x", 2, 20, 21, Ty::Int), ident("y", 3, 22, 23, Ty::Int)],
            lit(26, 27, Ty::Int),
        )],
        app(
            28,
            35,
            Ty::Int,
            var("+++", 1, 30, 33, op_ty),
            vec![lit(28, 29, Ty::Int), lit(34, 35, Ty::Int)],
        ),
    );
    let map = MetaMap { entries: vec![doc(1, "test")] };
    assert_eq!(comment_of(metadata_for(&map, &tree, 32)), Some(nm("test")));
}

#[test]
fn metadata_at_field_access() {
    // "\nlet r = { /// test\n abc = 1 }\nr.abc\n" — the doc comment sits on
    // the record field, whose binding identity the access shares.
    let r_ty = rec_ty(vec![("abc", Ty::Int)]);
    let tree = let_in(
        1,
        35,
        vec![bind(
            5,
            29,
            pvar("r", 1, 5, 6, ct(&r_ty)),
            vec![],
            Expr::Record {
                span: sp(9, 29),
                ty: ct(&r_ty),
                fields: vec![RecField {
                    name: ident("abc", 2, 21, 24, Ty::Int),
                    value: Some(lit(27, 28, Ty::Int)),
                }],
            },
        )],
        Expr::FieldAccess {
            span: sp(30, 35),
            recv: Box::new(var("r", 1, 30, 31, ct(&r_ty))),
            field: ident("abc", 2, 32, 35, Ty::Int),
        },
    );
    let map = MetaMap { entries: vec![doc(2, "test")] };
    assert_eq!(comment_of(metadata_for(&map, &tree, 35)), Some(nm("test")));
}

#[test]
fn metadata_through_alias() {
    // "\n/// test\nlet abc = 1\nlet abb = abc\nabb\n" — `abb` aliases `abc`,
    // so its metadata is `abc`'s.
    let tree = let_in(
        10,
        43,
        vec![bind(14, 21, pvar("abc", 1, 14, 17, Ty::Int), vec![], lit(20, 21, Ty::Int))],
        let_in(
            22,
            43,
            vec![bind(
                26,
                35,
                pvar("abb", 2, 26, 29, Ty::Int),
                vec![],
                var("abc", 1, 32, 35, Ty::Int),
            )],
            var("abb", 2, 39, 42, Ty::Int),
        ),
    );
    let map = MetaMap { entries: vec![doc(1, "test")] };
    assert_eq!(comment_of(metadata_for(&map, &tree, 40)), Some(nm("test")));
}

#[test]
fn suggest_metadata_at_variable() {
    // "\n/// test\nlet abc = 1\nlet abb = 2\nab\n"
    let tree = let_in(
        10,
        36,
        vec![bind(14, 21, pvar("abc", 1, 14, 17, Ty::Int), vec![], lit(20, 21, Ty::Int))],
        let_in(
            22,
            36,
            vec![bind(26, 33, pvar("abb", 2, 26, 29, Ty::Int), vec![], lit(32, 33, Ty::Int))],
            var("ab", 9, 34, 36, Ty::Hole),
        ),
    );
    let map = MetaMap { entries: vec![doc(1, "test")] };
    let env = completion::types::TypeEnv { aliases: vec![] };
    let roots: Vec<completion::imports::FsDir> = vec![];
    let r = completion::suggest::suggest_doc(&env, &roots, &map, &tree, 36).expect("in tree");
    assert_eq!(r.len(), 2);
    assert_eq!(r[0].sug.name, nm("abb"));
    assert!(r[0].meta.is_none());
    assert_eq!(r[1].sug.name, nm("abc"));
    assert_eq!(r[1].meta.as_ref().and_then(|m| m.comment.clone()), Some(nm("test")));
}

#[test]
fn suggest_metadata_at_field_access() {
    // "\nlet r = { /// test\n abc = 1 }\nr.ab\n" — completing the field gives
    // `abc`, and metadata at the field occurrence gives its doc comment.
    let r_ty = rec_ty(vec![("abc", Ty::Int)]);
    let tree = let_in(
        1,
        34,
        vec![bind(
            5,
            29,
            pvar("r", 1, 5, 6, ct(&r_ty)),
            vec![],
            Expr::Record {
                span: sp(9, 29),
                ty: ct(&r_ty),
                fields: vec![RecField {
                    name: ident("abc", 2, 21, 24, Ty::Int),
                    value: Some(lit(27, 28, Ty::Int)),
                }],
            },
        )],
        Expr::FieldAccess {
            span: sp(30, 34),
            recv: Box::new(var("r", 1, 30, 31, ct(&r_ty))),
            field: ident("ab", 9, 32, 34, Ty::Hole),
        },
    );
    let env = completion::types::TypeEnv { aliases: vec![] };
    let roots: Vec<completion::imports::FsDir> = vec![];
    let sugs = completion::suggest::suggest(&env, &roots, &tree, 34).expect("in tree");
    assert_eq!(sugs.len(), 1);
    assert_eq!(sugs[0].name, nm("abc"));
    let map = MetaMap { entries: vec![doc(2, "test")] };
    assert_eq!(comment_of(metadata_for(&map, &tree, 23)), Some(nm("test")));
}

#[test]
fn find_all_symbols_test() {
    // "\nlet test = 1\nlet dummy =\n    let test = 3\n    test\ntest #Int+ test #Int+ dummy\n"
    let op_ty = func(Ty::Int, func(Ty::Int, Ty::Int));
    let inner = let_in(
        30,
        51,
        vec![bind(34, 42, pvar("test", 3, 34, 38, Ty::Int), vec![], lit(41, 42, Ty::Int))],
        var("test", 3, 47, 51, Ty::Int),
    );
    let tree = let_in(
        1,
        79,
        vec![
            bind(5, 13, pvar("test", 1, 5, 9, Ty::Int), vec![], lit(12, 13, Ty::Int)),
            bind(18, 51, pvar("dummy", 2, 18, 23, Ty::Int), vec![], inner),
        ],
        app(
            52,
            79,
            Ty::Int,
            var("#Int+", 21, 68, 73, ct(&op_ty)),
            vec![
                app(
                    52,
                    67,
                    Ty::Int,
                    var("#Int+", 20, 57, 62, ct(&op_ty)),
                    vec![var("test", 1, 52, 56, Ty::Int), var("test", 1, 63, 67, Ty::Int)],
                ),
                var("dummy", 2, 74, 79, Ty::Int),
            ],
        ),
    );
    let hit = find_all_symbols(&tree, 53).expect("on an identifier");
    assert_eq!(hit.name, nm("test"));
    assert_eq!(hit.spans, vec![sp(5, 9), sp(52, 56), sp(63, 67)]);
}

#[test]
fn all_symbols_test() {
    // Same tree as `find_all_symbols_test`: the declared bindings are the
    // two outer ones and the nested one, in source order.
    let inner = let_in(
        30,
        51,
        vec![bind(34, 42, pvar("test", 3, 34, 38, Ty::Int), vec![], lit(41, 42, Ty::Int))],
        var("test", 3, 47, 51, Ty::Int),
    );
    let tree = let_in(
        1,
        79,
        vec![
            bind(5, 13, pvar("test", 1, 5, 9, Ty::Int), vec![], lit(12, 13, Ty::Int)),
            bind(18, 51, pvar("dummy", 2, 18, 23, Ty::Int), vec![], inner),
        ],
        var("test", 1, 52, 56, Ty::Int),
    );
    let decls = all_symbols(&tree);
    assert_eq!(decls.len(), 3);
    let names: Vec<Vec<u8>> = decls.iter().map(|d| d.name.clone()).collect();
    assert_eq!(names, vec![nm("test"), nm("dummy"), nm("test")]);
}
