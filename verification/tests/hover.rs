// Hover/type-at-position queries over hand-built, checker-shaped trees.
// Offsets in each test index the source text quoted above the tree.

use completion::ast::{Binding, Expr, Ident, Pat, RecField, Span, Symbol, Ty, TyField};
use completion::locate::find;

fn sp(a: usize, b: usize) -> Span {
    Span { start: a, end: b }
}

fn nm(s: &str) -> Vec<u8> {
    s.as_bytes().to_vec()
}

fn ident(s: &str, id: u64, a: usize, b: usize, ty: Ty) -> Ident {
    Ident { span: sp(a, b), sym: Symbol { name: nm(s), id }, ty }
}

fn var(s: &str, id: u64, a: usize, b: usize, ty: Ty) -> Expr {
    Expr::Var { ident: ident(s, id, a, b, ty) }
}

fn lit(a: usize, b: usize, ty: Ty) -> Expr {
    Expr::Lit { span: sp(a, b), ty }
}

fn pvar(s: &str, id: u64, a: usize, b: usize, ty: Ty) -> Pat {
    Pat::Var { ident: ident(s, id, a, b, ty) }
}

fn bind(a: usize, b: usize, pat: Pat, args: Vec<Ident>, expr: Expr) -> Binding {
    Binding { span: sp(a, b), name: pat, args, sig: None, expr }
}

fn let_in(a: usize, b: usize, bindings: Vec<Binding>, body: Expr) -> Expr {
    Expr::Let { span: sp(a, b), bindings, body: Box::new(body) }
}

fn app(a: usize, b: usize, ty: Ty, f: Expr, args: Vec<Expr>) -> Expr {
    Expr::App { span: sp(a, b), ty, func: Box::new(f), args }
}

fn func(a: Ty, r: Ty) -> Ty {
    Ty::Func(Box::new(a), Box::new(r))
}

fn ct(t: &Ty) -> Ty {
    completion::ast::clone_ty(t)
}

fn rec_ty(fields: Vec<(&str, Ty)>) -> Ty {
    Ty::Record(fields.into_iter().map(|(n, t)| TyField { name: nm(n), ty: t }).collect())
}

#[test]
fn identifier() {
    // "let abc = 1 in abc"
    let tree = let_in(
        0,
        18,
        vec![bind(4, 11, pvar("abc", 1, 4, 7, Ty::Int), vec![], lit(10, 11, Ty::Int))],
        var("abc", 1, 15, 18, Ty::Int),
    );
    assert_eq!(find(&tree, 15), Some((sp(15, 18), Ty::Int)));
    assert_eq!(find(&tree, 16), Some((sp(15, 18), Ty::Int)));
    assert_eq!(find(&tree, 17), Some((sp(15, 18), Ty::Int)));
    assert_eq!(find(&tree, 18), Some((sp(15, 18), Ty::Int)));
    assert_eq!(find(&tree, 7), Some((sp(4, 7), Ty::Int)));
}

#[test]
fn literal_string() {
    // " \"asd\" "
    let tree = lit(1, 6, Ty::Str);
    assert_eq!(find(&tree, 3), Some((sp(1, 6), Ty::Str)));
}

#[test]
fn in_let() {
    // "\nlet f x = 1\nand g x = \"asd\"\n1\n"
    let tree = let_in(
        1,
        30,
        vec![
            bind(
                5,
                12,
                pvar("f", 1, 5, 6, func(Ty::Var(nm("a")), Ty::Int)),
                vec![ident("x", 2, 7, 8, Ty::Var(nm("a")))],
                lit(11, 12, Ty::Int),
            ),
            bind(
                17,
                28,
                pvar("g", 3, 17, 18, func(Ty::Var(nm("b")), Ty::Str)),
                vec![ident("x", 4, 19, 20, Ty::Var(nm("b")))],
                lit(23, 28, Ty::Str),
            ),
        ],
        lit(29, 30, Ty::Int),
    );
    assert_eq!(find(&tree, 25), Some((sp(23, 28), Ty::Str)));
}

#[test]
fn let_in_let() {
    // "\nlet f =\n    let g y =\n        123\n    g\nf\n"
    let g_ty = func(Ty::Var(nm("a")), Ty::Int);
    let inner = let_in(
        13,
        40,
        vec![bind(
            17,
            34,
            pvar("g", 2, 17, 18, ct(&g_ty)),
            vec![ident("y", 3, 19, 20, Ty::Var(nm("a")))],
            lit(31, 34, Ty::Int),
        )],
        var("g", 2, 39, 40, ct(&g_ty)),
    );
    let tree = let_in(
        1,
        42,
        vec![bind(5, 40, pvar("f", 1, 5, 6, ct(&g_ty)), vec![], inner)],
        var("f", 1, 41, 42, g_ty),
    );
    assert_eq!(find(&tree, 33), Some((sp(31, 34), Ty::Int)));
}

#[test]
fn function_app() {
    // "\nlet f x = f x\n1\n"
    let f_ty = func(Ty::Var(nm("a")), Ty::Var(nm("a0")));
    let tree = let_in(
        1,
        16,
        vec![bind(
            5,
            14,
            pvar("f", 1, 5, 6, ct(&f_ty)),
            vec![ident("x", 2, 7, 8, Ty::Var(nm("a")))],
            app(
                11,
                14,
                Ty::Var(nm("a0")),
                var("f", 1, 11, 12, ct(&f_ty)),
                vec![var("x", 2, 13, 14, Ty::Var(nm("a")))],
            ),
        )],
        lit(15, 16, Ty::Int),
    );
    assert_eq!(find(&tree, 11), Some((sp(11, 12), f_ty)));
}

#[test]
fn binop() {
    // "\nlet (++) l r =\n    l #Int+ 1\n    r #Float+ 1.0\n    l\n1 ++ 2.0\n"
    let plus_ty = func(Ty::Int, func(Ty::Float, Ty::Int));
    let int_plus = func(Ty::Int, func(Ty::Int, Ty::Int));
    let float_plus = func(Ty::Float, func(Ty::Float, Ty::Float));
    let body_fn = app(
        20,
        53,
        Ty::Hole,
        app(
            20,
            29,
            Ty::Int,
            var("#Int+", 10, 22, 27, int_plus),
            vec![var("l", 2, 20, 21, Ty::Int), lit(28, 29, Ty::Int)],
        ),
        vec![
            app(
                34,
                47,
                Ty::Float,
                var("#Float+", 11, 36, 43, float_plus),
                vec![var("r", 3, 34, 35, Ty::Float), lit(44, 47, Ty::Float)],
            ),
            var("l", 2, 52, 53, Ty::Int),
        ],
    );
    let tree = let_in(
        1,
        62,
        vec![bind(
            5,
            53,
            pvar("++", 1, 5, 9, ct(&plus_ty)),
            vec![ident("l", 2, 10, 11, Ty::Int), ident("r", 3, 12, 13, Ty::Float)],
            body_fn,
        )],
        app(
            54,
            62,
            Ty::Int,
            var("++", 1, 56, 58, ct(&plus_ty)),
            vec![lit(54, 55, Ty::Int), lit(59, 62, Ty::Float)],
        ),
    );
    assert_eq!(find(&tree, 54), Some((sp(54, 55), Ty::Int)));
    assert_eq!(find(&tree, 59), Some((sp(59, 62), Ty::Float)));
    assert_eq!(find(&tree, 57), Some((sp(56, 58), plus_ty)));
}

#[test]
fn field_access() {
    // "\nlet r = { x = 1 }\nr.x\n"
    let r_ty = rec_ty(vec![("x", Ty::Int)]);
    let tree = let_in(
        1,
        22,
        vec![bind(
            5,
            18,
            pvar("r", 1, 5, 6, ct(&r_ty)),
            vec![],
            Expr::Record {
                span: sp(9, 18),
                ty: ct(&r_ty),
                fields: vec![RecField {
                    name: ident("x", 2, 11, 12, Ty::Int),
                    value: Some(lit(15, 16, Ty::Int)),
                }],
            },
        )],
        Expr::FieldAccess {
            span: sp(19, 22),
            recv: Box::new(var("r", 1, 19, 20, ct(&r_ty))),
            field: ident("x", 2, 21, 22, Ty::Int),
        },
    );
    assert_eq!(find(&tree, 19), Some((sp(19, 20), r_ty)));
    assert_eq!(find(&tree, 21), Some((sp(21, 22), Ty::Int)));
    assert_eq!(find(&tree, 22), Some((sp(21, 22), Ty::Int)));
}

#[test]
fn parens_expr() {
    // "\nlet id x = x\n(id 1)\n"
    let id_ty = func(Ty::Int, Ty::Int);
    let tree = let_in(
        1,
        20,
        vec![bind(
            5,
            13,
            pvar("id", 1, 5, 7, ct(&id_ty)),
            vec![ident("x", 2, 8, 9, Ty::Int)],
            var("x", 2, 12, 13, Ty::Int),
        )],
        app(
            14,
            20,
            Ty::Int,
            var("id", 1, 15, 17, ct(&id_ty)),
            vec![lit(18, 19, Ty::Int)],
        ),
    );
    assert_eq!(find(&tree, 14), Some((sp(14, 20), Ty::Int)));
    assert_eq!(find(&tree, 20), Some((sp(14, 20), Ty::Int)));
    assert_eq!(find(&tree, 15), Some((sp(15, 17), ct(&id_ty))));
    assert_eq!(find(&tree, 17), Some((sp(15, 17), id_ty)));
}

#[test]
fn in_record() {
    // "\n{\n    test = 123,\n    s = \"asd\"\n}\n"
    let tree = Expr::Record {
        span: sp(1, 34),
        ty: rec_ty(vec![("test", Ty::Int), ("s", Ty::Str)]),
        fields: vec![
            RecField { name: ident("test", 1, 7, 11, Ty::Int), value: Some(lit(14, 17, Ty::Int)) },
            RecField { name: ident("s", 2, 23, 24, Ty::Str), value: Some(lit(27, 32, Ty::Str)) },
        ],
    };
    assert_eq!(find(&tree, 15), Some((sp(14, 17), Ty::Int)));
}

#[test]
fn function_arg() {
    // "\nlet f x = x #Int+ 1\n\"\"\n"
    let int_plus = func(Ty::Int, func(Ty::Int, Ty::Int));
    let tree = let_in(
        1,
        23,
        vec![bind(
            5,
            20,
            pvar("f", 1, 5, 6, func(Ty::Int, Ty::Int)),
            vec![ident("x", 2, 7, 8, Ty::Int)],
            app(
                11,
                20,
                Ty::Int,
                var("#Int+", 10, 13, 18, int_plus),
                vec![var("x", 2, 11, 12, Ty::Int), lit(19, 20, Ty::Int)],
            ),
        )],
        lit(21, 23, Ty::Str),
    );
    assert_eq!(find(&tree, 22), Some((sp(21, 23), Ty::Str)));
}

#[test]
fn lambda_arg() {
    // "\nlet f : Int -> String -> String = \\x y -> y\n1.0\n"
    let f_ty = func(Ty::Int, func(Ty::Str, Ty::Str));
    let tree = let_in(
        1,
        48,
        vec![bind(
            5,
            44,
            pvar("f", 1, 5, 6, ct(&f_ty)),
            vec![],
            Expr::Lambda {
                span: sp(35, 44),
                ty: f_ty,
                params: vec![ident("x", 2, 36, 37, Ty::Int), ident("y", 3, 38, 39, Ty::Str)],
                body: Box::new(var("y", 3, 43, 44, Ty::Str)),
            },
        )],
        lit(45, 48, Ty::Float),
    );
    assert_eq!(find(&tree, 38), Some((sp(38, 39), Ty::Str)));
}

#[test]
fn unit() {
    // "()"
    let tree = lit(0, 2, Ty::Unit);
    assert_eq!(find(&tree, 1), Some((sp(0, 2), Ty::Unit)));
}
