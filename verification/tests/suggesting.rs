// Completion queries over hand-built, checker-shaped trees. Offsets in
// each test index the source text quoted above the tree.

use completion::ast::{Binding, Expr, Ident, Pat, PatField, RecField, Span, Symbol, Ty, TyExpr,
    TyExprField, TyField, TypeBind};
use completion::candidates::Suggestion;
use completion::imports::FsDir;
use completion::suggest::suggest;
use completion::types::TypeEnv;

fn sp(a: usize, b: usize) -> Span {
    Span { start: a, end: b }
}

fn nm(s: &str) -> Vec<u8> {
    s.as_bytes().to_vec()
}

fn ident(s: &str, id: u64, a: usize, b: usize, ty: Ty) -> Ident {
    Ident { span: sp(a, b), sym: Symbol { name: nm(s), id }, ty }
}

fn var(s: &str, id: u64, a: usize, b: usize, ty: Ty) -> Expr {
    Expr::Var { ident: ident(s, id, a, b, ty) }
}

fn lit(a: usize, b: usize, ty: Ty) -> Expr {
    Expr::Lit { span: sp(a, b), ty }
}

fn pvar(s: &str, id: u64, a: usize, b: usize, ty: Ty) -> Pat {
    Pat::Var { ident: ident(s, id, a, b, ty) }
}

fn bind(a: usize, b: usize, pat: Pat, args: Vec<Ident>, expr: Expr) -> Binding {
    Binding { span: sp(a, b), name: pat, args, sig: None, expr }
}

fn let_in(a: usize, b: usize, bindings: Vec<Binding>, body: Expr) -> Expr {
    Expr::Let { span: sp(a, b), bindings, body: Box::new(body) }
}

fn app(a: usize, b: usize, ty: Ty, f: Expr, args: Vec<Expr>) -> Expr {
    Expr::App { span: sp(a, b), ty, func: Box::new(f), args }
}

fn func(a: Ty, r: Ty) -> Ty {
    Ty::Func(Box::new(a), Box::new(r))
}

fn ct(t: &Ty) -> Ty {
    completion::ast::clone_ty(t)
}

fn rec_ty(fields: Vec<(&str, Ty)>) -> Ty {
    Ty::Record(fields.into_iter().map(|(n, t)| TyField { name: nm(n), ty: t }).collect())
}

fn variants(fields: Vec<(&str, Ty)>) -> Ty {
    Ty::Variants(fields.into_iter().map(|(n, t)| TyField { name: nm(n), ty: t }).collect())
}

fn record(a: usize, b: usize, ty: Ty, fields: Vec<RecField>) -> Expr {
    Expr::Record { span: sp(a, b), ty, fields }
}

fn rfield(name: Ident, value: Expr) -> RecField {
    RecField { name, value: Some(value) }
}

fn pfield(name: Ident) -> PatField {
    PatField { name, bind: None }
}

fn prec(a: usize, b: usize, ty: Ty, alias: Option<Ident>, fields: Vec<PatField>) -> Pat {
    Pat::Record { span: sp(a, b), ty, alias, fields }
}

fn faccess(a: usize, b: usize, recv: Expr, field: Ident) -> Expr {
    Expr::FieldAccess { span: sp(a, b), recv: Box::new(recv), field }
}

fn tdecl(a: usize, b: usize, name: Ident, params: Vec<Ident>, rhs: Option<TyExpr>, body_ty: Ty,
    ctors: Vec<Ident>, body: Expr) -> Expr {
    Expr::TypeDecl {
        span: sp(a, b),
        decl: TypeBind { span: sp(a, b), name, params, rhs, body: body_ty, ctors },
        body: Box::new(body),
    }
}

fn env0() -> TypeEnv {
    TypeEnv { aliases: vec![] }
}

fn roots0() -> Vec<FsDir> {
    vec![]
}

fn names(r: &[Suggestion]) -> Vec<Vec<u8>> {
    r.iter().map(|s| s.name.clone()).collect()
}

fn suggest_names(tree: &Expr, pos: usize) -> Vec<Vec<u8>> {
    names(&suggest(&env0(), &roots0(), tree, pos).expect("position should be in the tree"))
}

#[test]
fn suggest_identifier_when_prefix() {
    // "\nlet test = 1\nlet tes = \"\"\nlet aaa = test\nte\n"
    let tree = let_in(
        1,
        44,
        vec![bind(5, 13, pvar("test", 1, 5, 9, Ty::Int), vec![], lit(12, 13, Ty::Int))],
        let_in(
            14,
            44,
            vec![bind(18, 26, pvar("tes", 2, 18, 21, Ty::Str), vec![], lit(24, 26, Ty::Str))],
            let_in(
                27,
                44,
                vec![bind(
                    31,
                    41,
                    pvar("aaa", 3, 31, 34, Ty::Int),
                    vec![],
                    var("test", 1, 37, 41, Ty::Int),
                )],
                var("te", 9, 42, 44, Ty::Hole),
            ),
        ),
    );
    assert_eq!(suggest_names(&tree, 43), vec![nm("tes"), nm("test")]);
}

#[test]
fn suggest_arguments() {
    // "\nlet f test =\n    \\test2 -> tes\n123\n"
    let tree = let_in(
        1,
        35,
        vec![bind(
            5,
            31,
            pvar("f", 1, 5, 6, Ty::Hole),
            vec![ident("test", 2, 7, 11, Ty::Hole)],
            Expr::Lambda {
                span: sp(18, 31),
                ty: Ty::Hole,
                params: vec![ident("test2", 3, 19, 24, Ty::Hole)],
                body: Box::new(var("tes", 9, 28, 31, Ty::Hole)),
            },
        )],
        lit(32, 35, Ty::Int),
    );
    assert_eq!(suggest_names(&tree, 31), vec![nm("test"), nm("test2")]);
}

#[test]
fn suggest_after_unrelated_type_error() {
    // "\nlet record = { aa = 1, ab = 2, c = \"\" }\n1.0 #Int+ 2\nrecord.a\n"
    let r_ty = rec_ty(vec![("aa", Ty::Int), ("ab", Ty::Int), ("c", Ty::Str)]);
    let tree = let_in(
        1,
        61,
        vec![bind(
            5,
            40,
            pvar("record", 1, 5, 11, ct(&r_ty)),
            vec![],
            record(
                14,
                40,
                ct(&r_ty),
                vec![
                    rfield(ident("aa", 2, 16, 18, Ty::Int), lit(21, 22, Ty::Int)),
                    rfield(ident("ab", 3, 24, 26, Ty::Int), lit(29, 30, Ty::Int)),
                    rfield(ident("c", 4, 32, 33, Ty::Str), lit(36, 38, Ty::Str)),
                ],
            ),
        )],
        app(
            41,
            61,
            Ty::Hole,
            app(
                41,
                52,
                Ty::Hole,
                var("#Int+", 10, 45, 50, func(Ty::Int, func(Ty::Int, Ty::Int))),
                vec![lit(41, 44, Ty::Float), lit(51, 52, Ty::Int)],
            ),
            vec![faccess(
                53,
                61,
                var("record", 1, 53, 59, ct(&r_ty)),
                ident("a", 11, 60, 61, Ty::Hole),
            )],
        ),
    );
    assert_eq!(suggest_names(&tree, 61), vec![nm("aa"), nm("ab")]);
}

#[test]
fn suggest_through_aliases() {
    // "\ntype Test a = { abc: a -> Int }\ntype Test2 = Test String\nlet r = x\nr.ab\n"
    let test_body = rec_ty(vec![("abc", func(Ty::Var(nm("a")), Ty::Int))]);
    let tree = tdecl(
        1,
        73,
        ident("Test", 1, 6, 10, Ty::Hole),
        vec![ident("a", 2, 11, 12, Ty::Hole)],
        None,
        test_body,
        vec![],
        tdecl(
            33,
            73,
            ident("Test2", 3, 38, 43, Ty::Hole),
            vec![],
            None,
            Ty::Named(nm("Test"), vec![Ty::Str]),
            vec![],
            let_in(
                59,
                73,
                vec![bind(
                    63,
                    68,
                    pvar("r", 4, 63, 64, Ty::Named(nm("Test2"), vec![])),
                    vec![],
                    Expr::Error { span: sp(67, 68) },
                )],
                faccess(
                    69,
                    73,
                    var("r", 4, 69, 70, Ty::Named(nm("Test2"), vec![])),
                    ident("ab", 9, 71, 73, Ty::Hole),
                ),
            ),
        ),
    );
    assert_eq!(suggest_names(&tree, 73), vec![nm("abc")]);
}

#[test]
fn suggest_after_dot() {
    // "\nlet record = { aa = 1, ab = 2, c = \"\" }\nrecord.\n"
    let r_ty = rec_ty(vec![("aa", Ty::Int), ("ab", Ty::Int), ("c", Ty::Str)]);
    let tree = let_in(
        1,
        48,
        vec![bind(
            5,
            40,
            pvar("record", 1, 5, 11, ct(&r_ty)),
            vec![],
            record(
                14,
                40,
                ct(&r_ty),
                vec![
                    rfield(ident("aa", 2, 16, 18, Ty::Int), lit(21, 22, Ty::Int)),
                    rfield(ident("ab", 3, 24, 26, Ty::Int), lit(29, 30, Ty::Int)),
                    rfield(ident("c", 4, 32, 33, Ty::Str), lit(36, 38, Ty::Str)),
                ],
            ),
        )],
        faccess(
            41,
            48,
            var("record", 1, 41, 47, ct(&r_ty)),
            ident("", 11, 48, 48, Ty::Hole),
        ),
    );
    assert_eq!(suggest_names(&tree, 48), vec![nm("aa"), nm("ab"), nm("c")]);
}

#[test]
fn suggest_on_record_in_field_access() {
    // "\nlet record = { aa = 1, ab = 2, c = \"\" }\nrecord.aa\n"
    let r_ty = rec_ty(vec![("aa", Ty::Int), ("ab", Ty::Int), ("c", Ty::Str)]);
    let tree = let_in(
        1,
        50,
        vec![bind(
            5,
            40,
            pvar("record", 1, 5, 11, ct(&r_ty)),
            vec![],
            record(
                14,
                40,
                ct(&r_ty),
                vec![
                    rfield(ident("aa", 2, 16, 18, Ty::Int), lit(21, 22, Ty::Int)),
                    rfield(ident("ab", 3, 24, 26, Ty::Int), lit(29, 30, Ty::Int)),
                    rfield(ident("c", 4, 32, 33, Ty::Str), lit(36, 38, Ty::Str)),
                ],
            ),
        )],
        faccess(
            41,
            50,
            var("record", 1, 41, 47, ct(&r_ty)),
            ident("aa", 2, 48, 50, Ty::Int),
        ),
    );
    assert_eq!(suggest_names(&tree, 45), vec![nm("record")]);
}

#[test]
fn suggest_from_record_unpack() {
    // "\nlet { aa, c } = { aa = 1, ab = 2, c = \"\" }\na\n"
    let r_ty = rec_ty(vec![("aa", Ty::Int), ("ab", Ty::Int), ("c", Ty::Str)]);
    let tree = let_in(
        1,
        45,
        vec![bind(
            5,
            42,
            prec(
                5,
                14,
                ct(&r_ty),
                None,
                vec![pfield(ident("aa", 1, 7, 9, Ty::Int)), pfield(ident("c", 2, 11, 12, Ty::Str))],
            ),
            vec![],
            record(
                17,
                42,
                ct(&r_ty),
                vec![
                    rfield(ident("aa", 1, 19, 21, Ty::Int), lit(24, 25, Ty::Int)),
                    rfield(ident("ab", 3, 27, 29, Ty::Int), lit(32, 33, Ty::Int)),
                    rfield(ident("c", 2, 35, 36, Ty::Str), lit(39, 41, Ty::Str)),
                ],
            ),
        )],
        var("a", 9, 44, 45, Ty::Hole),
    );
    assert_eq!(suggest_names(&tree, 45), vec![nm("aa")]);
}

#[test]
fn suggest_from_record_unpack_unordered() {
    // "\nlet { c, aa } = { aa = 1, ab = 2.0, c = \"\" }\na\n"
    let r_ty = rec_ty(vec![("aa", Ty::Int), ("ab", Ty::Float), ("c", Ty::Str)]);
    let tree = let_in(
        1,
        47,
        vec![bind(
            5,
            44,
            prec(
                5,
                14,
                ct(&r_ty),
                None,
                vec![pfield(ident("c", 2, 7, 8, Ty::Str)), pfield(ident("aa", 1, 10, 12, Ty::Int))],
            ),
            vec![],
            record(
                17,
                44,
                ct(&r_ty),
                vec![
                    rfield(ident("aa", 1, 19, 21, Ty::Int), lit(24, 25, Ty::Int)),
                    rfield(ident("ab", 3, 27, 29, Ty::Float), lit(32, 35, Ty::Float)),
                    rfield(ident("c", 2, 37, 38, Ty::Str), lit(41, 43, Ty::Str)),
                ],
            ),
        )],
        var("a", 9, 46, 47, Ty::Hole),
    );
    assert_eq!(suggest_names(&tree, 47), vec![nm("aa")]);
}

#[test]
fn suggest_as_pattern() {
    // "\nlet abc@ { y } = { y = 1 }\na\n"
    let r_ty = rec_ty(vec![("y", Ty::Int)]);
    let tree = let_in(
        1,
        29,
        vec![bind(
            5,
            27,
            prec(
                5,
                15,
                ct(&r_ty),
                Some(ident("abc", 1, 5, 8, ct(&r_ty))),
                vec![pfield(ident("y", 2, 12, 13, Ty::Int))],
            ),
            vec![],
            record(
                18,
                27,
                ct(&r_ty),
                vec![rfield(ident("y", 2, 20, 21, Ty::Int), lit(24, 25, Ty::Int))],
            ),
        )],
        var("a", 9, 28, 29, Ty::Hole),
    );
    assert_eq!(suggest_names(&tree, 29), vec![nm("abc")]);
}

#[test]
fn suggest_end_of_identifier() {
    // "\nlet abc = 1\nlet abb = 2\nabc\n"
    let tree = let_in(
        1,
        28,
        vec![bind(5, 12, pvar("abc", 1, 5, 8, Ty::Int), vec![], lit(11, 12, Ty::Int))],
        let_in(
            13,
            28,
            vec![bind(17, 24, pvar("abb", 2, 17, 20, Ty::Int), vec![], lit(23, 24, Ty::Int))],
            var("abc", 1, 25, 28, Ty::Int),
        ),
    );
    assert_eq!(suggest_names(&tree, 28), vec![nm("abc")]);
}

#[test]
fn suggest_after_identifier() {
    // "\nlet abc = 1\nlet abb = 2\nabc    \n" — the cursor stands in the
    // trailing whitespace after the body, inside the binding group's span.
    let tree = let_in(
        1,
        33,
        vec![bind(5, 12, pvar("abc", 1, 5, 8, Ty::Int), vec![], lit(11, 12, Ty::Int))],
        let_in(
            13,
            33,
            vec![bind(17, 24, pvar("abb", 2, 17, 20, Ty::Int), vec![], lit(23, 24, Ty::Int))],
            var("abc", 1, 25, 28, Ty::Int),
        ),
    );
    assert_eq!(suggest_names(&tree, 32), vec![nm("abb"), nm("abc")]);
}

#[test]
fn suggest_between_expressions() {
    // "\nlet abc = 1\nlet abb = 2\ntest  test1\n\"\"  123\n"
    let tree = let_in(
        1,
        44,
        vec![bind(5, 12, pvar("abc", 1, 5, 8, Ty::Int), vec![], lit(11, 12, Ty::Int))],
        let_in(
            13,
            44,
            vec![bind(17, 24, pvar("abb", 2, 17, 20, Ty::Int), vec![], lit(23, 24, Ty::Int))],
            app(
                25,
                44,
                Ty::Hole,
                var("test", 8, 25, 29, Ty::Hole),
                vec![var("test1", 9, 31, 36, Ty::Hole), lit(37, 39, Ty::Str), lit(41, 44, Ty::Int)],
            ),
        ),
    );
    assert_eq!(suggest_names(&tree, 30), vec![nm("abb"), nm("abc")]);
    assert_eq!(suggest_names(&tree, 40), vec![nm("abb"), nm("abc")]);
}

#[test]
fn suggest_alternative() {
    // "\ntype Test = | A Int | B Int String\nmatch A 3 with\n| //\n"
    let data = Ty::Named(nm("Test"), vec![]);
    let a_ty = func(Ty::Int, ct(&data));
    let b_ty = func(Ty::Int, func(Ty::Str, ct(&data)));
    let tree = tdecl(
        1,
        55,
        ident("Test", 1, 6, 10, Ty::Hole),
        vec![],
        None,
        variants(vec![("A", ct(&a_ty)), ("B", ct(&b_ty))]),
        vec![ident("A", 2, 15, 16, ct(&a_ty)), ident("B", 3, 23, 24, ct(&b_ty))],
        Expr::Match {
            span: sp(36, 55),
            scrutinee: Box::new(app(
                42,
                45,
                ct(&data),
                var("A", 2, 42, 43, ct(&a_ty)),
                vec![lit(44, 45, Ty::Int)],
            )),
            alts: vec![completion::ast::Alt {
                span: sp(51, 55),
                pat: Pat::Ctor { span: sp(53, 53), name: ident("", 9, 53, 53, Ty::Hole), args: vec![] },
                expr: Expr::Error { span: sp(54, 55) },
            }],
        },
    );
    assert_eq!(suggest_names(&tree, 53), vec![nm("A"), nm("B")]);
}

#[test]
fn suggest_incomplete_pattern_name() {
    // "\ntype Test = | A Int | BC Int String\nmatch A 3 with\n| B -> 3\n"
    let data = Ty::Named(nm("Test"), vec![]);
    let a_ty = func(Ty::Int, ct(&data));
    let bc_ty = func(Ty::Int, func(Ty::Str, ct(&data)));
    let tree = tdecl(
        1,
        60,
        ident("Test", 1, 6, 10, Ty::Hole),
        vec![],
        None,
        variants(vec![("A", ct(&a_ty)), ("BC", ct(&bc_ty))]),
        vec![ident("A", 2, 15, 16, ct(&a_ty)), ident("BC", 3, 23, 25, ct(&bc_ty))],
        Expr::Match {
            span: sp(37, 60),
            scrutinee: Box::new(app(
                43,
                46,
                ct(&data),
                var("A", 2, 43, 44, ct(&a_ty)),
                vec![lit(45, 46, Ty::Int)],
            )),
            alts: vec![completion::ast::Alt {
                span: sp(52, 60),
                pat: Pat::Ctor { span: sp(54, 55), name: ident("B", 9, 54, 55, Ty::Hole), args: vec![] },
                expr: lit(59, 60, Ty::Int),
            }],
        },
    );
    assert_eq!(suggest_names(&tree, 55), vec![nm("BC")]);
}

#[test]
fn suggest_record_field_in_pattern_at_ident() {
    // "\nlet { ab } = { x = 1, abc = \"\", abcd = 2 }\n()\n"
    let r_ty = rec_ty(vec![("x", Ty::Int), ("abc", Ty::Str), ("abcd", Ty::Int)]);
    let tree = let_in(
        1,
        46,
        vec![bind(
            5,
            43,
            prec(5, 11, ct(&r_ty), None, vec![pfield(ident("ab", 1, 7, 9, Ty::Hole))]),
            vec![],
            record(
                14,
                43,
                ct(&r_ty),
                vec![
                    rfield(ident("x", 2, 16, 17, Ty::Int), lit(20, 21, Ty::Int)),
                    rfield(ident("abc", 3, 23, 26, Ty::Str), lit(29, 31, Ty::Str)),
                    rfield(ident("abcd", 4, 33, 37, Ty::Int), lit(40, 41, Ty::Int)),
                ],
            ),
        )],
        lit(44, 46, Ty::Unit),
    );
    assert_eq!(suggest_names(&tree, 9), vec![nm("abc"), nm("abcd")]);
}

#[test]
fn suggest_record_field_in_pattern_at_nothing() {
    // "\nlet { ab } = { x = 1, abc = \"\", abcd = 2 }\n()\n" — the cursor
    // stands inside the typed field's text with only "a" before it.
    let r_ty = rec_ty(vec![("x", Ty::Int), ("abc", Ty::Str), ("abcd", Ty::Int)]);
    let tree = let_in(
        1,
        46,
        vec![bind(
            5,
            43,
            prec(5, 11, ct(&r_ty), None, vec![pfield(ident("ab", 1, 7, 9, Ty::Hole))]),
            vec![],
            record(
                14,
                43,
                ct(&r_ty),
                vec![
                    rfield(ident("x", 2, 16, 17, Ty::Int), lit(20, 21, Ty::Int)),
                    rfield(ident("abc", 3, 23, 26, Ty::Str), lit(29, 31, Ty::Str)),
                    rfield(ident("abcd", 4, 33, 37, Ty::Int), lit(40, 41, Ty::Int)),
                ],
            ),
        )],
        lit(44, 46, Ty::Unit),
    );
    assert_eq!(suggest_names(&tree, 8), vec![nm("abc"), nm("abcd")]);
}

#[test]
fn suggest_record_field_in_pattern_before_field() {
    // "\nlet { a abc } = { x = 1, abc = \"\", abcd = 2 }\n()\n"
    let r_ty = rec_ty(vec![("x", Ty::Int), ("abc", Ty::Str), ("abcd", Ty::Int)]);
    let tree = let_in(
        1,
        49,
        vec![bind(
            5,
            46,
            prec(
                5,
                14,
                ct(&r_ty),
                None,
                vec![
                    pfield(ident("a", 1, 7, 8, Ty::Hole)),
                    pfield(ident("abc", 2, 9, 12, Ty::Str)),
                ],
            ),
            vec![],
            record(
                17,
                46,
                ct(&r_ty),
                vec![
                    rfield(ident("x", 3, 19, 20, Ty::Int), lit(23, 24, Ty::Int)),
                    rfield(ident("abc", 4, 26, 29, Ty::Str), lit(32, 34, Ty::Str)),
                    rfield(ident("abcd", 5, 36, 40, Ty::Int), lit(43, 44, Ty::Int)),
                ],
            ),
        )],
        lit(47, 49, Ty::Unit),
    );
    assert_eq!(suggest_names(&tree, 8), vec![nm("abcd")]);
}

#[test]
fn suggest_alias_field_in_pattern() {
    // "\nlet x@{ ab } = { x = 1, abc = \"\", abcd = 2 }\n()\n"
    let r_ty = rec_ty(vec![("x", Ty::Int), ("abc", Ty::Str), ("abcd", Ty::Int)]);
    let tree = let_in(
        1,
        48,
        vec![bind(
            5,
            45,
            prec(
                5,
                13,
                ct(&r_ty),
                Some(ident("x", 1, 5, 6, ct(&r_ty))),
                vec![pfield(ident("ab", 2, 9, 11, Ty::Hole))],
            ),
            vec![],
            record(
                16,
                45,
                ct(&r_ty),
                vec![
                    rfield(ident("x", 3, 18, 19, Ty::Int), lit(22, 23, Ty::Int)),
                    rfield(ident("abc", 4, 25, 28, Ty::Str), lit(31, 33, Ty::Str)),
                    rfield(ident("abcd", 5, 35, 39, Ty::Int), lit(42, 43, Ty::Int)),
                ],
            ),
        )],
        lit(46, 48, Ty::Unit),
    );
    assert_eq!(suggest_names(&tree, 11), vec![nm("abc"), nm("abcd")]);
}

#[test]
fn dont_suggest_variant_at_record_field() {
    // "\ntype Test = | Test Int\nlet { } = { abc = \"\" }\n()\n"
    let data = Ty::Named(nm("Test"), vec![]);
    let ctor_ty = func(Ty::Int, ct(&data));
    let r_ty = rec_ty(vec![("abc", Ty::Str)]);
    let tree = tdecl(
        1,
        49,
        ident("Test", 1, 6, 10, Ty::Hole),
        vec![],
        None,
        variants(vec![("Test", ct(&ctor_ty))]),
        vec![ident("Test", 2, 15, 19, ct(&ctor_ty))],
        let_in(
            24,
            49,
            vec![bind(
                28,
                46,
                prec(28, 31, ct(&r_ty), None, vec![]),
                vec![],
                record(
                    34,
                    46,
                    ct(&r_ty),
                    vec![rfield(ident("abc", 3, 36, 39, Ty::Str), lit(42, 44, Ty::Str))],
                ),
            )],
            lit(47, 49, Ty::Unit),
        ),
    );
    assert_eq!(suggest_names(&tree, 29), vec![nm("abc")]);
}

#[test]
fn dont_suggest_field_already_in_pattern() {
    // "\nlet { abc, a } = { abc = \"\", abcd = 2 }\n()\n"
    let r_ty = rec_ty(vec![("abc", Ty::Str), ("abcd", Ty::Int)]);
    let tree = let_in(
        1,
        44,
        vec![bind(
            5,
            41,
            prec(
                5,
                15,
                ct(&r_ty),
                None,
                vec![
                    pfield(ident("abc", 1, 7, 10, Ty::Str)),
                    pfield(ident("a", 2, 12, 13, Ty::Hole)),
                ],
            ),
            vec![],
            record(
                18,
                41,
                ct(&r_ty),
                vec![
                    rfield(ident("abc", 3, 20, 23, Ty::Str), lit(26, 28, Ty::Str)),
                    rfield(ident("abcd", 4, 30, 34, Ty::Int), lit(37, 38, Ty::Int)),
                ],
            ),
        )],
        lit(42, 44, Ty::Unit),
    );
    assert_eq!(suggest_names(&tree, 12), vec![nm("abcd")]);
}

#[test]
fn suggest_exact_field_match_in_pattern() {
    // "\nlet { abc } = { abc = \"\" }\n()\n"
    let r_ty = rec_ty(vec![("abc", Ty::Str)]);
    let tree = let_in(
        1,
        30,
        vec![bind(
            5,
            27,
            prec(5, 12, ct(&r_ty), None, vec![pfield(ident("abc", 1, 7, 10, Ty::Str))]),
            vec![],
            record(
                15,
                27,
                ct(&r_ty),
                vec![rfield(ident("abc", 2, 17, 20, Ty::Str), lit(23, 25, Ty::Str))],
            ),
        )],
        lit(28, 30, Ty::Unit),
    );
    assert_eq!(suggest_names(&tree, 10), vec![nm("abc")]);
}

#[test]
fn suggest_pattern_at_record_brace() {
    // "\nlet { x } = { x = 1 }\nx\n"
    let r_ty = rec_ty(vec![("x", Ty::Int)]);
    let tree = let_in(
        1,
        24,
        vec![bind(
            5,
            22,
            prec(5, 10, ct(&r_ty), None, vec![pfield(ident("x", 1, 7, 8, Ty::Int))]),
            vec![],
            record(
                13,
                22,
                ct(&r_ty),
                vec![rfield(ident("x", 2, 15, 16, Ty::Int), lit(19, 20, Ty::Int))],
            ),
        )],
        var("x", 1, 23, 24, Ty::Int),
    );
    let at_brace = suggest(&env0(), &roots0(), &tree, 10).expect("in tree");
    assert_eq!(names(&at_brace), Vec::<Vec<u8>>::new());
    assert_eq!(suggest_names(&tree, 24), vec![nm("x")]);
}

#[test]
fn suggest_type_field_in_record_pattern_at_ident() {
    // "\ntype Test = | Test Int\nlet { T } = { Test, x = 1 }\n()\n"
    let data = Ty::Named(nm("Test"), vec![]);
    let ctor_ty = func(Ty::Int, ct(&data));
    let r_ty = rec_ty(vec![("Test", ct(&ctor_ty)), ("x", Ty::Int)]);
    let tree = tdecl(
        1,
        54,
        ident("Test", 1, 6, 10, Ty::Hole),
        vec![],
        None,
        variants(vec![("Test", ct(&ctor_ty))]),
        vec![ident("Test", 2, 15, 19, ct(&ctor_ty))],
        let_in(
            24,
            54,
            vec![bind(
                28,
                51,
                prec(28, 33, ct(&r_ty), None, vec![pfield(ident("T", 3, 30, 31, Ty::Hole))]),
                vec![],
                record(
                    36,
                    51,
                    ct(&r_ty),
                    vec![
                        RecField { name: ident("Test", 2, 38, 42, ct(&ctor_ty)), value: None },
                        rfield(ident("x", 4, 44, 45, Ty::Int), lit(48, 49, Ty::Int)),
                    ],
                ),
            )],
            lit(52, 54, Ty::Unit),
        ),
    );
    assert_eq!(suggest_names(&tree, 31), vec![nm("Test")]);
}

#[test]
fn suggest_type_field_in_record_pattern_at_empty() {
    // "\ntype Test = | Test Int\nlet {  } = { Test, x = 1 }\n()\n"
    let data = Ty::Named(nm("Test"), vec![]);
    let ctor_ty = func(Ty::Int, ct(&data));
    let r_ty = rec_ty(vec![("Test", ct(&ctor_ty)), ("x", Ty::Int)]);
    let tree = tdecl(
        1,
        53,
        ident("Test", 1, 6, 10, Ty::Hole),
        vec![],
        None,
        variants(vec![("Test", ct(&ctor_ty))]),
        vec![ident("Test", 2, 15, 19, ct(&ctor_ty))],
        let_in(
            24,
            53,
            vec![bind(
                28,
                50,
                prec(28, 32, ct(&r_ty), None, vec![]),
                vec![],
                record(
                    35,
                    50,
                    ct(&r_ty),
                    vec![
                        RecField { name: ident("Test", 2, 37, 41, ct(&ctor_ty)), value: None },
                        rfield(ident("x", 4, 43, 44, Ty::Int), lit(47, 48, Ty::Int)),
                    ],
                ),
            )],
            lit(51, 53, Ty::Unit),
        ),
    );
    assert_eq!(suggest_names(&tree, 30), vec![nm("Test"), nm("x")]);
}

#[test]
fn suggest_in_type_binding() {
    // "\ntype Test = Int\ntype Abc = Te\n()\n"
    let tree = tdecl(
        1,
        33,
        ident("Test", 1, 6, 10, Ty::Hole),
        vec![],
        Some(TyExpr::Ref { span: sp(13, 16), name: nm("Int") }),
        Ty::Int,
        vec![],
        tdecl(
            17,
            33,
            ident("Abc", 2, 22, 25, Ty::Hole),
            vec![],
            Some(TyExpr::Ref { span: sp(28, 30), name: nm("Te") }),
            Ty::Hole,
            vec![],
            lit(31, 33, Ty::Unit),
        ),
    );
    assert_eq!(suggest_names(&tree, 30), vec![nm("Test")]);
}

#[test]
fn suggest_type_variable_in_type_binding() {
    // "\ntype Test a b ab = { x : a, y : b, z: ab }\n()\n"
    let rhs = TyExpr::Record {
        span: sp(20, 44),
        fields: vec![
            TyExprField {
                name_span: sp(22, 23),
                name: nm("x"),
                ty: TyExpr::Ref { span: sp(26, 27), name: nm("a") },
            },
            TyExprField {
                name_span: sp(29, 30),
                name: nm("y"),
                ty: TyExpr::Ref { span: sp(33, 34), name: nm("b") },
            },
            TyExprField {
                name_span: sp(36, 37),
                name: nm("z"),
                ty: TyExpr::Ref { span: sp(39, 41), name: nm("ab") },
            },
        ],
    };
    let tree = tdecl(
        1,
        47,
        ident("Test", 1, 6, 10, Ty::Hole),
        vec![
            ident("a", 2, 11, 12, Ty::Hole),
            ident("b", 3, 13, 14, Ty::Hole),
            ident("ab", 4, 15, 17, Ty::Hole),
        ],
        Some(rhs),
        rec_ty(vec![
            ("x", Ty::Var(nm("a"))),
            ("y", Ty::Var(nm("b"))),
            ("z", Ty::Var(nm("ab"))),
        ]),
        vec![],
        lit(45, 47, Ty::Unit),
    );
    assert_eq!(suggest_names(&tree, 27), vec![nm("a"), nm("ab")]);
}

#[test]
fn suggest_in_type_of_let_binding() {
    // "\ntype Test = Int\ntype Abc = Te\nlet x: T = 1\n()\n"
    let tree = tdecl(
        1,
        46,
        ident("Test", 1, 6, 10, Ty::Hole),
        vec![],
        Some(TyExpr::Ref { span: sp(13, 16), name: nm("Int") }),
        Ty::Int,
        vec![],
        tdecl(
            17,
            46,
            ident("Abc", 2, 22, 25, Ty::Hole),
            vec![],
            Some(TyExpr::Ref { span: sp(28, 30), name: nm("Te") }),
            Ty::Hole,
            vec![],
            Expr::Let {
                span: sp(31, 46),
                bindings: vec![Binding {
                    span: sp(35, 43),
                    name: pvar("x", 3, 35, 36, Ty::Int),
                    args: vec![],
                    sig: Some(TyExpr::Ref { span: sp(38, 39), name: nm("T") }),
                    expr: lit(42, 43, Ty::Int),
                }],
                body: Box::new(lit(44, 46, Ty::Unit)),
            },
        ),
    );
    assert_eq!(suggest_names(&tree, 39), vec![nm("Test")]);
}

#[test]
fn suggest_from_forall_params() {
    // "\nlet f x _ : forall abc b . a -> b -> abc = x\n()\n"
    let sig = TyExpr::Forall {
        span: sp(13, 41),
        vars: vec![ident("abc", 3, 20, 23, Ty::Hole), ident("b", 4, 24, 25, Ty::Hole)],
        body: Box::new(TyExpr::Func {
            span: sp(28, 41),
            arg: Box::new(TyExpr::Ref { span: sp(28, 29), name: nm("a") }),
            ret: Box::new(TyExpr::Func {
                span: sp(33, 41),
                arg: Box::new(TyExpr::Ref { span: sp(33, 34), name: nm("b") }),
                ret: Box::new(TyExpr::Ref { span: sp(38, 41), name: nm("abc") }),
            }),
        }),
    };
    let tree = let_in(
        1,
        48,
        vec![Binding {
            span: sp(5, 45),
            name: pvar("f", 1, 5, 6, Ty::Hole),
            args: vec![ident("x", 2, 7, 8, Ty::Hole), ident("_", 5, 9, 10, Ty::Hole)],
            sig: Some(sig),
            expr: var("x", 2, 44, 45, Ty::Hole),
        }],
        lit(46, 48, Ty::Unit),
    );
    assert_eq!(suggest_names(&tree, 29), vec![nm("abc")]);
}

#[test]
fn suggest_implicit_import() {
    // "\ntype Test = | Abc Int\nmatch Abc 1 with\n| //\n"
    let data = Ty::Named(nm("Test"), vec![]);
    let abc_ty = func(Ty::Int, ct(&data));
    let tree = tdecl(
        1,
        44,
        ident("Test", 1, 6, 10, Ty::Hole),
        vec![],
        None,
        variants(vec![("Abc", ct(&abc_ty))]),
        vec![ident("Abc", 2, 15, 18, ct(&abc_ty))],
        Expr::Match {
            span: sp(23, 44),
            scrutinee: Box::new(app(
                29,
                34,
                ct(&data),
                var("Abc", 2, 29, 32, ct(&abc_ty)),
                vec![lit(33, 34, Ty::Int)],
            )),
            alts: vec![completion::ast::Alt {
                span: sp(40, 44),
                pat: Pat::Ctor { span: sp(42, 42), name: ident("", 9, 42, 42, Ty::Hole), args: vec![] },
                expr: Expr::Error { span: sp(43, 44) },
            }],
        },
    );
    assert_eq!(suggest_names(&tree, 42), vec![nm("Abc")]);
}

#[test]
fn suggest_implicit_import_from_pattern() {
    // "\nlet { Test } =\n    type Test = | Abc Int\n    { Test }\nmatch Abc 1 with\n| //\n"
    // The declaration lives inside the binding's right-hand side, so at the
    // alternative head only the scrutinee's checked shape knows `Abc`.
    let abc_ty = func(Ty::Int, Ty::Named(nm("Test"), vec![]));
    let scrut_shape = variants(vec![("Abc", ct(&abc_ty))]);
    let ctor_field_ty = ct(&abc_ty);
    let inner_rec_ty = rec_ty(vec![("Test", ct(&abc_ty))]);
    let tree = let_in(
        1,
        76,
        vec![bind(
            5,
            54,
            prec(5, 13, ct(&inner_rec_ty), None, vec![pfield(ident("Test", 1, 7, 11, ct(&ctor_field_ty)))]),
            vec![],
            tdecl(
                20,
                54,
                ident("Test", 2, 25, 29, Ty::Hole),
                vec![],
                None,
                ct(&scrut_shape),
                vec![ident("Abc", 3, 34, 37, ct(&abc_ty))],
                record(
                    46,
                    54,
                    ct(&inner_rec_ty),
                    vec![RecField { name: ident("Test", 2, 48, 52, ct(&abc_ty)), value: None }],
                ),
            ),
        )],
        Expr::Match {
            span: sp(55, 76),
            scrutinee: Box::new(app(
                61,
                66,
                ct(&scrut_shape),
                var("Abc", 3, 61, 64, ct(&abc_ty)),
                vec![lit(65, 66, Ty::Int)],
            )),
            alts: vec![completion::ast::Alt {
                span: sp(72, 76),
                pat: Pat::Ctor { span: sp(74, 74), name: ident("", 9, 74, 74, Ty::Hole), args: vec![] },
                expr: Expr::Error { span: sp(75, 76) },
            }],
        },
    );
    assert_eq!(suggest_names(&tree, 74), vec![nm("Abc")]);
}
