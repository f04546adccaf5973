// Scenario checks for the library's stated behaviours: boundary
// inclusion, shadow correctness, prefix filtering and sorting, alias
// resolution, pattern-field exclusion, error tolerance, import listing,
// and idempotence of every query.

use completion::ast::{Binding, Expr, Ident, Pat, PatField, RecField, Span, Symbol, Ty, TyField,
    TypeBind};
use completion::candidates::{Payload, Suggestion};
use completion::imports::FsDir;
use completion::locate::find;
use completion::suggest::suggest;
use completion::metadata::{metadata_for, Attr, MetaEntry, MetaMap, Metadata};
use completion::symbols::find_all_symbols;
use completion::types::TypeEnv;

fn sp(a: usize, b: usize) -> Span {
    Span { start: a, end: b }
}

fn nm(s: &str) -> Vec<u8> {
    s.as_bytes().to_vec()
}

fn ident(s: &str, id: u64, a: usize, b: usize, ty: Ty) -> Ident {
    Ident { span: sp(a, b), sym: Symbol { name: nm(s), id }, ty }
}

fn var(s: &str, id: u64, a: usize, b: usize, ty: Ty) -> Expr {
    Expr::Var { ident: ident(s, id, a, b, ty) }
}

fn lit(a: usize, b: usize, ty: Ty) -> Expr {
    Expr::Lit { span: sp(a, b), ty }
}

fn pvar(s: &str, id: u64, a: usize, b: usize, ty: Ty) -> Pat {
    Pat::Var { ident: ident(s, id, a, b, ty) }
}

fn bind(a: usize, b: usize, pat: Pat, args: Vec<Ident>, expr: Expr) -> Binding {
    Binding { span: sp(a, b), name: pat, args, sig: None, expr }
}

fn let_in(a: usize, b: usize, bindings: Vec<Binding>, body: Expr) -> Expr {
    Expr::Let { span: sp(a, b), bindings, body: Box::new(body) }
}

fn app(a: usize, b: usize, ty: Ty, f: Expr, args: Vec<Expr>) -> Expr {
    Expr::App { span: sp(a, b), ty, func: Box::new(f), args }
}

fn func(a: Ty, r: Ty) -> Ty {
    Ty::Func(Box::new(a), Box::new(r))
}

fn ct(t: &Ty) -> Ty {
    completion::ast::clone_ty(t)
}

fn rec_ty(fields: Vec<(&str, Ty)>) -> Ty {
    Ty::Record(fields.into_iter().map(|(n, t)| TyField { name: nm(n), ty: t }).collect())
}

fn env0() -> TypeEnv {
    TypeEnv { aliases: vec![] }
}

fn roots0() -> Vec<FsDir> {
    vec![]
}

fn names(r: &[Suggestion]) -> Vec<Vec<u8>> {
    r.iter().map(|s| s.name.clone()).collect()
}

#[test]
fn boundary_inclusion() {
    // "let abc = 1 in abc": the identifier occupies [15, 18); a hover at
    // every position in [15, 18] answers identically, the right edge
    // included.
    let tree = let_in(
        0,
        18,
        vec![bind(4, 11, pvar("abc", 1, 4, 7, Ty::Int), vec![], lit(10, 11, Ty::Int))],
        var("abc", 1, 15, 18, Ty::Int),
    );
    let first = find(&tree, 15);
    assert_eq!(first, Some((sp(15, 18), Ty::Int)));
    let mut p: usize = 15;
    while p <= 18 {
        assert_eq!(find(&tree, p), first);
        p += 1;
    }
}

#[test]
fn shadow_correctness() {
    // An inner binding of the same spelling: symbol search inside the
    // inner scope returns only the inner binding's occurrences.
    // "let x = 1 in let x = 2 in x"
    let inner = let_in(
        13,
        27,
        vec![bind(17, 22, pvar("x", 2, 17, 18, Ty::Int), vec![], lit(21, 22, Ty::Int))],
        var("x", 2, 26, 27, Ty::Int),
    );
    let tree = let_in(
        0,
        27,
        vec![bind(4, 9, pvar("x", 1, 4, 5, Ty::Int), vec![], lit(8, 9, Ty::Int))],
        inner,
    );
    let hit = find_all_symbols(&tree, 26).expect("on an identifier");
    assert_eq!(hit.name, nm("x"));
    assert_eq!(hit.spans, vec![sp(17, 18), sp(26, 27)]);
    let outer_hit = find_all_symbols(&tree, 4).expect("on an identifier");
    assert_eq!(outer_hit.spans, vec![sp(4, 5)]);
}

#[test]
fn prefix_filter_and_sort() {
    // Bindings `tes = ""` and `test = 1` visible at a position typed up to
    // "te": suggestion returns exactly ["tes", "test"] in that order.
    // "let tes = \"\" in let test = 1 in te"
    let inner = let_in(
        16,
        34,
        vec![bind(20, 28, pvar("test", 2, 20, 24, Ty::Int), vec![], lit(27, 28, Ty::Int))],
        var("te", 9, 32, 34, Ty::Hole),
    );
    let tree = let_in(
        0,
        34,
        vec![bind(4, 12, pvar("tes", 1, 4, 7, Ty::Str), vec![], lit(10, 12, Ty::Str))],
        inner,
    );
    let r = suggest(&env0(), &roots0(), &tree, 34).expect("in tree");
    assert_eq!(names(&r), vec![nm("tes"), nm("test")]);
    match &r[0].payload {
        Payload::Value(t) => assert_eq!(*t, Ty::Str),
        _ => panic!("a binding candidate carries its concrete type"),
    }
}

#[test]
fn field_completion_through_alias() {
    // `type Test a = { abc: a -> Int }`, `type Test2 = Test String`, a
    // value typed `Test2`: completing `record.ab` yields ["abc"], with the
    // field's substituted type.
    let test_body = rec_ty(vec![("abc", func(Ty::Var(nm("a")), Ty::Int))]);
    let tree = Expr::TypeDecl {
        span: sp(0, 70),
        decl: TypeBind {
            span: sp(0, 31),
            name: ident("Test", 1, 5, 9, Ty::Hole),
            params: vec![ident("a", 2, 10, 11, Ty::Hole)],
            rhs: None,
            body: test_body,
            ctors: vec![],
        },
        body: Box::new(Expr::TypeDecl {
            span: sp(32, 70),
            decl: TypeBind {
                span: sp(32, 56),
                name: ident("Test2", 3, 37, 42, Ty::Hole),
                params: vec![],
                rhs: None,
                body: Ty::Named(nm("Test"), vec![Ty::Str]),
                ctors: vec![],
            },
            body: Box::new(let_in(
                57,
                70,
                vec![bind(
                    61,
                    65,
                    pvar("record", 4, 61, 62, Ty::Named(nm("Test2"), vec![])),
                    vec![],
                    Expr::Error { span: sp(64, 65) },
                )],
                Expr::FieldAccess {
                    span: sp(66, 70),
                    recv: Box::new(var("record", 4, 66, 67, Ty::Named(nm("Test2"), vec![]))),
                    field: ident("ab", 9, 68, 70, Ty::Hole),
                },
            )),
        }),
    };
    let r = suggest(&env0(), &roots0(), &tree, 70).expect("in tree");
    assert_eq!(names(&r), vec![nm("abc")]);
    match &r[0].payload {
        Payload::Value(t) => assert_eq!(*t, func(Ty::Str, Ty::Int)),
        _ => panic!("a field candidate carries its concrete type"),
    }
}

#[test]
fn pattern_field_exclusion() {
    // `let { abc, a, Test } = { Test, x = 1, abc = "", abcd = 2 }`:
    // completing at the `a` slot yields ["abcd"] only — fields and
    // constructor-style entries already consumed are excluded.
    let ctor_ty = func(Ty::Int, Ty::Named(nm("T"), vec![]));
    let r_ty = rec_ty(vec![
        ("Test", ct(&ctor_ty)),
        ("x", Ty::Int),
        ("abc", Ty::Str),
        ("abcd", Ty::Int),
    ]);
    // "let { abc, a, Test } = { Test, x = 1, abc = \"\", abcd = 2 }\n()"
    let tree = let_in(
        0,
        61,
        vec![bind(
            4,
            58,
            Pat::Record {
                span: sp(4, 20),
                ty: ct(&r_ty),
                alias: None,
                fields: vec![
                    PatField { name: ident("abc", 1, 6, 9, Ty::Str), bind: None },
                    PatField { name: ident("a", 2, 11, 12, Ty::Hole), bind: None },
                    PatField { name: ident("Test", 3, 14, 18, ct(&ctor_ty)), bind: None },
                ],
            },
            vec![],
            Expr::Record {
                span: sp(23, 58),
                ty: ct(&r_ty),
                fields: vec![
                    RecField { name: ident("Test", 4, 25, 29, ct(&ctor_ty)), value: None },
                    RecField {
                        name: ident("x", 5, 31, 32, Ty::Int),
                        value: Some(lit(35, 36, Ty::Int)),
                    },
                    RecField {
                        name: ident("abc", 6, 38, 41, Ty::Str),
                        value: Some(lit(44, 46, Ty::Str)),
                    },
                    RecField {
                        name: ident("abcd", 7, 48, 52, Ty::Int),
                        value: Some(lit(55, 56, Ty::Int)),
                    },
                ],
            },
        )],
        lit(59, 61, Ty::Unit),
    );
    let r = suggest(&env0(), &roots0(), &tree, 12).expect("in tree");
    assert_eq!(names(&r), vec![nm("abcd")]);
}

#[test]
fn error_tolerance() {
    // Replacing a binding's right-hand side by a type-incorrect
    // placeholder of the same extent does not change the suggestions at an
    // unaffected position.
    // "let record = { aa = 1 } in let bad = ... in record.a"
    let r_ty = rec_ty(vec![("aa", Ty::Int), ("ab", Ty::Int)]);
    let good_rhs = lit(31, 34, Ty::Int);
    let bad_rhs = Expr::Error { span: sp(31, 34) };
    let mk = |rhs: Expr| {
        let_in(
            0,
            52,
            vec![bind(
                4,
                23,
                pvar("record", 1, 4, 10, ct(&r_ty)),
                vec![],
                Expr::Record { span: sp(13, 23), ty: ct(&r_ty), fields: vec![] },
            )],
            let_in(
                24,
                52,
                vec![bind(28, 34, pvar("bad", 2, 28, 31, Ty::Hole), vec![], rhs)],
                Expr::FieldAccess {
                    span: sp(44, 52),
                    recv: Box::new(var("record", 1, 44, 50, ct(&r_ty))),
                    field: ident("a", 9, 51, 52, Ty::Hole),
                },
            ),
        )
    };
    let with_good = suggest(&env0(), &roots0(), &mk(good_rhs), 52).expect("in tree");
    let with_bad = suggest(&env0(), &roots0(), &mk(bad_rhs), 52).expect("in tree");
    assert_eq!(with_good, with_bad);
    assert_eq!(names(&with_good), vec![nm("aa"), nm("ab")]);
}

#[test]
fn import_listing() {
    // Root holding std/parser and std/prelude: "std.p" yields
    // ["parser", "prelude"]; a trailing dot lists all children.
    let roots = vec![FsDir {
        name: nm("src"),
        dirs: vec![FsDir {
            name: nm("std"),
            dirs: vec![],
            files: vec![nm("parser"), nm("prelude")],
        }],
        files: vec![],
    }];
    let typed = completion::imports::resolve_import(&roots, &nm("std.p"));
    assert_eq!(names(&typed), vec![nm("parser"), nm("prelude")]);
    let dotted = completion::imports::resolve_import(&roots, &nm("std."));
    assert_eq!(names(&dotted), vec![nm("parser"), nm("prelude")]);
}

#[test]
fn idempotence() {
    // Running any query twice against the same immutable inputs yields
    // identical results.
    let tree = let_in(
        0,
        18,
        vec![bind(4, 11, pvar("abc", 1, 4, 7, Ty::Int), vec![], lit(10, 11, Ty::Int))],
        var("ab", 9, 15, 17, Ty::Hole),
    );
    assert_eq!(find(&tree, 16), find(&tree, 16));
    assert_eq!(
        suggest(&env0(), &roots0(), &tree, 16),
        suggest(&env0(), &roots0(), &tree, 16)
    );
    assert_eq!(find_all_symbols(&tree, 5), find_all_symbols(&tree, 5));
    let map = completion::metadata::MetaMap { entries: vec![] };
    assert_eq!(
        completion::metadata::metadata_for(&map, &tree, 5),
        completion::metadata::metadata_for(&map, &tree, 5)
    );
}

#[test]
fn shadowed_binding_wins_suggestion() {
    // Two bindings of one spelling: the suggestion carries the inner
    // binding's type, deduplicated to one candidate.
    let inner = let_in(
        13,
        27,
        vec![bind(17, 23, pvar("x", 2, 17, 18, Ty::Str), vec![], lit(21, 23, Ty::Str))],
        var("x", 2, 26, 27, Ty::Str),
    );
    let tree = let_in(
        0,
        27,
        vec![bind(4, 9, pvar("x", 1, 4, 5, Ty::Int), vec![], lit(8, 9, Ty::Int))],
        inner,
    );
    let r = suggest(&env0(), &roots0(), &tree, 27).expect("in tree");
    assert_eq!(r.len(), 1);
    assert_eq!(r[0].name, nm("x"));
    match &r[0].payload {
        Payload::Value(t) => assert_eq!(*t, Ty::Str),
        _ => panic!("a binding candidate carries its concrete type"),
    }
}

#[test]
fn not_found_outcomes() {
    // A position outside every node is an explicit not-found outcome for
    // every position query, never a panic; an empty pool is an empty list.
    let tree = lit(5, 8, Ty::Int);
    assert_eq!(find(&tree, 2), None);
    assert!(suggest(&env0(), &roots0(), &tree, 2).is_none());
    assert!(find_all_symbols(&tree, 2).is_none());
    // Inside the literal there is no binding in scope: an empty list.
    let r = suggest(&env0(), &roots0(), &tree, 6).expect("in tree");
    assert!(r.is_empty());
}

#[test]
fn field_access_fallback_on_unresolved_receiver() {
    // When the receiver's type is still unresolved, completing after the
    // dot suggests the receiver's own name rather than fabricated fields.
    // "let record = x in record.a" with `x` unresolved.
    let tree = let_in(
        0,
        26,
        vec![bind(
            4,
            14,
            pvar("record", 1, 4, 10, Ty::Hole),
            vec![],
            var("x", 9, 13, 14, Ty::Hole),
        )],
        Expr::FieldAccess {
            span: sp(18, 26),
            recv: Box::new(var("record", 1, 18, 24, Ty::Hole)),
            field: ident("a", 8, 25, 26, Ty::Hole),
        },
    );
    // An empty prefix at the field slot: the fallback candidate is the
    // receiver itself.
    let tree2 = let_in(
        0,
        25,
        vec![bind(
            4,
            14,
            pvar("record", 1, 4, 10, Ty::Hole),
            vec![],
            var("x", 9, 13, 14, Ty::Hole),
        )],
        Expr::FieldAccess {
            span: sp(18, 25),
            recv: Box::new(var("record", 1, 18, 24, Ty::Hole)),
            field: ident("", 8, 25, 25, Ty::Hole),
        },
    );
    let r = suggest(&env0(), &roots0(), &tree2, 25).expect("in tree");
    assert_eq!(names(&r), vec![nm("record")]);
    // With a typed prefix that the receiver's name does not start with,
    // the fallback filters away.
    let r2 = suggest(&env0(), &roots0(), &tree, 26).expect("in tree");
    assert_eq!(names(&r2), Vec::<Vec<u8>>::new());
}

#[test]
fn metadata_attributes_carry_over() {
    // A metadata record keeps its key/value attributes alongside the doc
    // text.
    let tree = let_in(
        0,
        18,
        vec![bind(4, 11, pvar("abc", 1, 4, 7, Ty::Int), vec![], lit(10, 11, Ty::Int))],
        var("abc", 1, 15, 18, Ty::Int),
    );
    let map = MetaMap {
        entries: vec![MetaEntry {
            id: 1,
            meta: Metadata {
                comment: Some(nm("a counter")),
                attrs: vec![Attr { key: nm("since"), val: nm("0.1") }],
            },
        }],
    };
    let m = metadata_for(&map, &tree, 16).expect("documented");
    assert_eq!(m.comment, Some(nm("a counter")));
    assert_eq!(m.attrs.len(), 1);
    assert_eq!(m.attrs[0].key, nm("since"));
    assert_eq!(m.attrs[0].val, nm("0.1"));
}
