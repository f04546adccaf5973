// Import-path completion against a caller-supplied directory tree.
// Offsets in each test index the source text quoted above the tree.

use completion::ast::{Expr, Span, Ty};
use completion::candidates::Suggestion;
use completion::imports::{resolve_import, FsDir};
use completion::suggest::suggest;
use completion::types::TypeEnv;

fn sp(a: usize, b: usize) -> Span {
    Span { start: a, end: b }
}

fn nm(s: &str) -> Vec<u8> {
    s.as_bytes().to_vec()
}

fn env0() -> TypeEnv {
    TypeEnv { aliases: vec![] }
}

// A root holding std/parser and std/prelude as module files.
fn roots() -> Vec<FsDir> {
    vec![FsDir {
        name: nm("src"),
        dirs: vec![FsDir {
            name: nm("std"),
            dirs: vec![],
            files: vec![nm("parser"), nm("prelude")],
        }],
        files: vec![],
    }]
}

fn import(a: usize, b: usize, pa: usize, pb: usize, path: &str) -> Expr {
    Expr::Import { span: sp(a, b), path_span: sp(pa, pb), path: nm(path) }
}

fn names(r: &[Suggestion]) -> Vec<Vec<u8>> {
    r.iter().map(|s| s.name.clone()).collect()
}

#[test]
fn suggest_module_import() {
    // "\nimport! st\n"
    let tree = import(1, 11, 9, 11, "st");
    let r = suggest(&env0(), &roots(), &tree, 10).expect("in tree");
    assert_eq!(names(&r), vec![nm("std")]);
}

#[test]
fn suggest_module_import_nested() {
    // "\nimport! std.p\n"
    let tree = import(1, 14, 9, 14, "std.p");
    let r = suggest(&env0(), &roots(), &tree, 12).expect("in tree");
    assert_eq!(names(&r), vec![nm("parser"), nm("prelude")]);
}

#[test]
fn suggest_module_import_on_dot() {
    // "\nimport! std.\n" — a trailing dot lists all children unfiltered.
    let tree = import(1, 13, 9, 13, "std.");
    let r = suggest(&env0(), &roots(), &tree, 12).expect("in tree");
    assert_eq!(names(&r), vec![nm("parser"), nm("prelude")]);
}

#[test]
fn suggest_module_import_typed() {
    // "\nimport! std.prelud\n"
    let tree = import(1, 19, 9, 19, "std.prelud");
    let r = suggest(&env0(), &roots(), &tree, 12).expect("in tree");
    assert_eq!(names(&r), vec![nm("prelude")]);
    // A position past the end of the source is not in the tree.
    assert!(suggest(&env0(), &roots(), &tree, 9999).is_none());
}

#[test]
fn import_invalid_segment_is_empty() {
    // A prefix segment matching no directory yields an empty list, not an
    // error.
    let r = resolve_import(&roots(), &nm("nosuch.p"));
    assert!(r.is_empty());
    let deep = resolve_import(&roots(), &nm("std.parser.x"));
    assert!(deep.is_empty());
}

#[test]
fn import_children_are_dirs_and_file_stems() {
    // Child directories and module file stems both complete, sorted.
    let mixed = vec![FsDir {
        name: nm("root"),
        dirs: vec![FsDir {
            name: nm("std"),
            dirs: vec![FsDir { name: nm("io"), dirs: vec![], files: vec![] }],
            files: vec![nm("prelude"), nm("array")],
        }],
        files: vec![],
    }];
    let r = resolve_import(&mixed, &nm("std."));
    assert_eq!(names(&r), vec![nm("array"), nm("io"), nm("prelude")]);
}
