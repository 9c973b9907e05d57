//! What happens to one module of a source tree.
use kay_codegen::modules::{auto_path, generate_for_module, module_pattern, needs_regeneration, ModuleOutput};

#[test]
fn generated_file_lies_beside_the_module() {
    assert_eq!(auto_path("src/game/mod.rs"), "src/game/kay_auto.rs");
    assert_eq!(auto_path("src/lib.rs"), "src/lib.rs");
}

#[test]
fn pattern_finds_module_files_under_the_prefix() {
    assert_eq!(module_pattern("src"), "src/**/mod.rs");
}

#[test]
fn regeneration_is_due_when_the_module_is_newer() {
    assert!(needs_regeneration(5, None));
    assert!(needs_regeneration(5, Some(4)));
    assert!(!needs_regeneration(5, Some(5)));
    assert!(!needs_regeneration(5, Some(6)));
}

#[test]
fn module_without_actors_gives_nothing() {
    assert!(matches!(generate_for_module("pub struct A;"), ModuleOutput::Nothing));
}

#[test]
fn module_with_an_actor_gives_code() {
    match generate_for_module("impl A { pub fn h(&mut self, world: &mut World) {} }") {
        ModuleOutput::Code(code) => assert!(code.contains("pub fn auto_setup(system: &mut ActorSystem)")),
        other => panic!("unexpected: {:?}", other),
    }
}

#[test]
fn unreadable_module_is_reported() {
    assert!(matches!(generate_for_module("fn ("), ModuleOutput::Unreadable(_)));
}

#[test]
fn impl_for_a_type_without_path_is_unsupported() {
    assert!(matches!(
        generate_for_module("impl T for (A, B) { fn f(&self) {} }"),
        ModuleOutput::UnsupportedImpl
    ));
    assert!(matches!(
        generate_for_module("impl<'a> Trait for &'a A { fn f(&self) {} }"),
        ModuleOutput::UnsupportedImpl
    ));
}

#[test]
fn handler_with_a_pattern_argument_is_unsupported() {
    assert!(matches!(
        generate_for_module("impl A { pub fn h(&mut self, (a, b): (usize, usize), world: &mut World) {} }"),
        ModuleOutput::Unsupported
    ));
}

/// One scan over an in-memory file system, making the decisions the
/// library makes; each write gets the time `now`.
fn scan_files(fs: &mut std::collections::BTreeMap<String, (String, u128)>, paths: &[&str], now: u128) {
    for p in paths {
        let a = auto_path(p);
        let generated = fs.get(&a).map(|f| f.1);
        let (text, modified) = match fs.get(*p) {
            Some(f) => f.clone(),
            None => continue,
        };
        if needs_regeneration(modified, generated) {
            if let ModuleOutput::Code(code) = generate_for_module(&text) {
                fs.insert(a, (code, now));
            }
        }
    }
}

#[test]
fn scan_writes_only_generated_files_and_a_second_scan_writes_nothing() {
    let mut fs = std::collections::BTreeMap::new();
    fs.insert("a/mod.rs".to_owned(), ("impl A { pub fn h(&mut self, world: &mut World) {} }".to_owned(), 3));
    fs.insert("b/mod.rs".to_owned(), ("pub struct B;".to_owned(), 4));
    fs.insert("b/kay_auto.rs".to_owned(), ("old".to_owned(), 1));
    fs.insert("c/mod.rs".to_owned(), ("impl C { pub fn h(&mut self, world: &mut World) {} }".to_owned(), 2));
    fs.insert("c/kay_auto.rs".to_owned(), ("kept".to_owned(), 5));
    fs.insert("other.rs".to_owned(), ("x".to_owned(), 1));
    let before = fs.clone();
    let paths = ["a/mod.rs", "b/mod.rs", "c/mod.rs"];
    scan_files(&mut fs, &paths, 10);
    for (k, v) in &before {
        if k != "a/kay_auto.rs" {
            assert_eq!(fs.get(k), Some(v));
        }
    }
    assert_eq!(fs.len(), before.len() + 1);
    assert_eq!(fs["a/kay_auto.rs"].1, 10);
    let after_first = fs.clone();
    scan_files(&mut fs, &paths, 20);
    assert_eq!(fs, after_first);
}
