//! Reading modules into models: which methods are handlers, which types are
//! actors, which traits are actor traits.
use kay_codegen::syntax::{
    FnArgSyntax, PatSyntax, PathSegmentSyntax, PathSyntax, SignatureSyntax, TypeSyntax,
};
use kay_codegen::{check_handler, parse, HandlerType, Model};

fn actor_names(model: &Model) -> Vec<String> {
    model.actors.keys().cloned().collect()
}

fn trait_names(model: &Model) -> Vec<String> {
    model.traits.keys().cloned().collect()
}

fn path(ident: &str) -> PathSyntax {
    PathSyntax {
        leading_colon: false,
        segments: vec![PathSegmentSyntax { ident: ident.to_owned(), arguments: String::new() }],
    }
}

fn world_arg() -> FnArgSyntax {
    FnArgSyntax::Captured {
        pat: PatSyntax::Ident("world".to_owned()),
        ty: TypeSyntax::Reference {
            mutable: true,
            elem: Box::new(TypeSyntax::Path { path: path("World"), tokens: "World".to_owned() }),
            tokens: "& mut World".to_owned(),
        },
    }
}

fn usize_arg(name: &str) -> FnArgSyntax {
    FnArgSyntax::Captured {
        pat: PatSyntax::Ident(name.to_owned()),
        ty: TypeSyntax::Path { path: path("usize"), tokens: "usize".to_owned() },
    }
}

#[test]
fn handlers_of_an_actor_in_order() {
    let model = parse(
        "pub struct A { id: AID }
         impl A {
             pub fn first(&mut self, x: usize, world: &mut World) {}
             fn private(&mut self, world: &mut World) {}
             pub fn no_world(&mut self, x: usize) {}
             pub fn second(&mut self, world: &mut World) -> Fate { Fate::Live }
             pub fn spawn(id: AID, x: usize, world: &mut World) -> A { A { id } }
             pub fn not_a_handler(&mut self, world: &mut World) -> usize { 1 }
         }",
    )
    .unwrap();
    assert_eq!(actor_names(&model), vec!["A".to_owned()]);
    let actor = &model.actors["A"];
    assert!(actor.defined_here);
    let names: Vec<&str> = actor.handlers.iter().map(|h| h.name.as_str()).collect();
    assert_eq!(names, vec!["first", "second", "spawn"]);
    assert_eq!(actor.handlers[0].scope, HandlerType::Handler);
    assert!(!actor.handlers[0].returns_fate);
    assert_eq!(actor.handlers[0].arguments.len(), 2);
    assert!(actor.handlers[1].returns_fate);
    assert_eq!(actor.handlers[2].scope, HandlerType::Init);
    assert!(!actor.handlers[2].returns_fate);
    assert!(actor.handlers.iter().all(|h| h.from_trait.is_none() && !h.critical));
}

#[test]
fn structs_without_handlers_are_no_actors() {
    let model = parse(
        "pub struct Plain { x: usize }
         impl Plain { pub fn get(&self) -> usize { self.x } }
         trait Empty { fn nothing(&self); }",
    )
    .unwrap();
    assert!(model.actors.is_empty());
    assert!(model.traits.is_empty());
}

#[test]
fn impl_blocks_of_one_actor_are_merged() {
    let model = parse(
        "impl B { pub fn one(&mut self, world: &mut World) {} }
         pub struct A;
         impl A { pub fn a(&mut self, world: &mut World) {} }
         impl B { pub fn two(&mut self, world: &mut World) {} }",
    )
    .unwrap();
    assert_eq!(actor_names(&model), vec!["B".to_owned(), "A".to_owned()]);
    let b = &model.actors["B"];
    assert!(!b.defined_here);
    let names: Vec<&str> = b.handlers.iter().map(|h| h.name.as_str()).collect();
    assert_eq!(names, vec!["one", "two"]);
    assert!(model.actors["A"].defined_here);
}

#[test]
fn std_trait_impls_are_no_actor_traits() {
    let model = parse(
        "pub struct A;
         impl Clone for A { fn clone(&self) -> A { A } }
         impl Default for A { fn default() -> A { A } }
         impl Greeter for A { fn greet(&mut self, world: &mut World) {} }",
    )
    .unwrap();
    let a = &model.actors["A"];
    assert_eq!(a.impls.len(), 1);
    assert_eq!(a.impls[0].segments[0].ident, "Greeter");
    assert_eq!(a.handlers.len(), 1);
    assert_eq!(a.handlers[0].name, "greet");
    assert_eq!(a.handlers[0].from_trait.as_ref().unwrap().segments[0].ident, "Greeter");
}

#[test]
fn only_std_trait_impls_make_no_actor() {
    let model = parse("pub struct A; impl Clone for A { fn clone(&self) -> A { A } }").unwrap();
    assert!(model.actors.is_empty());
}

#[test]
fn actor_traits_and_their_generics() {
    let model = parse(
        "trait T<X: Compact> {
             fn send(&mut self, x: X, world: &mut World);
             fn helper(&self) -> usize;
         }
         trait Plain { fn size(&self) -> usize; }",
    )
    .unwrap();
    assert_eq!(trait_names(&model), vec!["T".to_owned()]);
    let t = &model.traits["T"];
    assert_eq!(t.handlers.len(), 1);
    assert_eq!(t.handlers[0].name, "send");
    assert_eq!(t.generics.impl_generics, "< X : Compact >");
    assert_eq!(t.generics.type_generics, "< X >");
}

#[test]
fn critical_doc_comment_is_read_as_the_code_reads_it() {
    // The attribute's path prints as a whole `Path` with `{:?}`, never as
    // `doc`, so no handler is critical.
    let model = parse(
        "impl A {
             /// Critical
             pub fn urgent(&mut self, world: &mut World) {}
         }",
    )
    .unwrap();
    assert!(!model.actors["A"].handlers[0].critical);
}

#[test]
fn syntax_error_is_reported() {
    assert!(parse("pub struct {").is_err());
}

#[test]
fn empty_module_gives_empty_model() {
    let model = parse("").unwrap();
    assert!(model.actors.is_empty() && model.traits.is_empty());
}

#[test]
fn check_handler_finds_a_handler() {
    let sig = SignatureSyntax {
        ident: "h".to_owned(),
        inputs: vec![FnArgSyntax::SelfRef, usize_arg("x"), world_arg()],
        output: None,
    };
    let (args, scope) = check_handler(&sig, &path("A")).unwrap();
    assert_eq!(scope, HandlerType::Handler);
    assert_eq!(args.len(), 2);
}

#[test]
fn check_handler_finds_an_init_handler() {
    let sig = SignatureSyntax {
        ident: "spawn".to_owned(),
        inputs: vec![usize_arg("id"), usize_arg("x"), world_arg()],
        output: Some(TypeSyntax::Path { path: path("A"), tokens: "A".to_owned() }),
    };
    let (args, scope) = check_handler(&sig, &path("A")).unwrap();
    assert_eq!(scope, HandlerType::Init);
    assert_eq!(args.len(), 2);
    let other = SignatureSyntax {
        ident: "spawn".to_owned(),
        inputs: vec![usize_arg("id"), world_arg()],
        output: Some(TypeSyntax::Path { path: path("B"), tokens: "B".to_owned() }),
    };
    assert!(check_handler(&other, &path("A")).is_none());
}

#[test]
fn check_handler_needs_the_world_last() {
    let sig = SignatureSyntax {
        ident: "h".to_owned(),
        inputs: vec![FnArgSyntax::SelfRef, world_arg(), usize_arg("x")],
        output: None,
    };
    assert!(check_handler(&sig, &path("A")).is_none());
    let by_value = SignatureSyntax {
        ident: "h".to_owned(),
        inputs: vec![FnArgSyntax::SelfValue, world_arg()],
        output: None,
    };
    assert!(check_handler(&by_value, &path("A")).is_none());
}
