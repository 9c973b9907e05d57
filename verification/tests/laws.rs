//! The properties that hold for every input, on concrete values.
use kay_codegen::model::Handler;
use kay_codegen::text::fill_template;
use kay_codegen::{ind, normalize_empty_lines, parse, HandlerType};

#[test]
fn every_actor_and_trait_of_a_model_is_active() {
    let model = parse(
        "pub struct Idle;
         pub struct Busy;
         impl Busy { pub fn work(&mut self, world: &mut World) {} }
         trait Quiet { fn size(&self) -> usize; }
         trait Loud { fn shout(&mut self, world: &mut World); }",
    )
    .unwrap();
    assert_eq!(model.actors.len(), 1);
    assert!(model.actors.values().all(|a| !a.handlers.is_empty() || !a.impls.is_empty()));
    assert_eq!(model.traits.len(), 1);
    assert!(model.traits.values().all(|t| !t.handlers.is_empty()));
}

#[test]
fn names_in_a_model_are_distinct() {
    let model = parse(
        "impl A { pub fn one(&mut self, world: &mut World) {} }
         pub struct A;
         impl A { pub fn two(&mut self, world: &mut World) {} }
         trait T { fn t(&mut self, world: &mut World); }",
    )
    .unwrap();
    let names: Vec<&String> = model.actors.keys().collect();
    assert_eq!(names, vec!["A"]);
    assert_eq!(model.actors["A"].handlers.len(), 2);
}

#[test]
fn no_std_trait_is_an_actor_trait() {
    let model = parse(
        "pub struct A;
         impl Deref for A { type Target = B; fn deref(&self) -> &B { &self.b } }
         impl From<B> for A { fn from(b: B) -> A { A } }
         impl Runner for A { fn run(&mut self, world: &mut World) {} }",
    )
    .unwrap();
    let impls: Vec<&str> = model.actors["A"].impls.iter().map(|p| p.segments[0].ident.as_str()).collect();
    assert_eq!(impls, vec!["Runner"]);
}

#[test]
fn defined_here_means_a_struct_in_the_module() {
    let model = parse(
        "pub struct Here;
         impl Here { pub fn h(&mut self, world: &mut World) {} }
         impl Elsewhere { pub fn e(&mut self, world: &mut World) {} }",
    )
    .unwrap();
    assert!(model.actors["Here"].defined_here);
    assert!(!model.actors["Elsewhere"].defined_here);
}

#[test]
fn traits_of_a_model_are_declared_in_the_module() {
    let model = parse(
        "trait Local { fn l(&mut self, world: &mut World); }
         impl Foreign for A { fn f(&mut self, world: &mut World) {} }",
    )
    .unwrap();
    let names: Vec<&String> = model.traits.keys().collect();
    assert_eq!(names, vec!["Local"]);
}

#[test]
fn ind_indents_every_line_but_the_first() {
    assert_eq!(ind("first\nsecond\nthird", 2), "first\n        second\n        third");
}

#[test]
fn handler_without_arguments_uses_no_generics() {
    let h = Handler {
        name: "h".to_owned(),
        arguments: Vec::new(),
        scope: HandlerType::Handler,
        critical: false,
        returns_fate: true,
        from_trait: None,
    };
    assert_eq!(h.used_generics("<A>".to_owned(), "<A: Compact>".to_owned(), true), "");
    assert_eq!(h.used_generics("<A>".to_owned(), "<A: Compact>".to_owned(), false), "");
}

#[test]
fn template_without_braces_is_unchanged() {
    assert_eq!(fill_template("plain text", &[("plain", "x")]), "plain text");
}

#[test]
fn normalized_text_is_unchanged() {
    let text = "fn a() {\n\n    x\n}\n";
    assert_eq!(normalize_empty_lines(text), text);
    assert_eq!(normalize_empty_lines(&normalize_empty_lines("a\n    \n")), "a\n\n");
}

#[test]
fn message_values_fields_and_bindings_agree() {
    let model = parse(
        "impl A { pub fn h(&mut self, a: usize, b: &String, _: &Other, world: &mut World) {} }",
    )
    .unwrap();
    let code = model.generate_actor_ids_messages_and_conversions();
    assert!(code.contains("world.send(self.as_raw(), MSG_A_h(a, b, _));"));
    assert!(code.contains("struct MSG_A_h(pub usize, pub String, pub Other);"));
    let setup = model.generate_setups();
    assert!(setup.contains("|&MSG_A_h(a, ref b, ref _), instance, world|"));
}

#[test]
fn handlers_name_their_traits() {
    let model = parse(
        "trait T { fn t(&mut self, world: &mut World); }
         impl T for A { fn t(&mut self, world: &mut World) {} }
         impl Clone for A { fn clone(&self) -> A { A } }
         impl A { pub fn own(&mut self, world: &mut World) {} }",
    )
    .unwrap();
    let a = &model.actors["A"];
    let t = a.handlers[0].from_trait.as_ref().unwrap();
    assert_eq!(t.segments[0].ident, "T");
    assert_eq!(a.impls[0].segments[0].ident, "T");
    assert!(a.handlers[1].from_trait.is_none());
    assert!(model.traits["T"].handlers.iter().all(|h| h.from_trait.is_none()));
}
