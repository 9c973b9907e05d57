//! Generating code: indentation, template filling, the generic parameters a
//! message needs, and the generated pieces of small modules.
use kay_codegen::model::Handler;
use kay_codegen::syntax::{FnArgSyntax, PatSyntax, PathSegmentSyntax, PathSyntax, TypeSyntax};
use kay_codegen::text::fill_template;
use kay_codegen::{generate, generate_serializable, ind, normalize_empty_lines, parse, HandlerType};

fn path_type(ident: &str) -> TypeSyntax {
    TypeSyntax::Path {
        path: PathSyntax {
            leading_colon: false,
            segments: vec![PathSegmentSyntax { ident: ident.to_owned(), arguments: String::new() }],
        },
        tokens: ident.to_owned(),
    }
}

fn handler(scope: HandlerType, arg_types: &[&str]) -> Handler {
    Handler {
        name: "h".to_owned(),
        arguments: arg_types
            .iter()
            .map(|t| FnArgSyntax::Captured { pat: PatSyntax::Ident("x".to_owned()), ty: path_type(t) })
            .collect(),
        scope,
        critical: false,
        returns_fate: false,
        from_trait: None,
    }
}

#[test]
fn ind_indents_all_but_the_first_line() {
    assert_eq!(ind("a\nb\nc", 1), "a\n    b\n    c");
    assert_eq!(ind("a\nb", 2), "a\n        b");
    assert_eq!(ind("a\n\nb", 1), "a\n    \n    b");
}

#[test]
fn ind_of_one_line_is_that_line() {
    assert_eq!(ind("one line", 3), "one line");
    assert_eq!(ind("", 3), "");
}

#[test]
fn ind_reads_lines_as_str_lines_does() {
    assert_eq!(ind("a\r\nb\n", 1), "a\n    b");
    assert_eq!(ind("a\nb", 0), "a\nb");
}

#[test]
fn normalize_empty_lines_removes_indentation_of_empty_lines() {
    assert_eq!(normalize_empty_lines("a\n    \nb"), "a\n\nb");
    assert_eq!(normalize_empty_lines("a\n        \nb"), "a\n\nb");
    assert_eq!(normalize_empty_lines("a\n            \nb"), "a\n\nb");
    assert_eq!(normalize_empty_lines("a\n   \nb"), "a\n   \nb");
    assert_eq!(normalize_empty_lines("    x\n"), "    x\n");
}

#[test]
fn fill_template_fills_placeholders_and_braces() {
    let out = fill_template("fn {name}() {{ {body} }}", &[("name", "f"), ("body", "1")]);
    assert_eq!(out, "fn f() { 1 }");
    assert_eq!(fill_template("{missing}!", &[]), "!");
    assert_eq!(fill_template("open { only", &[]), "open { only");
}

#[test]
fn used_generics_of_a_handler_are_those_its_arguments_mention() {
    let h = handler(HandlerType::Handler, &["usize", "B"]);
    assert_eq!(h.used_generics("<A, B>".to_owned(), "<A: Compact, B: Compact>".to_owned(), true), "<B>");
    assert_eq!(
        h.used_generics("<A, B>".to_owned(), "<A: Compact, B: Compact>".to_owned(), false),
        "<B: Compact>"
    );
    let none = handler(HandlerType::Handler, &["usize"]);
    assert_eq!(none.used_generics("<A, B>".to_owned(), "<A: Compact, B: Compact>".to_owned(), true), "");
}

#[test]
fn used_generics_of_an_init_handler_are_all_generics() {
    let h = handler(HandlerType::Init, &["usize"]);
    assert_eq!(h.used_generics("<A, B>".to_owned(), "<A: Compact, B: Compact>".to_owned(), true), "<A, B>");
    assert_eq!(
        h.used_generics("<A, B>".to_owned(), "<A: Compact, B: Compact>".to_owned(), false),
        "<A: Compact, B: Compact>"
    );
}

#[test]
fn setup_of_an_empty_model() {
    let model = parse("").unwrap();
    assert_eq!(
        model.generate_setups(),
        "#[allow(unused_variables)]\n#[allow(unused_mut)]\npub fn auto_setup(system: &mut ActorSystem) {\n    \n    \n}"
    );
    assert_eq!(model.generate_traits(), "");
    assert_eq!(model.generate_actor_ids_messages_and_conversions(), "");
}

#[test]
fn setup_registers_a_handler() {
    let model = parse("impl A { pub fn h(&mut self, x: &usize, world: &mut World) {} }").unwrap();
    assert_eq!(
        model.generate_setups(),
        "#[allow(unused_variables)]\n#[allow(unused_mut)]\npub fn auto_setup(system: &mut ActorSystem) {\n    \n    \n    system.add_handler::<A, _, _>(\n        |&MSG_A_h(ref x), instance, world| {\n            instance.h(x, world); Fate::Live\n        }, false\n    );\n}"
    );
}

#[test]
fn actor_code_without_struct_has_no_id_type() {
    let model = parse("impl A { pub fn h(&mut self, _x: usize, world: &mut World) -> Fate { Fate::Die } }").unwrap();
    let code = normalize_empty_lines(&model.generate_actor_ids_messages_and_conversions());
    assert_eq!(
        code,
        "\n\nimpl AID {\n    pub fn h(self, x: usize, world: &mut World) {\n        world.send(self.as_raw(), MSG_A_h(x));\n    }\n}\n\n#[derive(Compact, Clone)] #[allow(non_camel_case_types)]\nstruct MSG_A_h(pub usize);\n\n"
    );
}

#[test]
fn trait_code_of_a_trait_without_generics() {
    let model = parse("trait T { fn ping(&mut self, world: &mut World); }").unwrap();
    let code = model.generate_traits();
    assert!(code.contains("pub struct TRepresentative;\n"));
    assert!(code.contains("impl<Act: Actor + T> TraitIDFrom<Act> for TID {}"));
    assert!(code.contains("system.register_trait_message::<MSG_T_ping>();"));
    assert!(code.contains("#[derive(Copy, Clone)] #[allow(non_camel_case_types)]\nstruct MSG_T_ping();"));
}

#[test]
fn generated_module_starts_with_its_header() {
    let model = parse("impl A { pub fn h(&mut self, world: &mut World) {} }").unwrap();
    let code = generate(&model);
    assert!(code.starts_with(
        "//! This is all auto-generated. Do not touch.\n#![rustfmt::skip]\n#[allow(unused_imports)]\nuse kay::{ActorSystem, TypedID, RawID, Fate, Actor, TraitIDFrom, ActorOrActorTrait};\n"
    ));
    assert!(code.ends_with("}"));
}

#[test]
fn serializable_ids_derive_serde() {
    let model = parse(
        "pub struct A { id: AID }
         impl A { pub fn h(&mut self, world: &mut World) {} }
         trait T { fn t(&mut self, world: &mut World); }",
    )
    .unwrap();
    let code = generate_serializable(&model);
    assert!(code.contains("#[derive(Serialize, Deserialize)] #[serde(transparent)]\npub struct AID {"));
    assert!(code.contains("#[derive(Serialize, Deserialize)] #[serde(transparent)]\npub struct TID {"));
    let plain = generate(&model);
    assert!(!plain.contains("Serialize"));
    assert_eq!(code.replace("#[derive(Serialize, Deserialize)] #[serde(transparent)]", ""), plain);
}

#[test]
fn trait_code_ignores_actors_it_cannot_generate() {
    let model = parse("impl A { pub fn h(&mut self, (a, b): (usize, usize), world: &mut World) {} }").unwrap();
    assert_eq!(model.generate_traits(), "");
}

#[test]
fn actor_code_and_setup_ignore_traits_they_cannot_generate() {
    let model = parse("trait T { fn t(&mut self, (a, b): (usize, usize), world: &mut World); }").unwrap();
    assert_eq!(model.traits.len(), 1);
    assert_eq!(model.generate_actor_ids_messages_and_conversions(), "");
    assert_eq!(
        model.generate_setups(),
        "#[allow(unused_variables)]\n#[allow(unused_mut)]\npub fn auto_setup(system: &mut ActorSystem) {\n    TID::register_trait(system);\n    \n}"
    );
}
