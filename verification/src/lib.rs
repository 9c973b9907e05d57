//! Code generation for actors and actor traits: reads the Rust source of a
//! module, finds its actors, actor traits and message handlers, and writes
//! the code that registers them and sends their messages.
use vstd::prelude::*;

pub mod text;
pub mod syntax;
pub mod model;
pub mod index_map;
pub mod parsers;
pub mod templates;
pub mod generators;
pub mod trait_code;
pub mod actor_code;
pub mod modules;
pub mod laws;

pub use model::{ActorDef, Handler, HandlerType, Model, TraitDef};
pub use parsers::{check_handler, parse};
pub use generators::ind;

use actor_code::actors_code;
use generators::{indented, setup_of};
use model::ModelView;
use templates::GENERATED_MODULE;
use text::{fill, fill_template, replace, replace_all, template_args, unindent_text, unindented};
use trait_code::traits_code;

verus! {

/// The generated module of a model: its traits' code, its actors' code and
/// its setup function; with serde's derives on the ID types where `serde`
/// holds.
pub open spec fn generated_module(m: ModelView, serde: bool) -> Seq<char> {
    unindented(
        fill(
            GENERATED_MODULE@,
            seq![
                ("traits_msgs"@, indented(traits_code(m, serde), 2)),
                ("actors_msgs"@, indented(actors_code(m, serde), 2)),
                ("setup"@, indented(setup_of(m), 2)),
            ],
        ),
    )
}

/// Generates the module of a model.
pub fn generate(model: &Model) -> (r: String)
    requires
        model@.generable(),
    ensures
        r@ == generated_module(model@, false),
{
    module_text(model, false)
}

/// Generates the module of a model with serialisable ID types: each ID type
/// derives serde's `Serialize` and `Deserialize`, transparently.
pub fn generate_serializable(model: &Model) -> (r: String)
    requires
        model@.generable(),
    ensures
        r@ == generated_module(model@, true),
{
    module_text(model, true)
}

/// The module of a model, with or without serde's derives.
fn module_text(model: &Model, serde: bool) -> (r: String)
    requires
        model@.generable(),
    ensures
        r@ == generated_module(model@, serde),
{
    let traits_msgs = model.traits_code_of(serde);
    let actors_msgs = model.actors_code_of(serde);
    let setup = model.generate_setups();
    let a = ind(traits_msgs.as_str(), 2);
    let b = ind(actors_msgs.as_str(), 2);
    let c = ind(setup.as_str(), 2);
    let args = [("traits_msgs", a.as_str()), ("actors_msgs", b.as_str()), ("setup", c.as_str())];
    assert(template_args(args@) =~= seq![("traits_msgs"@, a@), ("actors_msgs"@, b@), ("setup"@, c@)]);
    let text = fill_template(GENERATED_MODULE, &args);
    unindent_text(text.as_str())
}

/// The text with the whitespace of lines that hold only two or one levels
/// of indentation removed.
pub open spec fn empty_lines_normalized(s: Seq<char>) -> Seq<char> {
    replace_all(replace_all(s, "        \n"@, "\n"@), "    \n"@, "\n"@)
}

/// Removes the indentation of lines that hold only eight or four spaces, so
/// that generated code compares equal however its empty lines are indented.
pub fn normalize_empty_lines(string: &str) -> (r: String)
    ensures
        r@ == empty_lines_normalized(string@),
{
    proof {
        reveal_strlit("        \n");
        reveal_strlit("    \n");
    }
    let a = replace(string, "        \n", "\n");
    replace(a.as_str(), "    \n", "\n")
}

} // verus!
