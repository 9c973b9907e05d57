//! Generating the ID types, sending methods, messages and ID conversions of
//! actors.
use vstd::prelude::*;
use crate::generators::{
    full_generics, generics_from_path, handler_args, handler_args_of, indented, ind,
    lemma_map_take_push, lemma_views_push, msg_derives, msg_derives_of, msg_name, msg_name_of,
    msg_param_types, msg_param_types_of, msg_params, msg_params_of, path_generics, path_text, pth,
    short_generics, to_full_generics, to_short_generics, turbofish, turbofish_of, used_generics_of,
};
use crate::index_map::{actor_map_get_index, actor_map_len};
use crate::model::{ActorDef, ActorDefView, Handler, HandlerType, HandlerView, Model, ModelView};
use crate::syntax::{arg_views, GenericsView, PathSyntax, PathView};
use crate::templates::{
    ACTOR_DEFINITIONS, ACTOR_ID_DEFINITION, ACTOR_INIT_METHOD, ACTOR_MESSAGE_STRUCT,
    ACTOR_SEND_METHOD, ID_CONVERSION, INIT_ID_FIELD,
};
use crate::text::{
    fill, fill_template, join, join_strings, keep_some, lemma_keep_some_push, template_args,
    unindent_text, unindented, views,
};
use crate::trait_code::{id_derives, id_derives_of, marker_field, marker_field_of, marker_init, marker_init_of};

verus! {

// ---------------------------------------------------------------------------
// Specifications
// ---------------------------------------------------------------------------

/// The `Actor` implementation and the ID type of an actor whose struct the
/// module declares.
pub open spec fn actor_id_definition(actor: Seq<char>, g: GenericsView, serde: bool) -> Seq<char> {
    unindented(
        fill(
            ACTOR_ID_DEFINITION@,
            seq![
                ("actor_name"@, actor),
                ("short_generics"@, short_generics(g)),
                ("full_generics"@, full_generics(g)),
                ("actor_id_derives"@, id_derives(serde)),
                ("maybe_marker"@, marker_field(g)),
                ("maybe_marker_init"@, marker_init(g)),
            ],
        ),
    )
}

/// The method of an actor ID that sends a handler's message, or, for an
/// init handler, creates the actor.
pub open spec fn actor_send_method(actor: Seq<char>, short: Seq<char>, full: Seq<char>, h: HandlerView) -> Seq<char> {
    let used_tf = turbofish(used_generics_of(h, short, full, true));
    match h.scope {
        HandlerType::Handler => unindented(
            fill(
                ACTOR_SEND_METHOD@,
                seq![
                    ("handler_name"@, h.name),
                    ("handler_args"@, handler_args(h.arguments)),
                    ("msg_name"@, msg_name(actor, h.name)),
                    ("used_generics_turbofish"@, used_tf),
                    ("msg_params"@, msg_params(h.arguments)),
                ],
            ),
        ),
        HandlerType::Init => unindented(
            fill(
                ACTOR_INIT_METHOD@,
                seq![
                    ("handler_name"@, h.name),
                    ("short_generics_turbofish"@, turbofish(short)),
                    ("short_generics"@, short),
                    ("handler_args"@, handler_args(h.arguments)),
                    ("actor_name"@, actor),
                    ("msg_name"@, msg_name(actor, h.name)),
                    ("used_generics_turbofish"@, used_tf),
                    ("msg_params"@, msg_params(h.arguments)),
                ],
            ),
        ),
    }
}

/// The sending method of a handler that no trait declares.
pub open spec fn own_send_method(actor: Seq<char>, short: Seq<char>, full: Seq<char>, h: HandlerView) -> Option<Seq<char>> {
    if h.from_trait is None {
        Some(actor_send_method(actor, short, full, h))
    } else {
        None
    }
}

/// The first field of an init handler's message: the new actor's ID.
pub open spec fn id_field(actor: Seq<char>, short: Seq<char>, scope: HandlerType) -> Seq<char> {
    match scope {
        HandlerType::Handler => ""@,
        HandlerType::Init => fill(INIT_ID_FIELD@, seq![("actor_name"@, actor), ("short_generics"@, short)]),
    }
}

/// The message struct of an actor's handler.
pub open spec fn actor_message_struct(actor: Seq<char>, short: Seq<char>, full: Seq<char>, h: HandlerView) -> Seq<char> {
    let types = msg_param_types(h.arguments);
    let used = used_generics_of(h, short, full, false);
    unindented(
        fill(
            ACTOR_MESSAGE_STRUCT@,
            seq![
                ("msg_derives"@, msg_derives(types, used)),
                ("used_generics"@, used),
                ("msg_name"@, msg_name(actor, h.name)),
                ("maybe_id_type"@, id_field(actor, short, h.scope)),
                ("msg_param_types"@, types),
            ],
        ),
    )
}

/// The message struct of a handler that no trait declares.
pub open spec fn own_message_struct(actor: Seq<char>, short: Seq<char>, full: Seq<char>, h: HandlerView) -> Option<Seq<char>> {
    if h.from_trait is None {
        Some(actor_message_struct(actor, short, full, h))
    } else {
        None
    }
}

/// The conversion of an actor's ID into the ID of a trait that it
/// implements.
pub open spec fn id_conversion(actor: Seq<char>, short: Seq<char>, t: PathView) -> Seq<char> {
    unindented(
        fill(
            ID_CONVERSION@,
            seq![
                ("trait_name"@, path_text(t)),
                ("actor_name"@, actor),
                ("impl_generics"@, path_generics(t)),
                ("short_generics"@, short),
            ],
        ),
    )
}

/// The code of one actor: its ID type where the module declares its struct,
/// the methods that send its messages, its messages, and the conversions of
/// its ID.
pub open spec fn actor_definitions(actor: Seq<char>, def: ActorDefView, serde: bool) -> Seq<char> {
    let short = short_generics(def.generics);
    let full = full_generics(def.generics);
    let id_def = if def.defined_here {
        actor_id_definition(actor, def.generics, serde)
    } else {
        ""@
    };
    let sends = join(keep_some(def.handlers.map_values(|h: HandlerView| own_send_method(actor, short, full, h))), "\n\n"@);
    let structs = join(
        keep_some(def.handlers.map_values(|h: HandlerView| own_message_struct(actor, short, full, h))),
        "\n"@,
    );
    let conversions = join(def.impls.map_values(|t: PathView| id_conversion(actor, short, t)), "\n\n"@);
    unindented(
        fill(
            ACTOR_DEFINITIONS@,
            seq![
                ("id_def_if_defined_here"@, indented(id_def, 4)),
                ("actor_name"@, actor),
                ("short_generics"@, short),
                ("full_generics"@, full),
                ("handler_defs"@, indented(sends, 5)),
                ("msg_defs"@, indented(structs, 4)),
                ("id_conversion_impls"@, indented(conversions, 4)),
            ],
        ),
    )
}

/// The code of all actors of a model, in order.
pub open spec fn actors_code(m: ModelView, serde: bool) -> Seq<char> {
    join(m.actors.map_values(|e: (Seq<char>, ActorDefView)| actor_definitions(e.0, e.1, serde)), "\n"@)
}

// ---------------------------------------------------------------------------
// Executable functions
// ---------------------------------------------------------------------------

/// The `Actor` implementation and the ID type of an actor.
fn actor_id_definition_of(actor: &String, short: &String, full: &String, serde: bool) -> (r: String)
    ensures
        forall|g: GenericsView|
            full_generics(g) == full@ && short_generics(g) == short@ ==> r@ == #[trigger] actor_id_definition(actor@, g, serde),
{
    let derives = id_derives_of(serde);
    let marker = marker_field_of(full, short);
    let init = marker_init_of(full);
    let args = [
        ("actor_name", actor.as_str()),
        ("short_generics", short.as_str()),
        ("full_generics", full.as_str()),
        ("actor_id_derives", derives),
        ("maybe_marker", marker.as_str()),
        ("maybe_marker_init", init),
    ];
    assert(template_args(args@) =~= seq![
        ("actor_name"@, actor@),
        ("short_generics"@, short@),
        ("full_generics"@, full@),
        ("actor_id_derives"@, derives@),
        ("maybe_marker"@, marker@),
        ("maybe_marker_init"@, init@),
    ]);
    let text = fill_template(ACTOR_ID_DEFINITION, &args);
    unindent_text(text.as_str())
}

/// The method of an actor ID that sends a handler's message or creates the
/// actor.
fn actor_send_method_of(actor: &String, short: &String, full: &String, h: &Handler) -> (r: String)
    requires
        h@.generable(),
    ensures
        r@ == actor_send_method(actor@, short@, full@, h@),
{
    assert(h@.arguments == arg_views(h.arguments@));
    let hargs = handler_args_of(&h.arguments);
    let msg = msg_name_of(actor, &h.name);
    let params = msg_params_of(&h.arguments);
    let used = h.used_generics(short.clone(), full.clone(), true);
    let used_tf = turbofish_of(&used);
    match h.scope {
        HandlerType::Handler => {
            let args = [
                ("handler_name", h.name.as_str()),
                ("handler_args", hargs.as_str()),
                ("msg_name", msg.as_str()),
                ("used_generics_turbofish", used_tf.as_str()),
                ("msg_params", params.as_str()),
            ];
            assert(template_args(args@) =~= seq![
                ("handler_name"@, h.name@),
                ("handler_args"@, hargs@),
                ("msg_name"@, msg@),
                ("used_generics_turbofish"@, used_tf@),
                ("msg_params"@, params@),
            ]);
            let text = fill_template(ACTOR_SEND_METHOD, &args);
            unindent_text(text.as_str())
        },
        HandlerType::Init => {
            let short_tf = turbofish_of(short);
            let args = [
                ("handler_name", h.name.as_str()),
                ("short_generics_turbofish", short_tf.as_str()),
                ("short_generics", short.as_str()),
                ("handler_args", hargs.as_str()),
                ("actor_name", actor.as_str()),
                ("msg_name", msg.as_str()),
                ("used_generics_turbofish", used_tf.as_str()),
                ("msg_params", params.as_str()),
            ];
            assert(template_args(args@) =~= seq![
                ("handler_name"@, h.name@),
                ("short_generics_turbofish"@, short_tf@),
                ("short_generics"@, short@),
                ("handler_args"@, hargs@),
                ("actor_name"@, actor@),
                ("msg_name"@, msg@),
                ("used_generics_turbofish"@, used_tf@),
                ("msg_params"@, params@),
            ]);
            let text = fill_template(ACTOR_INIT_METHOD, &args);
            unindent_text(text.as_str())
        },
    }
}

/// The first field of an init handler's message.
fn id_field_of(actor: &String, short: &String, scope: HandlerType) -> (r: String)
    ensures
        r@ == id_field(actor@, short@, scope),
{
    proof {
        reveal_strlit("");
    }
    match scope {
        HandlerType::Handler => String::new(),
        HandlerType::Init => {
            let args = [("actor_name", actor.as_str()), ("short_generics", short.as_str())];
            assert(template_args(args@) =~= seq![("actor_name"@, actor@), ("short_generics"@, short@)]);
            fill_template(INIT_ID_FIELD, &args)
        },
    }
}

/// The message struct of an actor's handler.
fn actor_message_struct_of(actor: &String, short: &String, full: &String, h: &Handler) -> (r: String)
    requires
        h@.generable(),
    ensures
        r@ == actor_message_struct(actor@, short@, full@, h@),
{
    assert(h@.arguments == arg_views(h.arguments@));
    let types = msg_param_types_of(&h.arguments);
    let used = h.used_generics(short.clone(), full.clone(), false);
    let derives = msg_derives_of(&types, &used);
    let msg = msg_name_of(actor, &h.name);
    let id = id_field_of(actor, short, h.scope);
    let args = [
        ("msg_derives", derives),
        ("used_generics", used.as_str()),
        ("msg_name", msg.as_str()),
        ("maybe_id_type", id.as_str()),
        ("msg_param_types", types.as_str()),
    ];
    assert(template_args(args@) =~= seq![
        ("msg_derives"@, derives@),
        ("used_generics"@, used@),
        ("msg_name"@, msg@),
        ("maybe_id_type"@, id@),
        ("msg_param_types"@, types@),
    ]);
    let text = fill_template(ACTOR_MESSAGE_STRUCT, &args);
    unindent_text(text.as_str())
}

/// The conversion of an actor's ID into the ID of a trait that it
/// implements.
fn id_conversion_of(actor: &String, short: &String, t: &PathSyntax) -> (r: String)
    requires
        t@.segments.len() > 0,
    ensures
        r@ == id_conversion(actor@, short@, t@),
{
    let tn = pth(t);
    let g = generics_from_path(t);
    let args = [
        ("trait_name", tn.as_str()),
        ("actor_name", actor.as_str()),
        ("impl_generics", g.as_str()),
        ("short_generics", short.as_str()),
    ];
    assert(template_args(args@) =~= seq![
        ("trait_name"@, tn@),
        ("actor_name"@, actor@),
        ("impl_generics"@, g@),
        ("short_generics"@, short@),
    ]);
    let text = fill_template(ID_CONVERSION, &args);
    unindent_text(text.as_str())
}

/// The code of one actor.
fn actor_definitions_of(actor: &String, def: &ActorDef, serde: bool) -> (r: String)
    requires
        def@.generable(),
    ensures
        r@ == actor_definitions(actor@, def@, serde),
{
    let ghost dv = def@;
    let short = to_short_generics(&def.generics);
    let full = to_full_generics(&def.generics);
    // handlers that no trait declares
    let ghost fs = |h: HandlerView| own_send_method(actor@, short@, full@, h);
    let ghost fm = |h: HandlerView| own_message_struct(actor@, short@, full@, h);
    let mut sends: Vec<String> = Vec::new();
    let mut structs: Vec<String> = Vec::new();
    let mut i: usize = 0;
    while i < def.handlers.len()
        invariant
            i <= def.handlers@.len(),
            dv == def@,
            def@.generable(),
            fs == (|h: HandlerView| own_send_method(actor@, short@, full@, h)),
            fm == (|h: HandlerView| own_message_struct(actor@, short@, full@, h)),
            views(sends@) == keep_some(dv.handlers.take(i as int).map_values(fs)),
            views(structs@) == keep_some(dv.handlers.take(i as int).map_values(fm)),
        decreases def.handlers@.len() - i,
    {
        proof {
            lemma_map_take_push(dv.handlers, fs, i as int);
            lemma_map_take_push(dv.handlers, fm, i as int);
            lemma_keep_some_push(dv.handlers.take(i as int).map_values(fs), fs(dv.handlers[i as int]));
            lemma_keep_some_push(dv.handlers.take(i as int).map_values(fm), fm(dv.handlers[i as int]));
        }
        let h = &def.handlers[i];
        if h.from_trait.is_none() {
            assert(dv.handlers[i as int].generable());
            let a = actor_send_method_of(actor, &short, &full, h);
            let b = actor_message_struct_of(actor, &short, &full, h);
            proof {
                lemma_views_push(sends@, a);
                lemma_views_push(structs@, b);
            }
            sends.push(a);
            structs.push(b);
        }
        i = i + 1;
    }
    assert(dv.handlers.take(dv.handlers.len() as int) =~= dv.handlers);
    // conversions into the IDs of implemented traits
    let ghost fc = |t: PathView| id_conversion(actor@, short@, t);
    let mut conversions: Vec<String> = Vec::new();
    let mut j: usize = 0;
    while j < def.impls.len()
        invariant
            j <= def.impls@.len(),
            dv == def@,
            def@.generable(),
            fc == (|t: PathView| id_conversion(actor@, short@, t)),
            views(conversions@) == dv.impls.take(j as int).map_values(fc),
        decreases def.impls@.len() - j,
    {
        proof {
            lemma_map_take_push(dv.impls, fc, j as int);
            assert(dv.impls[j as int].segments.len() > 0);
        }
        let c = id_conversion_of(actor, &short, &def.impls[j]);
        proof {
            lemma_views_push(conversions@, c);
        }
        conversions.push(c);
        j = j + 1;
    }
    assert(dv.impls.take(dv.impls.len() as int) =~= dv.impls);
    proof {
        reveal_strlit("");
    }
    let id_def = if def.defined_here {
        actor_id_definition_of(actor, &short, &full, serde)
    } else {
        String::new()
    };
    let id_text = ind(id_def.as_str(), 4);
    let sends_text = ind(join_strings(&sends, "\n\n").as_str(), 5);
    let structs_text = ind(join_strings(&structs, "\n").as_str(), 4);
    let conversions_text = ind(join_strings(&conversions, "\n\n").as_str(), 4);
    let args = [
        ("id_def_if_defined_here", id_text.as_str()),
        ("actor_name", actor.as_str()),
        ("short_generics", short.as_str()),
        ("full_generics", full.as_str()),
        ("handler_defs", sends_text.as_str()),
        ("msg_defs", structs_text.as_str()),
        ("id_conversion_impls", conversions_text.as_str()),
    ];
    assert(template_args(args@) =~= seq![
        ("id_def_if_defined_here"@, id_text@),
        ("actor_name"@, actor@),
        ("short_generics"@, short@),
        ("full_generics"@, full@),
        ("handler_defs"@, sends_text@),
        ("msg_defs"@, structs_text@),
        ("id_conversion_impls"@, conversions_text@),
    ]);
    let text = fill_template(ACTOR_DEFINITIONS, &args);
    unindent_text(text.as_str())
}

impl Model {
    /// The code of all actors, in order: their ID types, sending methods,
    /// messages and ID conversions.
    pub fn generate_actor_ids_messages_and_conversions(&self) -> (r: String)
        requires
            self@.actors_generable(),
        ensures
            r@ == actors_code(self@, false),
    {
        self.actors_code_of(false)
    }

    /// The code of all actors, in order, with serde's derives on the ID
    /// types where `serde` holds.
    pub(crate) fn actors_code_of(&self, serde: bool) -> (r: String)
        requires
            self@.actors_generable(),
        ensures
            r@ == actors_code(self@, serde),
    {
        let ghost m = self@;
        let ghost f = |e: (Seq<char>, ActorDefView)| actor_definitions(e.0, e.1, serde);
        let mut parts: Vec<String> = Vec::new();
        let n = actor_map_len(&self.actors);
        let mut i: usize = 0;
        while i < n
            invariant
                i <= n,
                n == m.actors.len(),
                m == self@,
                m.actors_generable(),
                f == (|e: (Seq<char>, ActorDefView)| actor_definitions(e.0, e.1, serde)),
                views(parts@) == m.actors.take(i as int).map_values(f),
            decreases n - i,
        {
            proof {
                lemma_map_take_push(m.actors, f, i as int);
            }
            let (k, d) = actor_map_get_index(&self.actors, i).unwrap();
            assert(m.actors[i as int].1.generable());
            let p = actor_definitions_of(k, d, serde);
            proof {
                lemma_views_push(parts@, p);
            }
            parts.push(p);
            i = i + 1;
        }
        assert(m.actors.take(n as int) =~= m.actors);
        join_strings(&parts, "\n")
    }
}

} // verus!
