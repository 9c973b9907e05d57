//! Generating the ID types, representatives, sending methods and messages of
//! actor traits.
use vstd::prelude::*;
use crate::generators::{
    bool_text, bool_text_of, full_generics, handler_args, handler_args_of,
    handler_params, handler_params_of, indented, ind, lemma_map_take_push, lemma_views_push,
    maybe_return, maybe_return_of, msg_args, msg_args_of, msg_derives, msg_derives_of, msg_name,
    msg_name_of, msg_param_types, msg_param_types_of, msg_params, msg_params_of, short_generics,
    to_full_generics, to_short_generics, turbofish, turbofish_of, used_generics_of,
    without_angles, without_angles_of,
};
use crate::index_map::{trait_map_get_index, trait_map_len};
use crate::model::{Handler, HandlerView, Model, ModelView, TraitDef, TraitDefView};
use crate::syntax::{arg_views, GenericsView};
use crate::templates::{
    IMPLEMENTOR_HANDLER, MARKER_BODY, MARKER_FIELD, TRAIT_DEFINITIONS, TRAIT_MESSAGE_REGISTRATION,
    TRAIT_MESSAGE_STRUCT, TRAIT_SEND_METHOD,
};
use crate::text::{fill, fill_template, join, join_strings, template_args, unindent_text, unindented, views};

verus! {

// ---------------------------------------------------------------------------
// Specifications
// ---------------------------------------------------------------------------

/// The method of a trait ID that sends a handler's message.
pub open spec fn trait_send_method(t: Seq<char>, h: HandlerView) -> Seq<char> {
    unindented(
        fill(
            TRAIT_SEND_METHOD@,
            seq![
                ("handler_name"@, h.name),
                ("handler_args"@, handler_args(h.arguments)),
                ("msg_name"@, msg_name(t, h.name)),
                ("msg_params"@, msg_params(h.arguments)),
            ],
        ),
    )
}

/// The registration of a trait handler's message.
pub open spec fn trait_msg_registration(t: Seq<char>, short: Seq<char>, full: Seq<char>, h: HandlerView) -> Seq<char> {
    fill(
        TRAIT_MESSAGE_REGISTRATION@,
        seq![("msg_name"@, msg_name(t, h.name)), ("used_generics"@, used_generics_of(h, short, full, true))],
    )
}

/// The registration of a trait handler for an implementor.
pub open spec fn implementor_handler(t: Seq<char>, short: Seq<char>, full: Seq<char>, h: HandlerView) -> Seq<char> {
    unindented(
        fill(
            IMPLEMENTOR_HANDLER@,
            seq![
                ("msg_name"@, msg_name(t, h.name)),
                ("used_generics_turbofish"@, turbofish(used_generics_of(h, short, full, true))),
                ("msg_args"@, msg_args(h.arguments)),
                ("handler_name"@, h.name),
                ("handler_params"@, handler_params(h.arguments)),
                ("maybe_return"@, maybe_return(h.returns_fate)),
                ("is_critical"@, bool_text(h.critical)),
            ],
        ),
    )
}

/// The message struct of a trait handler.
pub open spec fn trait_message_struct(t: Seq<char>, short: Seq<char>, full: Seq<char>, h: HandlerView) -> Seq<char> {
    let types = msg_param_types(h.arguments);
    let used = used_generics_of(h, short, full, false);
    unindented(
        fill(
            TRAIT_MESSAGE_STRUCT@,
            seq![
                ("msg_derives"@, msg_derives(types, used)),
                ("msg_name"@, msg_name(t, h.name)),
                ("used_generics"@, used),
                ("msg_param_types"@, types),
            ],
        ),
    )
}

/// The marker field of an ID with generic parameters; nothing without them.
pub open spec fn marker_field(g: GenericsView) -> Seq<char> {
    if full_generics(g).len() == 0 {
        ""@
    } else {
        fill(MARKER_FIELD@, seq![("params"@, without_angles(short_generics(g)))])
    }
}

/// The body of a representative: a marker field with generic parameters,
/// `;` without them.
pub open spec fn marker_body(g: GenericsView) -> Seq<char> {
    if full_generics(g).len() == 0 {
        ";"@
    } else {
        fill(MARKER_BODY@, seq![("params"@, without_angles(short_generics(g)))])
    }
}

/// The marker's initialisation in an ID with generic parameters; nothing
/// without them.
pub open spec fn marker_init(g: GenericsView) -> Seq<char> {
    if full_generics(g).len() == 0 {
        ""@
    } else {
        ", _marker: ::std::marker::PhantomData"@
    }
}

/// The generic parameters with bounds, without angle brackets and followed
/// by `, `; nothing without them.
pub open spec fn params_then_comma(g: GenericsView) -> Seq<char> {
    if full_generics(g).len() == 0 {
        ""@
    } else {
        without_angles(full_generics(g)) + ", "@
    }
}

/// The derives of a generated ID type: none, or, where the IDs are to be
/// serialisable, serde's with a transparent representation.
pub open spec fn id_derives(serde: bool) -> Seq<char> {
    if serde {
        "#[derive(Serialize, Deserialize)] #[serde(transparent)]"@
    } else {
        ""@
    }
}

/// The code of one actor trait: its ID type, its representative, the
/// methods that send its messages, its registration and its messages.
pub open spec fn trait_definitions(t: Seq<char>, def: TraitDefView, serde: bool) -> Seq<char> {
    let short = short_generics(def.generics);
    let full = full_generics(def.generics);
    let sends = join(def.handlers.map_values(|h: HandlerView| trait_send_method(t, h)), "\n\n"@);
    let regs = join(def.handlers.map_values(|h: HandlerView| trait_msg_registration(t, short, full, h)), "\n"@);
    let impls = join(def.handlers.map_values(|h: HandlerView| implementor_handler(t, short, full, h)), "\n\n"@);
    let structs = join(def.handlers.map_values(|h: HandlerView| trait_message_struct(t, short, full, h)), "\n"@);
    unindented(
        fill(
            TRAIT_DEFINITIONS@,
            seq![
                ("trait_id_derives"@, id_derives(serde)),
                ("trait_name"@, t),
                ("full_generics"@, full),
                ("full_generics_inner_comma"@, params_then_comma(def.generics)),
                ("short_generics"@, short),
                ("maybe_marker"@, marker_field(def.generics)),
                ("maybe_marker_only"@, marker_body(def.generics)),
                ("maybe_marker_init"@, marker_init(def.generics)),
                ("handler_send_impls"@, indented(sends, 5)),
                ("trait_msg_registrations"@, indented(regs, 6)),
                ("implementor_handler_registrations"@, indented(impls, 6)),
                ("msg_struct_defs"@, indented(structs, 4)),
            ],
        ),
    )
}

/// The code of all actor traits of a model, in order.
pub open spec fn traits_code(m: ModelView, serde: bool) -> Seq<char> {
    join(m.traits.map_values(|e: (Seq<char>, TraitDefView)| trait_definitions(e.0, e.1, serde)), "\n"@)
}

// ---------------------------------------------------------------------------
// Executable functions
// ---------------------------------------------------------------------------

/// The method of a trait ID that sends a handler's message.
fn trait_send_method_of(t: &String, h: &Handler) -> (r: String)
    requires
        h@.generable(),
    ensures
        r@ == trait_send_method(t@, h@),
{
    assert(h@.arguments == arg_views(h.arguments@));
    let hargs = handler_args_of(&h.arguments);
    let msg = msg_name_of(t, &h.name);
    let params = msg_params_of(&h.arguments);
    let args = [
        ("handler_name", h.name.as_str()),
        ("handler_args", hargs.as_str()),
        ("msg_name", msg.as_str()),
        ("msg_params", params.as_str()),
    ];
    assert(template_args(args@) =~= seq![
        ("handler_name"@, h.name@),
        ("handler_args"@, hargs@),
        ("msg_name"@, msg@),
        ("msg_params"@, params@),
    ]);
    let text = fill_template(TRAIT_SEND_METHOD, &args);
    unindent_text(text.as_str())
}

/// The registration of a trait handler's message.
fn trait_msg_registration_of(t: &String, short: &String, full: &String, h: &Handler) -> (r: String)
    ensures
        r@ == trait_msg_registration(t@, short@, full@, h@),
{
    let msg = msg_name_of(t, &h.name);
    let used = h.used_generics(short.clone(), full.clone(), true);
    let args = [("msg_name", msg.as_str()), ("used_generics", used.as_str())];
    assert(template_args(args@) =~= seq![("msg_name"@, msg@), ("used_generics"@, used@)]);
    fill_template(TRAIT_MESSAGE_REGISTRATION, &args)
}

/// The registration of a trait handler for an implementor.
fn implementor_handler_of(t: &String, short: &String, full: &String, h: &Handler) -> (r: String)
    requires
        h@.generable(),
    ensures
        r@ == implementor_handler(t@, short@, full@, h@),
{
    let msg = msg_name_of(t, &h.name);
    let used = h.used_generics(short.clone(), full.clone(), true);
    let used_tf = turbofish_of(&used);
    let margs = msg_args_of(&h.arguments);
    let params = handler_params_of(&h.arguments);
    let ret = maybe_return_of(h.returns_fate);
    let critical = bool_text_of(h.critical);
    let args = [
        ("msg_name", msg.as_str()),
        ("used_generics_turbofish", used_tf.as_str()),
        ("msg_args", margs.as_str()),
        ("handler_name", h.name.as_str()),
        ("handler_params", params.as_str()),
        ("maybe_return", ret),
        ("is_critical", critical),
    ];
    assert(template_args(args@) =~= seq![
        ("msg_name"@, msg@),
        ("used_generics_turbofish"@, used_tf@),
        ("msg_args"@, margs@),
        ("handler_name"@, h.name@),
        ("handler_params"@, params@),
        ("maybe_return"@, ret@),
        ("is_critical"@, critical@),
    ]);
    let text = fill_template(IMPLEMENTOR_HANDLER, &args);
    unindent_text(text.as_str())
}

/// The message struct of a trait handler.
fn trait_message_struct_of(t: &String, short: &String, full: &String, h: &Handler) -> (r: String)
    requires
        h@.generable(),
    ensures
        r@ == trait_message_struct(t@, short@, full@, h@),
{
    let types = msg_param_types_of(&h.arguments);
    let used = h.used_generics(short.clone(), full.clone(), false);
    let derives = msg_derives_of(&types, &used);
    let msg = msg_name_of(t, &h.name);
    let args = [
        ("msg_derives", derives),
        ("msg_name", msg.as_str()),
        ("used_generics", used.as_str()),
        ("msg_param_types", types.as_str()),
    ];
    assert(template_args(args@) =~= seq![
        ("msg_derives"@, derives@),
        ("msg_name"@, msg@),
        ("used_generics"@, used@),
        ("msg_param_types"@, types@),
    ]);
    let text = fill_template(TRAIT_MESSAGE_STRUCT, &args);
    unindent_text(text.as_str())
}

/// The marker field of an ID with generic parameters.
pub(crate) fn marker_field_of(full: &String, short: &String) -> (r: String)
    ensures
        forall|g: GenericsView|
            full_generics(g) == full@ && short_generics(g) == short@ ==> r@ == #[trigger] marker_field(g),
{
    proof {
        reveal_strlit("");
    }
    if full.unicode_len() == 0 {
        String::new()
    } else {
        let p = without_angles_of(short);
        let args = [("params", p.as_str())];
        assert(template_args(args@) =~= seq![("params"@, p@)]);
        fill_template(MARKER_FIELD, &args)
    }
}

/// The body of a representative.
fn marker_body_of(full: &String, short: &String) -> (r: String)
    ensures
        forall|g: GenericsView|
            full_generics(g) == full@ && short_generics(g) == short@ ==> r@ == #[trigger] marker_body(g),
{
    if full.unicode_len() == 0 {
        String::from_str(";")
    } else {
        let p = without_angles_of(short);
        let args = [("params", p.as_str())];
        assert(template_args(args@) =~= seq![("params"@, p@)]);
        fill_template(MARKER_BODY, &args)
    }
}

/// The marker's initialisation in an ID with generic parameters.
pub(crate) fn marker_init_of(full: &String) -> (r: &'static str)
    ensures
        forall|g: GenericsView| full_generics(g) == full@ ==> r@ == #[trigger] marker_init(g),
{
    if full.unicode_len() == 0 {
        ""
    } else {
        ", _marker: ::std::marker::PhantomData"
    }
}

/// The generic parameters with bounds, followed by `, `.
fn params_then_comma_of(full: &String) -> (r: String)
    ensures
        forall|g: GenericsView| full_generics(g) == full@ ==> r@ == #[trigger] params_then_comma(g),
{
    proof {
        reveal_strlit("");
    }
    if full.unicode_len() == 0 {
        String::new()
    } else {
        let mut p = without_angles_of(full);
        p.append(", ");
        p
    }
}

/// The code of one actor trait.
fn trait_definitions_of(t: &String, def: &TraitDef, serde: bool) -> (r: String)
    requires
        def@.generable(),
    ensures
        r@ == trait_definitions(t@, def@, serde),
{
    let derives = id_derives_of(serde);
    let ghost dv = def@;
    let short = to_short_generics(&def.generics);
    let full = to_full_generics(&def.generics);
    let ghost fs = |h: HandlerView| trait_send_method(t@, h);
    let ghost fr = |h: HandlerView| trait_msg_registration(t@, short@, full@, h);
    let ghost fi = |h: HandlerView| implementor_handler(t@, short@, full@, h);
    let ghost fm = |h: HandlerView| trait_message_struct(t@, short@, full@, h);
    let mut sends: Vec<String> = Vec::new();
    let mut regs: Vec<String> = Vec::new();
    let mut impls: Vec<String> = Vec::new();
    let mut structs: Vec<String> = Vec::new();
    let mut i: usize = 0;
    while i < def.handlers.len()
        invariant
            i <= def.handlers@.len(),
            dv == def@,
            def@.generable(),
            fs == (|h: HandlerView| trait_send_method(t@, h)),
            fr == (|h: HandlerView| trait_msg_registration(t@, short@, full@, h)),
            fi == (|h: HandlerView| implementor_handler(t@, short@, full@, h)),
            fm == (|h: HandlerView| trait_message_struct(t@, short@, full@, h)),
            views(sends@) == dv.handlers.take(i as int).map_values(fs),
            views(regs@) == dv.handlers.take(i as int).map_values(fr),
            views(impls@) == dv.handlers.take(i as int).map_values(fi),
            views(structs@) == dv.handlers.take(i as int).map_values(fm),
        decreases def.handlers@.len() - i,
    {
        proof {
            lemma_map_take_push(dv.handlers, fs, i as int);
            lemma_map_take_push(dv.handlers, fr, i as int);
            lemma_map_take_push(dv.handlers, fi, i as int);
            lemma_map_take_push(dv.handlers, fm, i as int);
            assert(dv.handlers[i as int].generable());
        }
        let h = &def.handlers[i];
        let a = trait_send_method_of(t, h);
        let b = trait_msg_registration_of(t, &short, &full, h);
        let c = implementor_handler_of(t, &short, &full, h);
        let d = trait_message_struct_of(t, &short, &full, h);
        proof {
            lemma_views_push(sends@, a);
            lemma_views_push(regs@, b);
            lemma_views_push(impls@, c);
            lemma_views_push(structs@, d);
        }
        sends.push(a);
        regs.push(b);
        impls.push(c);
        structs.push(d);
        i = i + 1;
    }
    assert(dv.handlers.take(dv.handlers.len() as int) =~= dv.handlers);
    let sends_text = ind(join_strings(&sends, "\n\n").as_str(), 5);
    let regs_text = ind(join_strings(&regs, "\n").as_str(), 6);
    let impls_text = ind(join_strings(&impls, "\n\n").as_str(), 6);
    let structs_text = ind(join_strings(&structs, "\n").as_str(), 4);
    let comma = params_then_comma_of(&full);
    let marker = marker_field_of(&full, &short);
    let body = marker_body_of(&full, &short);
    let init = marker_init_of(&full);
    let args = [
        ("trait_id_derives", derives),
        ("trait_name", t.as_str()),
        ("full_generics", full.as_str()),
        ("full_generics_inner_comma", comma.as_str()),
        ("short_generics", short.as_str()),
        ("maybe_marker", marker.as_str()),
        ("maybe_marker_only", body.as_str()),
        ("maybe_marker_init", init),
        ("handler_send_impls", sends_text.as_str()),
        ("trait_msg_registrations", regs_text.as_str()),
        ("implementor_handler_registrations", impls_text.as_str()),
        ("msg_struct_defs", structs_text.as_str()),
    ];
    assert(template_args(args@) =~= seq![
        ("trait_id_derives"@, derives@),
        ("trait_name"@, t@),
        ("full_generics"@, full@),
        ("full_generics_inner_comma"@, comma@),
        ("short_generics"@, short@),
        ("maybe_marker"@, marker@),
        ("maybe_marker_only"@, body@),
        ("maybe_marker_init"@, init@),
        ("handler_send_impls"@, sends_text@),
        ("trait_msg_registrations"@, regs_text@),
        ("implementor_handler_registrations"@, impls_text@),
        ("msg_struct_defs"@, structs_text@),
    ]);
    let text = fill_template(TRAIT_DEFINITIONS, &args);
    unindent_text(text.as_str())
}

/// The derives of a generated ID type.
pub(crate) fn id_derives_of(serde: bool) -> (r: &'static str)
    ensures
        r@ == id_derives(serde),
{
    if serde {
        "#[derive(Serialize, Deserialize)] #[serde(transparent)]"
    } else {
        ""
    }
}

impl Model {
    /// The code of all actor traits, in order.
    pub fn generate_traits(&self) -> (r: String)
        requires
            self@.traits_generable(),
        ensures
            r@ == traits_code(self@, false),
    {
        self.traits_code_of(false)
    }

    /// The code of all actor traits, in order, with serde's derives on the
    /// ID types where `serde` holds.
    pub(crate) fn traits_code_of(&self, serde: bool) -> (r: String)
        requires
            self@.traits_generable(),
        ensures
            r@ == traits_code(self@, serde),
    {
        let ghost m = self@;
        let ghost f = |e: (Seq<char>, TraitDefView)| trait_definitions(e.0, e.1, serde);
        let mut parts: Vec<String> = Vec::new();
        let n = trait_map_len(&self.traits);
        let mut i: usize = 0;
        while i < n
            invariant
                i <= n,
                n == m.traits.len(),
                m == self@,
                m.traits_generable(),
                f == (|e: (Seq<char>, TraitDefView)| trait_definitions(e.0, e.1, serde)),
                views(parts@) == m.traits.take(i as int).map_values(f),
            decreases n - i,
        {
            proof {
                lemma_map_take_push(m.traits, f, i as int);
            }
            let (k, d) = trait_map_get_index(&self.traits, i).unwrap();
            assert(m.traits[i as int].1.generable());
            let p = trait_definitions_of(k, d, serde);
            proof {
                lemma_views_push(parts@, p);
            }
            parts.push(p);
            i = i + 1;
        }
        assert(m.traits.take(n as int) =~= m.traits);
        join_strings(&parts, "\n")
    }
}

} // verus!
