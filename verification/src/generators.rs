//! Generating the code that registers and addresses actors and actor traits.
use vstd::prelude::*;
use crate::model::{ActorDefView, Handler, HandlerType, HandlerView, Model, ModelView, TraitDefView};
use crate::syntax::{
    arg_views, FnArgSyntax, FnArgView, GenericsSyntax, GenericsView, PatSyntax, PatView,
    PathSyntax, PathView, TypeSyntax, TypeView,
};
use crate::index_map::{actor_map_get_index, actor_map_len, trait_map_get_index, trait_map_len};
use crate::model::ActorDef;
use crate::templates::{
    ACTOR_SETUP, HANDLER_REGISTRATION, IMPL_REGISTRATION, SETUP_FUNCTION, SPAWNER_REGISTRATION,
    TRAIT_REGISTRATION,
};
use crate::text::{
    template_args, fill, fill_template, unindent_text, unindented,
    contains, contains_text, join, join_strings, keep_some, lemma_keep_some_push,
    lemma_take_push, lines, lines_of, opt_view, push_char, replace, replace_all, spaces, split_by,
    split_text, trim_start, trim_start_char, views,
};

verus! {

// ---------------------------------------------------------------------------
// Small pieces
// ---------------------------------------------------------------------------

/// The separator that indents a line by `levels` levels of four spaces.
pub open spec fn indent_sep(levels: nat) -> Seq<char> {
    seq!['\n'] + spaces(4 * levels)
}

/// The block with every line but the first indented by `levels` levels of
/// four spaces (the lines as `str::lines` yields them, joined again).
pub open spec fn indented(block: Seq<char>, levels: nat) -> Seq<char> {
    join(lines_of(block), indent_sep(levels))
}

/// Indents all lines of `block` but the first by `levels` levels of four
/// spaces.
pub fn ind(block: &str, levels: usize) -> (r: String)
    ensures
        r@ == indented(block@, levels as nat),
{
    let mut sep = String::new();
    push_char(&mut sep, '\n');
    let mut i: usize = 0;
    while i < levels
        invariant
            i <= levels,
            sep@ == indent_sep(i as nat),
        decreases levels - i,
    {
        proof {
            assert(indent_sep((i + 1) as nat) =~= indent_sep(i as nat).push(' ').push(' ').push(
                ' ',
            ).push(' '));
        }
        push_char(&mut sep, ' ');
        push_char(&mut sep, ' ');
        push_char(&mut sep, ' ');
        push_char(&mut sep, ' ');
        i = i + 1;
    }
    let ls = lines(block);
    join_strings(&ls, sep.as_str())
}

/// `s` with `::` in front, unless it is empty.
pub open spec fn turbofish(s: Seq<char>) -> Seq<char> {
    if s.len() == 0 {
        s
    } else {
        "::"@ + s
    }
}

/// `s` in angle brackets, unless it is empty.
pub open spec fn angled(s: Seq<char>) -> Seq<char> {
    if s.len() == 0 {
        s
    } else {
        "<"@ + s + ">"@
    }
}

/// `s` without angle brackets.
pub open spec fn without_angles(s: Seq<char>) -> Seq<char> {
    replace_all(replace_all(s, "<"@, ""@), ">"@, ""@)
}

/// Token text with the spaces inside `< ... >` and before `,` removed.
pub open spec fn tidy_arguments(s: Seq<char>) -> Seq<char> {
    replace_all(replace_all(replace_all(s, "< "@, "<"@), " >"@, ">"@), " ,"@, ","@)
}

/// Token text of generics with the spaces inside `< ... >` and before `:`
/// and `,` removed.
pub open spec fn tidy_generics(s: Seq<char>) -> Seq<char> {
    replace_all(replace_all(replace_all(replace_all(s, "< "@, "<"@), " >"@, ">"@), " :"@, ":"@), " ,"@, ","@)
}

/// The generics as they follow a type's name, such as `<A, B>`.
pub open spec fn short_generics(g: GenericsView) -> Seq<char> {
    tidy_generics(g.type_generics)
}

/// The generics as they follow `impl`, with bounds, such as
/// `<A: Compact, B: Compact>`.
pub open spec fn full_generics(g: GenericsView) -> Seq<char> {
    tidy_generics(g.impl_generics)
}

/// The generic arguments of the last segment of a path, such as
/// `<usize, isize>`.
pub open spec fn path_generics(p: PathView) -> Seq<char> {
    tidy_arguments(p.segments.last().arguments)
}

/// The identifiers of a path joined with `::`.
pub open spec fn path_text(p: PathView) -> Seq<char> {
    join(p.segments.map_values(|s: crate::syntax::SegmentView| s.ident), "::"@)
}

/// The name of a handler's message type.
pub open spec fn msg_name(owner: Seq<char>, handler: Seq<char>) -> Seq<char> {
    "MSG_"@ + owner + "_"@ + handler
}

/// Replaces every occurrence of a non-empty `from` by `to`.
pub(crate) fn replace_in(s: &String, from: &str, to: &str) -> (r: String)
    requires
        from@.len() > 0,
    ensures
        r@ == replace_all(s@, from@, to@),
{
    replace(s.as_str(), from, to)
}

/// `s` with `::` in front, unless it is empty.
pub(crate) fn turbofish_of(s: &String) -> (r: String)
    ensures
        r@ == turbofish(s@),
{
    if s.unicode_len() == 0 {
        s.clone()
    } else {
        let mut r = String::from_str("::");
        r.append(s.as_str());
        r
    }
}

/// `s` in angle brackets, unless it is empty.
pub(crate) fn angled_of(s: &String) -> (r: String)
    ensures
        r@ == angled(s@),
{
    if s.unicode_len() == 0 {
        s.clone()
    } else {
        let mut r = String::from_str("<");
        r.append(s.as_str());
        r.append(">");
        r
    }
}

/// `s` without angle brackets.
pub(crate) fn without_angles_of(s: &String) -> (r: String)
    ensures
        r@ == without_angles(s@),
{
    proof {
        reveal_strlit("<");
        reveal_strlit(">");
    }
    let a = replace_in(s, "<", "");
    replace_in(&a, ">", "")
}

/// Token text of generics with the spaces inside `< ... >` and before `:`
/// and `,` removed.
pub(crate) fn tidy_generics_of(s: &String) -> (r: String)
    ensures
        r@ == tidy_generics(s@),
{
    proof {
        reveal_strlit("< ");
        reveal_strlit(" >");
        reveal_strlit(" :");
        reveal_strlit(" ,");
    }
    let a = replace_in(s, "< ", "<");
    let b = replace_in(&a, " >", ">");
    let c = replace_in(&b, " :", ":");
    replace_in(&c, " ,", ",")
}

/// The generics as they follow a type's name (`<A, B>`).
pub fn to_short_generics(generics: &GenericsSyntax) -> (r: String)
    ensures
        r@ == short_generics(generics@),
{
    tidy_generics_of(&generics.type_generics)
}

/// The generics as they follow `impl`, with bounds (`<A: Compact, B: Compact>`).
pub fn to_full_generics(generics: &GenericsSyntax) -> (r: String)
    ensures
        r@ == full_generics(generics@),
{
    tidy_generics_of(&generics.impl_generics)
}

/// The generic arguments of the last segment of a path.
pub fn generics_from_path(path: &PathSyntax) -> (r: String)
    requires
        path@.segments.len() > 0,
    ensures
        r@ == path_generics(path@),
{
    proof {
        reveal_strlit("< ");
        reveal_strlit(" >");
        reveal_strlit(" ,");
    }
    let n = path.segments.len();
    let a = replace_in(&path.segments[n - 1].arguments, "< ", "<");
    let b = replace_in(&a, " >", ">");
    replace_in(&b, " ,", ",")
}

/// The identifiers of a path joined with `::`.
pub fn pth(path: &PathSyntax) -> (r: String)
    ensures
        r@ == path_text(path@),
{
    let mut parts: Vec<String> = Vec::new();
    let mut i: usize = 0;
    let ghost idents = path@.segments.map_values(|s: crate::syntax::SegmentView| s.ident);
    while i < path.segments.len()
        invariant
            i <= path.segments@.len(),
            idents == path@.segments.map_values(|s: crate::syntax::SegmentView| s.ident),
            views(parts@) == idents.take(i as int),
        decreases path.segments@.len() - i,
    {
        proof {
            lemma_take_push(idents, i as int);
        }
        let s = path.segments[i].ident.clone();
        assert(views(parts@.push(s)) =~= views(parts@).push(s@));
        parts.push(s);
        i = i + 1;
    }
    assert(idents.take(idents.len() as int) =~= idents);
    join_strings(&parts, "::")
}

/// The name of a handler's message type.
pub(crate) fn msg_name_of(owner: &String, handler: &String) -> (r: String)
    ensures
        r@ == msg_name(owner@, handler@),
{
    let mut r = String::from_str("MSG_");
    r.append(owner.as_str());
    r.append("_");
    r.append(handler.as_str());
    r
}

// ---------------------------------------------------------------------------
// Arguments
// ---------------------------------------------------------------------------

/// The type is `World`, behind any number of references.
pub open spec fn is_world_type(t: TypeView) -> bool
    decreases t,
{
    match t {
        TypeView::Reference { elem, .. } => is_world_type(*elem),
        TypeView::Path { path, .. } => path.last_ident() == "World"@,
        TypeView::Other { .. } => false,
    }
}

/// Whether the type is `World`, behind any number of references.
pub fn is_type_world(ty: &TypeSyntax) -> (r: bool)
    requires
        ty@.paths_ok(),
    ensures
        r == is_world_type(ty@),
    decreases ty,
{
    match ty {
        TypeSyntax::Reference { elem, .. } => is_type_world(elem),
        TypeSyntax::Path { path, .. } => {
            let n = path.segments.len();
            crate::text::same_text(path.segments[n - 1].ident.as_str(), "World")
        },
        TypeSyntax::Other { .. } => false,
    }
}

/// The name by which generated code refers to an argument: its name without
/// leading underscores, or `world` for `_: &mut World`, or `_`.
pub open spec fn pat_ident(pat: PatView, ty: TypeView) -> Seq<char> {
    match pat {
        PatView::Ident(i) => trim_start(i, '_'),
        PatView::Wild => if is_world_type(ty) {
            "world"@
        } else {
            "_"@
        },
        PatView::Other => seq![],
    }
}

/// The name by which generated code refers to an argument.
pub fn arg_pat_to_ident(pat: &PatSyntax, ty: &TypeSyntax) -> (r: String)
    requires
        !(pat@ is Other),
        ty@.paths_ok(),
    ensures
        r@ == pat_ident(pat@, ty@),
{
    match pat {
        PatSyntax::Ident(i) => trim_start_char(i.as_str(), '_'),
        PatSyntax::Wild => if is_type_world(ty) {
            String::from_str("world")
        } else {
            String::from_str("_")
        },
        PatSyntax::Other => String::new(),
    }
}

/// The name of an argument, where it is one the generator can handle.
pub open spec fn arg_ident(arg: FnArgView) -> Seq<char> {
    match arg {
        FnArgView::Captured { pat, ty } => pat_ident(pat, ty),
        _ => seq![],
    }
}

/// How a message pattern binds the argument: `ref name` for a reference,
/// `name` for a value; nothing for the world.
pub open spec fn bind_without_world(arg: FnArgView) -> Option<Seq<char>> {
    match arg {
        FnArgView::Captured { pat, ty } => match ty {
            TypeView::Reference { .. } => if is_world_type(ty) {
                None
            } else {
                Some("ref "@ + pat_ident(pat, ty))
            },
            _ => Some(pat_ident(pat, ty)),
        },
        _ => None,
    }
}

/// How a message pattern binds the argument (`None` for the world).
pub fn arg_ref_to_bind_as_ref_without_world(arg: &FnArgSyntax) -> (r: Option<String>)
    requires
        arg@.generable(),
    ensures
        opt_view(r) == bind_without_world(arg@),
{
    match arg {
        FnArgSyntax::Captured { pat, ty } => {
            let ident = arg_pat_to_ident(pat, ty);
            match ty {
                TypeSyntax::Reference { .. } => if is_type_world(ty) {
                    None
                } else {
                    let mut r = String::from_str("ref ");
                    r.append(ident.as_str());
                    Some(r)
                },
                _ => Some(ident),
            }
        },
        _ => None,
    }
}

/// The argument as a parameter of a sending method: `name: Type`, with a
/// referenced type taken by value and the world as `&mut World`.
pub open spec fn ident_val_and_type(arg: FnArgView) -> Seq<char> {
    match arg {
        FnArgView::Captured { pat, ty } => {
            let ty_text = match ty {
                TypeView::Reference { elem, .. } => if is_world_type(ty) {
                    "&mut World"@
                } else {
                    elem.tokens()
                },
                _ => ty.tokens(),
            };
            pat_ident(pat, ty) + ": "@ + ty_text
        },
        _ => seq![],
    }
}

/// The argument as a parameter of a sending method.
pub fn arg_as_ident_val_and_type(arg: &FnArgSyntax) -> (r: String)
    requires
        arg@.generable(),
    ensures
        r@ == ident_val_and_type(arg@),
{
    match arg {
        FnArgSyntax::Captured { pat, ty } => {
            let ty_string = match ty {
                TypeSyntax::Reference { elem, .. } => if is_type_world(ty) {
                    String::from_str("&mut World")
                } else {
                    elem.tokens().clone()
                },
                _ => ty.tokens().clone(),
            };
            let mut r = arg_pat_to_ident(pat, ty);
            r.append(": ");
            r.append(ty_string.as_str());
            r
        },
        _ => String::new(),
    }
}

/// The name by which generated code refers to the argument.
pub fn arg_as_value(arg: &FnArgSyntax) -> (r: String)
    requires
        arg@.generable(),
    ensures
        r@ == arg_ident(arg@),
{
    match arg {
        FnArgSyntax::Captured { pat, ty } => arg_pat_to_ident(pat, ty),
        _ => String::new(),
    }
}

/// The argument's name, unless it is the world.
pub open spec fn value_without_world(arg: FnArgView) -> Option<Seq<char>> {
    match arg {
        FnArgView::Captured { pat, ty } => if is_world_type(ty) {
            None
        } else {
            Some(pat_ident(pat, ty))
        },
        _ => None,
    }
}

/// The argument's name, unless it is the world.
pub fn arg_as_value_without_world(arg: &FnArgSyntax) -> (r: Option<String>)
    requires
        arg@.generable(),
    ensures
        opt_view(r) == value_without_world(arg@),
{
    match arg {
        FnArgSyntax::Captured { pat, ty } => if is_type_world(ty) {
            None
        } else {
            Some(arg_pat_to_ident(pat, ty))
        },
        _ => None,
    }
}

/// The argument's type as a public field of a message, with a referenced
/// type taken by value; nothing for the world.
pub open spec fn pub_type_without_world(arg: FnArgView) -> Option<Seq<char>> {
    match arg {
        FnArgView::Captured { ty, .. } => if is_world_type(ty) {
            None
        } else {
            Some(
                "pub "@ + match ty {
                    TypeView::Reference { elem, .. } => elem.tokens(),
                    _ => ty.tokens(),
                },
            )
        },
        _ => None,
    }
}

/// The argument's type as a public field of a message (`None` for the
/// world).
pub fn arg_as_pub_type_without_world(arg: &FnArgSyntax) -> (r: Option<String>)
    requires
        arg@.generable(),
    ensures
        opt_view(r) == pub_type_without_world(arg@),
{
    match arg {
        FnArgSyntax::Captured { ty, .. } => if is_type_world(ty) {
            None
        } else {
            let t = match ty {
                TypeSyntax::Reference { elem, .. } => elem.tokens(),
                _ => ty.tokens(),
            };
            let mut r = String::from_str("pub ");
            r.append(t.as_str());
            Some(r)
        },
        _ => None,
    }
}

// ---------------------------------------------------------------------------
// Generics that a handler uses
// ---------------------------------------------------------------------------

/// Some argument's type mentions `name` in its tokens.
pub open spec fn mentions(args: Seq<FnArgView>, name: Seq<char>) -> bool {
    exists|i: int| 0 <= i < args.len() && #[trigger] arg_mentions(args[i], name)
}

/// The argument's type mentions `name` in its tokens.
pub open spec fn arg_mentions(arg: FnArgView, name: Seq<char>) -> bool {
    arg matches FnArgView::Captured { ty, .. } && contains(ty.tokens(), name)
}

/// The generic parameters that a handler's messages need: for a handler,
/// those of `short` (or, with their bounds, of `full`) that some argument's
/// type mentions, in angle brackets; for an init handler, all of them.
pub open spec fn used_generics_of(h: HandlerView, short: Seq<char>, full: Seq<char>, return_short: bool) -> Seq<char> {
    match h.scope {
        HandlerType::Handler => {
            let longs = split_by(without_angles(full), ", "@);
            let shorts = split_by(without_angles(short), ", "@);
            let n = if longs.len() < shorts.len() {
                longs.len()
            } else {
                shorts.len()
            };
            let picked = keep_some(
                Seq::new(
                    n,
                    |i: int|
                        if mentions(h.arguments, shorts[i]) {
                            Some(
                                if return_short {
                                    shorts[i]
                                } else {
                                    longs[i]
                                },
                            )
                        } else {
                            None
                        },
                ),
            );
            angled(join(picked, ", "@))
        },
        HandlerType::Init => if return_short {
            short
        } else {
            full
        },
    }
}

/// A sequence of mapped values grows by the mapped next value.
pub proof fn lemma_map_take_push<A, B>(s: Seq<A>, f: spec_fn(A) -> B, i: int)
    requires
        0 <= i < s.len(),
    ensures
        s.take(i + 1).map_values(f) == s.take(i).map_values(f).push(f(s[i])),
{
    assert(s.take(i + 1).map_values(f) =~= s.take(i).map_values(f).push(f(s[i])));
}

/// Pushing a string pushes its view.
pub proof fn lemma_views_push(v: Seq<String>, s: String)
    ensures
        views(v.push(s)) == views(v).push(s@),
{
    assert(views(v.push(s)) =~= views(v).push(s@));
}

impl Handler {
    /// Whether some argument's type mentions `name`.
    fn mentions(&self, name: &String) -> (r: bool)
        ensures
            r == mentions(self@.arguments, name@),
    {
        let mut i: usize = 0;
        while i < self.arguments.len()
            invariant
                i <= self.arguments@.len(),
                forall|k: int| 0 <= k < i ==> !#[trigger] arg_mentions(self@.arguments[k], name@),
            decreases self.arguments@.len() - i,
        {
            let m = match &self.arguments[i] {
                FnArgSyntax::Captured { ty, .. } => contains_text(ty.tokens().as_str(), name.as_str()),
                _ => false,
            };
            if m {
                assert(arg_mentions(self@.arguments[i as int], name@));
                return true;
            }
            i = i + 1;
        }
        false
    }

    /// The generic parameters that the handler's messages need (see
    /// `used_generics_of`).
    pub fn used_generics(&self, short_generics: String, full_generics: String, return_short: bool) -> (r: String)
        ensures
            r@ == used_generics_of(self@, short_generics@, full_generics@, return_short),
    {
        match self.scope {
            HandlerType::Handler => {
                proof {
                    reveal_strlit(", ");
                }
                let longs = split_text(without_angles_of(&full_generics).as_str(), ", ");
                let shorts = split_text(without_angles_of(&short_generics).as_str(), ", ");
                let n = if longs.len() < shorts.len() {
                    longs.len()
                } else {
                    shorts.len()
                };
                let ghost lv = views(longs@);
                let ghost sv = views(shorts@);
                let ghost f = |i: int|
                    if mentions(self@.arguments, sv[i]) {
                        Some(
                            if return_short {
                                sv[i]
                            } else {
                                lv[i]
                            },
                        )
                    } else {
                        None
                    };
                let mut picked: Vec<String> = Vec::new();
                let mut i: usize = 0;
                while i < n
                    invariant
                        i <= n,
                        n <= longs@.len(),
                        n <= shorts@.len(),
                        lv == views(longs@),
                        sv == views(shorts@),
                        f == (|i: int|
                            if mentions(self@.arguments, sv[i]) {
                                Some(
                                    if return_short {
                                        sv[i]
                                    } else {
                                        lv[i]
                                    },
                                )
                            } else {
                                None
                            }),
                        views(picked@) == keep_some(Seq::new(i as nat, f)),
                    decreases n - i,
                {
                    proof {
                        assert(Seq::new((i + 1) as nat, f) =~= Seq::new(i as nat, f).push(f(i as int)));
                        lemma_keep_some_push(Seq::new(i as nat, f), f(i as int));
                    }
                    if self.mentions(&shorts[i]) {
                        let p = if return_short {
                            shorts[i].clone()
                        } else {
                            longs[i].clone()
                        };
                        proof {
                            lemma_views_push(picked@, p);
                        }
                        picked.push(p);
                    }
                    i = i + 1;
                }
                let inner = join_strings(&picked, ", ");
                angled_of(&inner)
            },
            HandlerType::Init => if return_short {
                short_generics
            } else {
                full_generics
            },
        }
    }
}

// ---------------------------------------------------------------------------
// The setup function
// ---------------------------------------------------------------------------

/// `"true"` or `"false"`.
pub open spec fn bool_text(b: bool) -> Seq<char> {
    if b {
        "true"@
    } else {
        "false"@
    }
}

/// What follows a call of a handler that returns no `Fate`.
pub open spec fn maybe_return(returns_fate: bool) -> Seq<char> {
    if returns_fate {
        ""@
    } else {
        "; Fate::Live"@
    }
}

/// The arguments as a message pattern binds them, without the world.
pub open spec fn msg_args(args: Seq<FnArgView>) -> Seq<char> {
    join(keep_some(args.map_values(|a: FnArgView| bind_without_world(a))), ", "@)
}

/// The arguments as a call passes them.
pub open spec fn handler_params(args: Seq<FnArgView>) -> Seq<char> {
    join(args.map_values(|a: FnArgView| arg_ident(a)), ", "@)
}

/// The registration of an actor trait.
pub open spec fn trait_registration(name: Seq<char>, def: TraitDefView) -> Seq<char> {
    fill(
        TRAIT_REGISTRATION@,
        seq![("trait_name"@, name), ("short_generics_turbofish"@, turbofish(short_generics(def.generics)))],
    )
}

/// The registration of an actor as an implementor of a trait.
pub open spec fn impl_registration(actor: Seq<char>, t: PathView) -> Seq<char> {
    fill(
        IMPL_REGISTRATION@,
        seq![
            ("trait_name"@, path_text(t)),
            ("impl_generics_turbofish"@, turbofish(path_generics(t))),
            ("actor_name"@, actor),
        ],
    )
}

/// The registration of a handler or spawner of an actor.
pub open spec fn handler_registration(actor: Seq<char>, generics: GenericsView, h: HandlerView) -> Seq<char> {
    let short = short_generics(generics);
    let full = full_generics(generics);
    let used = used_generics_of(h, short, full, true);
    match h.scope {
        HandlerType::Handler => unindented(
            fill(
                HANDLER_REGISTRATION@,
                seq![
                    ("actor_name"@, actor),
                    ("short_generics"@, short),
                    ("msg_name"@, msg_name(actor, h.name)),
                    ("used_generics_turbofish"@, turbofish(used)),
                    ("msg_args"@, msg_args(h.arguments)),
                    ("handler_name"@, h.name),
                    ("handler_params"@, handler_params(h.arguments)),
                    ("maybe_return"@, maybe_return(h.returns_fate)),
                    ("is_critical"@, bool_text(h.critical)),
                ],
            ),
        ),
        HandlerType::Init => unindented(
            fill(
                SPAWNER_REGISTRATION@,
                seq![
                    ("actor_name"@, actor),
                    ("short_generics"@, short),
                    ("short_generics_turbofish"@, turbofish(short)),
                    ("msg_name"@, msg_name(actor, h.name)),
                    ("used_generics_turbofish"@, turbofish(used)),
                    ("msg_args"@, msg_args(h.arguments)),
                    ("handler_name"@, h.name),
                    ("handler_params"@, handler_params(h.arguments)),
                    ("is_critical"@, bool_text(h.critical)),
                ],
            ),
        ),
    }
}

/// The registration of a handler that no trait declares.
pub open spec fn own_handler_registration(actor: Seq<char>, generics: GenericsView, h: HandlerView) -> Option<Seq<char>> {
    if h.from_trait is None {
        Some(handler_registration(actor, generics, h))
    } else {
        None
    }
}

/// The setup of one actor: its trait implementations, then its own
/// handlers.
pub open spec fn actor_setup(actor: Seq<char>, def: ActorDefView) -> Seq<char> {
    let impl_regs = join(def.impls.map_values(|t: PathView| impl_registration(actor, t)), "\n"@);
    let handler_regs = join(
        keep_some(def.handlers.map_values(|h: HandlerView| own_handler_registration(actor, def.generics, h))),
        "\n\n"@,
    );
    unindented(
        fill(
            ACTOR_SETUP@,
            seq![("impl_registrations"@, indented(impl_regs, 4)), ("handler_registrations"@, indented(handler_regs, 4))],
        ),
    )
}

/// The generic parameters, with bounds and without angle brackets, if
/// there are any.
pub open spec fn generic_params(g: GenericsView) -> Option<Seq<char>> {
    if full_generics(g).len() == 0 {
        None
    } else {
        Some(without_angles(full_generics(g)))
    }
}

/// The generic parameters of all actors, then of all traits, in angle
/// brackets.
pub open spec fn all_generics(m: ModelView) -> Seq<char> {
    angled(
        join(
            keep_some(m.actors.map_values(|e: (Seq<char>, ActorDefView)| generic_params(e.1.generics)))
                + keep_some(m.traits.map_values(|e: (Seq<char>, TraitDefView)| generic_params(e.1.generics))),
            ", "@,
        ),
    )
}

/// The setup function, which registers every trait, then every actor.
pub open spec fn setup_of(m: ModelView) -> Seq<char> {
    let trait_regs = join(m.traits.map_values(|e: (Seq<char>, TraitDefView)| trait_registration(e.0, e.1)), "\n"@);
    let actor_setups = join(m.actors.map_values(|e: (Seq<char>, ActorDefView)| actor_setup(e.0, e.1)), "\n"@);
    unindented(
        fill(
            SETUP_FUNCTION@,
            seq![
                ("trait_registrations"@, indented(trait_regs, 4)),
                ("actor_setups"@, indented(actor_setups, 4)),
                ("all_generics"@, all_generics(m)),
            ],
        ),
    )
}

/// `"true"` or `"false"`.
pub(crate) fn bool_text_of(b: bool) -> (r: &'static str)
    ensures
        r@ == bool_text(b),
{
    if b {
        "true"
    } else {
        "false"
    }
}

/// What follows a call of a handler that returns no `Fate`.
pub(crate) fn maybe_return_of(returns_fate: bool) -> (r: &'static str)
    ensures
        r@ == maybe_return(returns_fate),
{
    if returns_fate {
        ""
    } else {
        "; Fate::Live"
    }
}

/// The arguments as a message pattern binds them, without the world.
pub(crate) fn msg_args_of(args: &Vec<FnArgSyntax>) -> (r: String)
    requires
        forall|i: int| 0 <= i < args@.len() ==> #[trigger] arg_views(args@)[i].generable(),
    ensures
        r@ == msg_args(arg_views(args@)),
{
    let ghost av = arg_views(args@);
    let ghost f = |a: FnArgView| bind_without_world(a);
    let mut parts: Vec<String> = Vec::new();
    let mut i: usize = 0;
    while i < args.len()
        invariant
            i <= args@.len(),
            av == arg_views(args@),
            f == (|a: FnArgView| bind_without_world(a)),
            forall|k: int| 0 <= k < args@.len() ==> #[trigger] arg_views(args@)[k].generable(),
            views(parts@) == keep_some(av.take(i as int).map_values(f)),
        decreases args@.len() - i,
    {
        proof {
            lemma_map_take_push(av, f, i as int);
            lemma_keep_some_push(av.take(i as int).map_values(f), f(av[i as int]));
            assert(av[i as int].generable());
        }
        match arg_ref_to_bind_as_ref_without_world(&args[i]) {
            Some(b) => {
                proof {
                    lemma_views_push(parts@, b);
                }
                parts.push(b);
            },
            None => {},
        }
        i = i + 1;
    }
    assert(av.take(av.len() as int) =~= av);
    proof {
        reveal_strlit(", ");
    }
    join_strings(&parts, ", ")
}

/// The arguments as a call passes them.
pub(crate) fn handler_params_of(args: &Vec<FnArgSyntax>) -> (r: String)
    requires
        forall|i: int| 0 <= i < args@.len() ==> #[trigger] arg_views(args@)[i].generable(),
    ensures
        r@ == handler_params(arg_views(args@)),
{
    let ghost av = arg_views(args@);
    let ghost f = |a: FnArgView| arg_ident(a);
    let mut parts: Vec<String> = Vec::new();
    let mut i: usize = 0;
    while i < args.len()
        invariant
            i <= args@.len(),
            av == arg_views(args@),
            f == (|a: FnArgView| arg_ident(a)),
            forall|k: int| 0 <= k < args@.len() ==> #[trigger] arg_views(args@)[k].generable(),
            views(parts@) == av.take(i as int).map_values(f),
        decreases args@.len() - i,
    {
        proof {
            lemma_map_take_push(av, f, i as int);
            assert(av[i as int].generable());
        }
        let v = arg_as_value(&args[i]);
        proof {
            lemma_views_push(parts@, v);
        }
        parts.push(v);
        i = i + 1;
    }
    assert(av.take(av.len() as int) =~= av);
    join_strings(&parts, ", ")
}

/// The arguments as parameters of a sending method.
pub open spec fn handler_args(args: Seq<FnArgView>) -> Seq<char> {
    join(args.map_values(|a: FnArgView| ident_val_and_type(a)), ", "@)
}

/// The arguments that a sending method puts in the message, without the
/// world.
pub open spec fn msg_params(args: Seq<FnArgView>) -> Seq<char> {
    join(keep_some(args.map_values(|a: FnArgView| value_without_world(a))), ", "@)
}

/// The fields of a message, without the world.
pub open spec fn msg_param_types(args: Seq<FnArgView>) -> Seq<char> {
    join(keep_some(args.map_values(|a: FnArgView| pub_type_without_world(a))), ", "@)
}

/// The derives of a message: `Copy` where it has no fields and no generic
/// parameters, `Compact` otherwise.
pub open spec fn msg_derives(param_types: Seq<char>, used_generics: Seq<char>) -> Seq<char> {
    if param_types.len() == 0 && used_generics.len() == 0 {
        "#[derive(Copy, Clone)]"@
    } else {
        "#[derive(Compact, Clone)]"@
    }
}

/// The arguments as parameters of a sending method.
pub(crate) fn handler_args_of(args: &Vec<FnArgSyntax>) -> (r: String)
    requires
        forall|i: int| 0 <= i < args@.len() ==> #[trigger] arg_views(args@)[i].generable(),
    ensures
        r@ == handler_args(arg_views(args@)),
{
    let ghost av = arg_views(args@);
    let ghost f = |a: FnArgView| ident_val_and_type(a);
    let mut parts: Vec<String> = Vec::new();
    let mut i: usize = 0;
    while i < args.len()
        invariant
            i <= args@.len(),
            av == arg_views(args@),
            f == (|a: FnArgView| ident_val_and_type(a)),
            forall|k: int| 0 <= k < args@.len() ==> #[trigger] arg_views(args@)[k].generable(),
            views(parts@) == av.take(i as int).map_values(f),
        decreases args@.len() - i,
    {
        proof {
            lemma_map_take_push(av, f, i as int);
            assert(av[i as int].generable());
        }
        let v = arg_as_ident_val_and_type(&args[i]);
        proof {
            lemma_views_push(parts@, v);
        }
        parts.push(v);
        i = i + 1;
    }
    assert(av.take(av.len() as int) =~= av);
    join_strings(&parts, ", ")
}

/// The arguments that a sending method puts in the message.
pub(crate) fn msg_params_of(args: &Vec<FnArgSyntax>) -> (r: String)
    requires
        forall|i: int| 0 <= i < args@.len() ==> #[trigger] arg_views(args@)[i].generable(),
    ensures
        r@ == msg_params(arg_views(args@)),
{
    let ghost av = arg_views(args@);
    let ghost f = |a: FnArgView| value_without_world(a);
    let mut parts: Vec<String> = Vec::new();
    let mut i: usize = 0;
    while i < args.len()
        invariant
            i <= args@.len(),
            av == arg_views(args@),
            f == (|a: FnArgView| value_without_world(a)),
            forall|k: int| 0 <= k < args@.len() ==> #[trigger] arg_views(args@)[k].generable(),
            views(parts@) == keep_some(av.take(i as int).map_values(f)),
        decreases args@.len() - i,
    {
        proof {
            lemma_map_take_push(av, f, i as int);
            lemma_keep_some_push(av.take(i as int).map_values(f), f(av[i as int]));
            assert(av[i as int].generable());
        }
        match arg_as_value_without_world(&args[i]) {
            Some(v) => {
                proof {
                    lemma_views_push(parts@, v);
                }
                parts.push(v);
            },
            None => {},
        }
        i = i + 1;
    }
    assert(av.take(av.len() as int) =~= av);
    join_strings(&parts, ", ")
}

/// The fields of a message.
pub(crate) fn msg_param_types_of(args: &Vec<FnArgSyntax>) -> (r: String)
    requires
        forall|i: int| 0 <= i < args@.len() ==> #[trigger] arg_views(args@)[i].generable(),
    ensures
        r@ == msg_param_types(arg_views(args@)),
{
    let ghost av = arg_views(args@);
    let ghost f = |a: FnArgView| pub_type_without_world(a);
    let mut parts: Vec<String> = Vec::new();
    let mut i: usize = 0;
    while i < args.len()
        invariant
            i <= args@.len(),
            av == arg_views(args@),
            f == (|a: FnArgView| pub_type_without_world(a)),
            forall|k: int| 0 <= k < args@.len() ==> #[trigger] arg_views(args@)[k].generable(),
            views(parts@) == keep_some(av.take(i as int).map_values(f)),
        decreases args@.len() - i,
    {
        proof {
            lemma_map_take_push(av, f, i as int);
            lemma_keep_some_push(av.take(i as int).map_values(f), f(av[i as int]));
            assert(av[i as int].generable());
        }
        match arg_as_pub_type_without_world(&args[i]) {
            Some(v) => {
                proof {
                    lemma_views_push(parts@, v);
                }
                parts.push(v);
            },
            None => {},
        }
        i = i + 1;
    }
    assert(av.take(av.len() as int) =~= av);
    join_strings(&parts, ", ")
}

/// The derives of a message.
pub(crate) fn msg_derives_of(param_types: &String, used_generics: &String) -> (r: &'static str)
    ensures
        r@ == msg_derives(param_types@, used_generics@),
{
    if param_types.unicode_len() == 0 && used_generics.unicode_len() == 0 {
        "#[derive(Copy, Clone)]"
    } else {
        "#[derive(Compact, Clone)]"
    }
}

/// The registration of an actor trait.
fn trait_registration_of(name: &String, generics: &GenericsSyntax) -> (r: String)
    ensures
        forall|d: TraitDefView| d.generics == generics@ ==> r@ == #[trigger] trait_registration(name@, d),
{
    let short = to_short_generics(generics);
    let tf = turbofish_of(&short);
    let args = [("trait_name", name.as_str()), ("short_generics_turbofish", tf.as_str())];
    assert(template_args(args@) =~= seq![("trait_name"@, name@), ("short_generics_turbofish"@, tf@)]);
    fill_template(TRAIT_REGISTRATION, &args)
}

/// The registration of an actor as an implementor of a trait.
fn impl_registration_of(actor: &String, t: &PathSyntax) -> (r: String)
    requires
        t@.segments.len() > 0,
    ensures
        r@ == impl_registration(actor@, t@),
{
    let g = generics_from_path(t);
    let tf = turbofish_of(&g);
    let tn = pth(t);
    let args = [("trait_name", tn.as_str()), ("impl_generics_turbofish", tf.as_str()), ("actor_name", actor.as_str())];
    assert(template_args(args@) =~= seq![
        ("trait_name"@, tn@),
        ("impl_generics_turbofish"@, tf@),
        ("actor_name"@, actor@),
    ]);
    fill_template(IMPL_REGISTRATION, &args)
}

/// The registration of a handler or spawner of an actor.
fn handler_registration_of(actor: &String, generics: &GenericsSyntax, h: &Handler) -> (r: String)
    requires
        h@.generable(),
    ensures
        r@ == handler_registration(actor@, generics@, h@),
{
    let short = to_short_generics(generics);
    let full = to_full_generics(generics);
    let used = h.used_generics(short.clone(), full, true);
    let used_tf = turbofish_of(&used);
    let msg = msg_name_of(actor, &h.name);
    let margs = msg_args_of(&h.arguments);
    let params = handler_params_of(&h.arguments);
    let critical = bool_text_of(h.critical);
    match h.scope {
        HandlerType::Handler => {
            let ret = maybe_return_of(h.returns_fate);
            let args = [
                ("actor_name", actor.as_str()),
                ("short_generics", short.as_str()),
                ("msg_name", msg.as_str()),
                ("used_generics_turbofish", used_tf.as_str()),
                ("msg_args", margs.as_str()),
                ("handler_name", h.name.as_str()),
                ("handler_params", params.as_str()),
                ("maybe_return", ret),
                ("is_critical", critical),
            ];
            assert(template_args(args@) =~= seq![
                ("actor_name"@, actor@),
                ("short_generics"@, short@),
                ("msg_name"@, msg@),
                ("used_generics_turbofish"@, used_tf@),
                ("msg_args"@, margs@),
                ("handler_name"@, h.name@),
                ("handler_params"@, params@),
                ("maybe_return"@, ret@),
                ("is_critical"@, critical@),
            ]);
            let text = fill_template(HANDLER_REGISTRATION, &args);
            unindent_text(text.as_str())
        },
        HandlerType::Init => {
            let short_tf = turbofish_of(&short);
            let args = [
                ("actor_name", actor.as_str()),
                ("short_generics", short.as_str()),
                ("short_generics_turbofish", short_tf.as_str()),
                ("msg_name", msg.as_str()),
                ("used_generics_turbofish", used_tf.as_str()),
                ("msg_args", margs.as_str()),
                ("handler_name", h.name.as_str()),
                ("handler_params", params.as_str()),
                ("is_critical", critical),
            ];
            assert(template_args(args@) =~= seq![
                ("actor_name"@, actor@),
                ("short_generics"@, short@),
                ("short_generics_turbofish"@, short_tf@),
                ("msg_name"@, msg@),
                ("used_generics_turbofish"@, used_tf@),
                ("msg_args"@, margs@),
                ("handler_name"@, h.name@),
                ("handler_params"@, params@),
                ("is_critical"@, critical@),
            ]);
            let text = fill_template(SPAWNER_REGISTRATION, &args);
            unindent_text(text.as_str())
        },
    }
}

/// The setup of one actor.
fn actor_setup_of(actor: &String, def: &ActorDef) -> (r: String)
    requires
        def@.generable(),
    ensures
        r@ == actor_setup(actor@, def@),
{
    let ghost dv = def@;
    // trait implementations
    let ghost fi = |t: PathView| impl_registration(actor@, t);
    let mut impl_parts: Vec<String> = Vec::new();
    let mut i: usize = 0;
    while i < def.impls.len()
        invariant
            i <= def.impls@.len(),
            dv == def@,
            def@.generable(),
            fi == (|t: PathView| impl_registration(actor@, t)),
            views(impl_parts@) == dv.impls.take(i as int).map_values(fi),
        decreases def.impls@.len() - i,
    {
        proof {
            lemma_map_take_push(dv.impls, fi, i as int);
            assert(dv.impls[i as int].segments.len() > 0);
        }
        let p = impl_registration_of(actor, &def.impls[i]);
        proof {
            lemma_views_push(impl_parts@, p);
        }
        impl_parts.push(p);
        i = i + 1;
    }
    assert(dv.impls.take(dv.impls.len() as int) =~= dv.impls);
    // handlers that no trait declares
    let ghost fh = |h: HandlerView| own_handler_registration(actor@, dv.generics, h);
    let mut handler_parts: Vec<String> = Vec::new();
    let mut j: usize = 0;
    while j < def.handlers.len()
        invariant
            j <= def.handlers@.len(),
            dv == def@,
            def@.generable(),
            fh == (|h: HandlerView| own_handler_registration(actor@, dv.generics, h)),
            views(handler_parts@) == keep_some(dv.handlers.take(j as int).map_values(fh)),
        decreases def.handlers@.len() - j,
    {
        proof {
            lemma_map_take_push(dv.handlers, fh, j as int);
            lemma_keep_some_push(dv.handlers.take(j as int).map_values(fh), fh(dv.handlers[j as int]));
        }
        if def.handlers[j].from_trait.is_none() {
            assert(dv.handlers[j as int].generable());
            let p = handler_registration_of(actor, &def.generics, &def.handlers[j]);
            proof {
                lemma_views_push(handler_parts@, p);
            }
            handler_parts.push(p);
        }
        j = j + 1;
    }
    assert(dv.handlers.take(dv.handlers.len() as int) =~= dv.handlers);
    let impl_regs = join_strings(&impl_parts, "\n");
    let handler_regs = join_strings(&handler_parts, "\n\n");
    let a = ind(impl_regs.as_str(), 4);
    let b = ind(handler_regs.as_str(), 4);
    let args = [("impl_registrations", a.as_str()), ("handler_registrations", b.as_str())];
    assert(template_args(args@) =~= seq![("impl_registrations"@, a@), ("handler_registrations"@, b@)]);
    let text = fill_template(ACTOR_SETUP, &args);
    unindent_text(text.as_str())
}

/// The generic parameters, with bounds and without angle brackets, if
/// there are any.
fn generic_params_of(g: &GenericsSyntax) -> (r: Option<String>)
    ensures
        opt_view(r) == generic_params(g@),
{
    let full = to_full_generics(g);
    if full.unicode_len() == 0 {
        None
    } else {
        Some(without_angles_of(&full))
    }
}

impl Model {
    /// The setup function, which registers every trait, then every actor.
    pub fn generate_setups(&self) -> (r: String)
        requires
            self@.actors_generable(),
        ensures
            r@ == setup_of(self@),
    {
        let ghost m = self@;
        // trait registrations
        let ghost ft = |e: (Seq<char>, TraitDefView)| trait_registration(e.0, e.1);
        let mut trait_parts: Vec<String> = Vec::new();
        let nt = trait_map_len(&self.traits);
        let mut i: usize = 0;
        while i < nt
            invariant
                i <= nt,
                nt == m.traits.len(),
                m == self@,
                ft == (|e: (Seq<char>, TraitDefView)| trait_registration(e.0, e.1)),
                views(trait_parts@) == m.traits.take(i as int).map_values(ft),
            decreases nt - i,
        {
            proof {
                lemma_map_take_push(m.traits, ft, i as int);
            }
            let (k, d) = trait_map_get_index(&self.traits, i).unwrap();
            let p = trait_registration_of(k, &d.generics);
            proof {
                assert(p@ == trait_registration(k@, d@));
                lemma_views_push(trait_parts@, p);
            }
            trait_parts.push(p);
            i = i + 1;
        }
        assert(m.traits.take(nt as int) =~= m.traits);
        // actor setups
        let ghost fa = |e: (Seq<char>, ActorDefView)| actor_setup(e.0, e.1);
        let mut actor_parts: Vec<String> = Vec::new();
        let na = actor_map_len(&self.actors);
        let mut j: usize = 0;
        while j < na
            invariant
                j <= na,
                na == m.actors.len(),
                m == self@,
                m.actors_generable(),
                fa == (|e: (Seq<char>, ActorDefView)| actor_setup(e.0, e.1)),
                views(actor_parts@) == m.actors.take(j as int).map_values(fa),
            decreases na - j,
        {
            proof {
                lemma_map_take_push(m.actors, fa, j as int);
            }
            let (k, d) = actor_map_get_index(&self.actors, j).unwrap();
            assert(m.actors[j as int].1.generable());
            let p = actor_setup_of(k, d);
            proof {
                lemma_views_push(actor_parts@, p);
            }
            actor_parts.push(p);
            j = j + 1;
        }
        assert(m.actors.take(na as int) =~= m.actors);
        // generic parameters
        let ghost ga = |e: (Seq<char>, ActorDefView)| generic_params(e.1.generics);
        let ghost gt = |e: (Seq<char>, TraitDefView)| generic_params(e.1.generics);
        let mut params: Vec<String> = Vec::new();
        let mut j: usize = 0;
        while j < na
            invariant
                j <= na,
                na == m.actors.len(),
                m == self@,
                ga == (|e: (Seq<char>, ActorDefView)| generic_params(e.1.generics)),
                views(params@) == keep_some(m.actors.take(j as int).map_values(ga)),
            decreases na - j,
        {
            proof {
                lemma_map_take_push(m.actors, ga, j as int);
                lemma_keep_some_push(m.actors.take(j as int).map_values(ga), ga(m.actors[j as int]));
            }
            let (_, d) = actor_map_get_index(&self.actors, j).unwrap();
            match generic_params_of(&d.generics) {
                Some(p) => {
                    proof {
                        lemma_views_push(params@, p);
                    }
                    params.push(p);
                },
                None => {},
            }
            j = j + 1;
        }
        assert(m.actors.take(na as int) =~= m.actors);
        let ghost actor_params = views(params@);
        let mut i: usize = 0;
        while i < nt
            invariant
                i <= nt,
                nt == m.traits.len(),
                m == self@,
                gt == (|e: (Seq<char>, TraitDefView)| generic_params(e.1.generics)),
                views(params@) == actor_params + keep_some(m.traits.take(i as int).map_values(gt)),
            decreases nt - i,
        {
            proof {
                lemma_map_take_push(m.traits, gt, i as int);
                lemma_keep_some_push(m.traits.take(i as int).map_values(gt), gt(m.traits[i as int]));
            }
            let (_, d) = trait_map_get_index(&self.traits, i).unwrap();
            match generic_params_of(&d.generics) {
                Some(p) => {
                    proof {
                        lemma_views_push(params@, p);
                        assert(actor_params + keep_some(m.traits.take(i as int).map_values(gt)).push(p@)
                            =~= (actor_params + keep_some(m.traits.take(i as int).map_values(gt))).push(p@));
                    }
                    params.push(p);
                },
                None => {},
            }
            i = i + 1;
        }
        assert(m.traits.take(nt as int) =~= m.traits);
        let inner = join_strings(&params, ", ");
        let all = angled_of(&inner);
        let trait_regs = join_strings(&trait_parts, "\n");
        let actor_setups = join_strings(&actor_parts, "\n");
        let a = ind(trait_regs.as_str(), 4);
        let b = ind(actor_setups.as_str(), 4);
        let args = [("trait_registrations", a.as_str()), ("actor_setups", b.as_str()), ("all_generics", all.as_str())];
        assert(template_args(args@) =~= seq![
            ("trait_registrations"@, a@),
            ("actor_setups"@, b@),
            ("all_generics"@, all@),
        ]);
        let text = fill_template(SETUP_FUNCTION, &args);
        unindent_text(text.as_str())
    }
}

} // verus!
