//! Building the model from the syntax of a module: which methods are message
//! handlers, which types are actors, which traits are actor traits.
use vstd::prelude::*;
use crate::index_map::{
    actor_entries, actor_map_insert, actor_map_retain_active, inserted, key_index, lemma_key_index, lemma_key_index_push,
    lemma_key_index_update, trait_entries, trait_map_insert, trait_map_retain_active,
};
use crate::model::{
    empty_actor, empty_trait, handler_views, path_views, ActorDef, ActorDefView, Handler,
    HandlerType, HandlerView, Model, ModelView, TraitDef, TraitDefView,
};
use crate::syntax::{
    arg_views, opt_path_view, attribute_views, impl_item_views, parse_rust_file, paths_equal,
    rust_file_syntax, trait_item_views, AttributeSyntax, AttributeView, FileSyntax, FileView,
    FnArgSyntax, FnArgView, GenericsView, ImplItemSyntax, ImplItemView, ItemSyntax, ItemView,
    PathSegmentSyntax, PathSyntax, PathView, SegmentView, SignatureSyntax, SignatureView,
    TraitItemSyntax, TraitItemView, TypeSyntax, TypeView,
};
use crate::text::{keep_some, lemma_keep_some_push, lemma_take_push, same_text};

verus! {

// ---------------------------------------------------------------------------
// Specifications
// ---------------------------------------------------------------------------

/// The argument is `name: &mut ...::World`.
pub open spec fn is_world_mut_ref(arg: FnArgView) -> bool {
    match arg {
        FnArgView::Captured { ty: TypeView::Reference { mutable, elem, .. }, .. } => mutable && match *elem {
            TypeView::Path { path, .. } => path.last_ident() == "World"@,
            _ => false,
        },
        _ => false,
    }
}

/// Which handler a signature declares, if any, with the arguments after the
/// first: a method that takes `&self` (or `&mut self`) and, last, a
/// `&mut World` is a handler; a function that takes the `&mut World` last
/// and returns `Self` or the type `parent` is an init handler.
pub open spec fn handler_kind(sig: SignatureView, parent: PathView) -> Option<(Seq<FnArgView>, HandlerType)> {
    if sig.inputs.len() > 0 && is_world_mut_ref(sig.inputs.last()) {
        match sig.inputs[0] {
            FnArgView::SelfRef => Some((sig.inputs.skip(1), HandlerType::Handler)),
            FnArgView::SelfValue => None,
            _ => match sig.output {
                Some(TypeView::Path { path, .. }) => if path.last_ident() == "Self"@ || path == parent {
                    Some((sig.inputs.skip(1), HandlerType::Init))
                } else {
                    None
                },
                _ => None,
            },
        }
    } else {
        None
    }
}

/// Whether the handler returns a `Fate`: `Some(false)` when it returns
/// nothing, or when it is an init handler and the return type names no
/// `Fate`; `None` (no handler) when it returns anything else.
pub open spec fn returns_fate(sig: SignatureView, scope: HandlerType) -> Option<bool> {
    match sig.output {
        None => Some(false),
        Some(TypeView::Path { path, .. }) => if exists|i: int|
            0 <= i < path.segments.len() && #[trigger] path.segments[i].ident == "Fate"@ {
            Some(true)
        } else if scope == HandlerType::Init {
            Some(false)
        } else {
            None
        },
        Some(_) => None,
    }
}

/// Some attribute is the doc comment `/// Critical`, in the form that the
/// attribute's path prints with `{:?}` and its tokens print.
pub open spec fn is_critical(attrs: Seq<AttributeView>) -> bool {
    exists|i: int|
        0 <= i < attrs.len() && #[trigger] attrs[i].path_debug == "doc"@ && attrs[i].tokens
            == "/// Critical"@
}

/// The handler that a method declares, if it declares one.
pub open spec fn handler_of(
    sig: SignatureView,
    attrs: Seq<AttributeView>,
    from_trait: Option<PathView>,
    parent: PathView,
) -> Option<HandlerView> {
    match handler_kind(sig, parent) {
        Some((args, scope)) => match returns_fate(sig, scope) {
            Some(fate) => Some(
                HandlerView {
                    name: sig.ident,
                    arguments: args,
                    scope,
                    critical: is_critical(attrs),
                    returns_fate: fate,
                    from_trait,
                },
            ),
            None => None,
        },
        None => None,
    }
}

/// The handler that an impl item declares: a method of a trait
/// implementation, or a public method.
pub open spec fn impl_item_handler(item: ImplItemView, with_trait: Option<PathView>, parent: PathView) -> Option<HandlerView> {
    match item {
        ImplItemView::Method { public, sig, attrs } => if with_trait is Some || public {
            handler_of(sig, attrs, with_trait, parent)
        } else {
            None
        },
        ImplItemView::Other => None,
    }
}

/// The handlers of an `impl` block, in order.
pub open spec fn impl_handlers(items: Seq<ImplItemView>, with_trait: Option<PathView>, parent: PathView) -> Seq<HandlerView> {
    keep_some(items.map_values(|it: ImplItemView| impl_item_handler(it, with_trait, parent)))
}

/// The handler that a trait item declares.
pub open spec fn trait_item_handler(item: TraitItemView, parent: PathView) -> Option<HandlerView> {
    match item {
        TraitItemView::Method { sig } => handler_of(sig, seq![], None, parent),
        TraitItemView::Other => None,
    }
}

/// The handlers of a trait, in order.
pub open spec fn trait_handlers(items: Seq<TraitItemView>, parent: PathView) -> Seq<HandlerView> {
    keep_some(items.map_values(|it: TraitItemView| trait_item_handler(it, parent)))
}

/// The path made of one identifier.
pub open spec fn ident_path(ident: Seq<char>) -> PathView {
    PathView { leading_colon: false, segments: seq![SegmentView { ident, arguments: seq![] }] }
}

/// The traits whose implementations do not make a type an actor.
pub open spec fn is_std_trait(path: PathView) -> bool {
    let n = path.last_ident();
    n == "Deref"@ || n == "DerefMut"@ || n == "Default"@ || n == "Clone"@ || n == "Into"@ || n
        == "From"@ || n == "Add"@ || n == "AddAssign"@ || n == "Sum"@
}

/// The value under `k`, or `default` where there is none.
pub open spec fn current<V>(entries: Seq<(Seq<char>, V)>, k: Seq<char>, default: V) -> V {
    match key_index(entries, k) {
        Some(i) => entries[i].1,
        None => default,
    }
}

/// An actor after its struct was seen.
pub open spec fn with_struct(d: ActorDefView, generics: GenericsView) -> ActorDefView {
    ActorDefView { handlers: d.handlers, impls: d.impls, defined_here: true, generics }
}

/// An actor after one of its `impl` blocks was seen.
pub open spec fn with_impl(
    d: ActorDefView,
    trait_path: Option<PathView>,
    items: Seq<ImplItemView>,
    generics: GenericsView,
    parent: PathView,
) -> ActorDefView {
    ActorDefView {
        handlers: d.handlers + impl_handlers(items, trait_path, parent),
        impls: match trait_path {
            Some(t) => if is_std_trait(t) {
                d.impls
            } else {
                d.impls.push(t)
            },
            None => d.impls,
        },
        defined_here: d.defined_here,
        generics,
    }
}

/// A trait after its declaration was seen.
pub open spec fn with_trait(d: TraitDefView, ident: Seq<char>, items: Seq<TraitItemView>, generics: GenericsView) -> TraitDefView {
    TraitDefView { handlers: d.handlers + trait_handlers(items, ident_path(ident)), generics }
}

/// The actors after one more item.
pub open spec fn actor_step(actors: Seq<(Seq<char>, ActorDefView)>, item: ItemView) -> Seq<(Seq<char>, ActorDefView)> {
    match item {
        ItemView::Struct { ident, generics } => inserted(
            actors,
            ident,
            with_struct(current(actors, ident, empty_actor()), generics),
        ),
        ItemView::Impl { trait_path, self_ty, items, generics } => match self_ty {
            TypeView::Path { path, .. } => {
                let k = path.segments[0].ident;
                inserted(
                    actors,
                    k,
                    with_impl(current(actors, k, empty_actor()), trait_path, items, generics, path),
                )
            },
            _ => actors,
        },
        _ => actors,
    }
}

/// The traits after one more item.
pub open spec fn trait_step(traits: Seq<(Seq<char>, TraitDefView)>, item: ItemView) -> Seq<(Seq<char>, TraitDefView)> {
    match item {
        ItemView::Trait { ident, items, generics } => inserted(
            traits,
            ident,
            with_trait(current(traits, ident, empty_trait()), ident, items, generics),
        ),
        _ => traits,
    }
}

/// The actors, with or without handlers, that the items declare.
pub open spec fn actors_of(items: Seq<ItemView>) -> Seq<(Seq<char>, ActorDefView)>
    decreases items.len(),
{
    if items.len() == 0 {
        seq![]
    } else {
        actor_step(actors_of(items.drop_last()), items.last())
    }
}

/// The traits, with or without handlers, that the items declare.
pub open spec fn traits_of(items: Seq<ItemView>) -> Seq<(Seq<char>, TraitDefView)>
    decreases items.len(),
{
    if items.len() == 0 {
        seq![]
    } else {
        trait_step(traits_of(items.drop_last()), items.last())
    }
}

/// The model of a module: its actors that have a handler or an actor trait
/// implementation, and its traits that have a handler.
pub open spec fn model_of(file: FileView) -> ModelView {
    ModelView {
        actors: actors_of(file.items).filter(|e: (Seq<char>, ActorDefView)| e.1.is_active()),
        traits: traits_of(file.items).filter(|e: (Seq<char>, TraitDefView)| e.1.is_active()),
    }
}

// ---------------------------------------------------------------------------
// Executable functions
// ---------------------------------------------------------------------------

/// Whether the last segment of `path` is `name`.
fn last_ident_is(path: &PathSyntax, name: &str) -> (r: bool)
    requires
        path@.segments.len() > 0,
    ensures
        r == (path@.last_ident() == name@),
{
    let n = path.segments.len();
    same_text(path.segments[n - 1].ident.as_str(), name)
}

/// Whether some segment of `path` is `name`.
fn some_segment_is(path: &PathSyntax, name: &str) -> (r: bool)
    ensures
        r == exists|i: int| 0 <= i < path@.segments.len() && #[trigger] path@.segments[i].ident == name@,
{
    let mut i: usize = 0;
    while i < path.segments.len()
        invariant
            i <= path.segments@.len(),
            forall|k: int| 0 <= k < i ==> #[trigger] path@.segments[k].ident != name@,
        decreases path.segments@.len() - i,
    {
        if same_text(path.segments[i].ident.as_str(), name) {
            assert(path@.segments[i as int].ident == name@);
            return true;
        }
        i = i + 1;
    }
    false
}

/// The arguments after the first.
fn args_after_first(args: &Vec<FnArgSyntax>) -> (r: Vec<FnArgSyntax>)
    requires
        args@.len() > 0,
    ensures
        arg_views(r@) == arg_views(args@).skip(1),
{
    let mut r: Vec<FnArgSyntax> = Vec::new();
    let mut i: usize = 1;
    while i < args.len()
        invariant
            1 <= i <= args@.len(),
            arg_views(r@) == arg_views(args@).subrange(1, i as int),
        decreases args@.len() - i,
    {
        let a = args[i].clone();
        proof {
            assert(arg_views(r@.push(a)) =~= arg_views(r@).push(a@));
            assert(arg_views(args@).subrange(1, i + 1) =~= arg_views(args@).subrange(1, i as int).push(
                args@[i as int]@,
            ));
        }
        r.push(a);
        i = i + 1;
    }
    assert(arg_views(args@).subrange(1, args@.len() as int) =~= arg_views(args@).skip(1));
    r
}

/// Whether the argument is `name: &mut ...::World`.
fn is_world_arg(arg: &FnArgSyntax) -> (r: bool)
    requires
        arg@.paths_ok(),
    ensures
        r == is_world_mut_ref(arg@),
{
    proof {
        reveal_with_fuel(crate::syntax::type_view, 2);
        reveal_with_fuel(TypeView::paths_ok, 2);
    }
    match arg {
        FnArgSyntax::Captured { ty: TypeSyntax::Reference { mutable, elem, .. }, .. } => {
            if !*mutable {
                return false;
            }
            match &**elem {
                TypeSyntax::Path { path, .. } => last_ident_is(path, "World"),
                _ => false,
            }
        },
        _ => false,
    }
}

/// Which handler a signature declares, if any, with the arguments after the
/// first (see `handler_kind`).
pub fn check_handler(sig: &SignatureSyntax, parent_path: &PathSyntax) -> (r: Option<(Vec<FnArgSyntax>, HandlerType)>)
    requires
        sig@.paths_ok(),
    ensures
        match r {
            Some((args, scope)) => handler_kind(sig@, parent_path@) == Some((arg_views(args@), scope)),
            None => handler_kind(sig@, parent_path@) is None,
        },
{
    let n = sig.inputs.len();
    if n == 0 {
        return None;
    }
    assert(sig@.inputs[n - 1].paths_ok());
    if !is_world_arg(&sig.inputs[n - 1]) {
        return None;
    }
    match &sig.inputs[0] {
        FnArgSyntax::SelfRef => Some((args_after_first(&sig.inputs), HandlerType::Handler)),
        FnArgSyntax::SelfValue => None,
        _ => match &sig.output {
            Some(TypeSyntax::Path { path, .. }) => {
                assert(sig@.output matches Some(t) && t.paths_ok());
                if last_ident_is(path, "Self") || paths_equal(path, parent_path) {
                    Some((args_after_first(&sig.inputs), HandlerType::Init))
                } else {
                    None
                }
            },
            _ => None,
        },
    }
}

/// Whether some attribute is the doc comment `/// Critical`.
fn critical_attr(attrs: &[AttributeSyntax]) -> (r: bool)
    ensures
        r == is_critical(attribute_views(attrs@)),
{
    let mut i: usize = 0;
    while i < attrs.len()
        invariant
            i <= attrs@.len(),
            forall|k: int|
                0 <= k < i ==> !(#[trigger] attribute_views(attrs@)[k].path_debug == "doc"@
                    && attribute_views(attrs@)[k].tokens == "/// Critical"@),
        decreases attrs@.len() - i,
    {
        if same_text(attrs[i].path_debug.as_str(), "doc") && same_text(
            attrs[i].tokens.as_str(),
            "/// Critical",
        ) {
            assert(attribute_views(attrs@)[i as int].path_debug == "doc"@);
            return true;
        }
        i = i + 1;
    }
    false
}

/// The handler that a method declares, if it declares one.
fn handler_from(
    sig: &SignatureSyntax,
    attrs: &[AttributeSyntax],
    from_trait: &Option<PathSyntax>,
    parent_path: &PathSyntax,
) -> (r: Option<Handler>)
    requires
        sig@.paths_ok(),
    ensures
        r matches Some(h) ==> handler_of(sig@, attribute_views(attrs@), opt_path_view(*from_trait), parent_path@) == Some(h@),
        r is None ==> handler_of(sig@, attribute_views(attrs@), opt_path_view(*from_trait), parent_path@) is None,
{
    let (args, scope) = match check_handler(sig, parent_path) {
        Some(found) => found,
        None => {
            return None;
        },
    };
    let fate = match &sig.output {
        None => false,
        Some(TypeSyntax::Path { path, .. }) => {
            if some_segment_is(path, "Fate") {
                true
            } else if scope == HandlerType::Init {
                false
            } else {
                return None;
            }
        },
        Some(_) => {
            return None;
        },
    };
    let critical = critical_attr(attrs);
    let from = match from_trait {
        Some(p) => Some(p.clone()),
        None => None,
    };
    let h = Handler {
        name: sig.ident.clone(),
        arguments: args,
        scope,
        critical,
        returns_fate: fate,
        from_trait: from,
    };
    assert(h@.from_trait == opt_path_view(*from_trait));
    Some(h)
}

/// The handlers of an `impl` block, in order.
fn handlers_from_impl_items(
    impl_items: &[ImplItemSyntax],
    with_trait: &Option<PathSyntax>,
    parent_path: &PathSyntax,
) -> (r: Vec<Handler>)
    requires
        forall|i: int| 0 <= i < impl_items@.len() ==> #[trigger] impl_item_views(impl_items@)[i].paths_ok(),
    ensures
        handler_views(r@) == impl_handlers(
            impl_item_views(impl_items@),
            opt_path_view(*with_trait),
            parent_path@,
        ),
{
    let ghost wt = opt_path_view(*with_trait);
    let ghost f = |it: ImplItemView| impl_item_handler(it, wt, parent_path@);
    let mut r: Vec<Handler> = Vec::new();
    let mut i: usize = 0;
    while i < impl_items.len()
        invariant
            i <= impl_items@.len(),
            wt == opt_path_view(*with_trait),
            f == (|it: ImplItemView| impl_item_handler(it, wt, parent_path@)),
            forall|k: int| 0 <= k < impl_items@.len() ==> #[trigger] impl_item_views(impl_items@)[k].paths_ok(),
            handler_views(r@) == keep_some(impl_item_views(impl_items@).take(i as int).map_values(f)),
        decreases impl_items@.len() - i,
    {
        let ghost views = impl_item_views(impl_items@);
        proof {
            lemma_take_push(views, i as int);
            assert(views.take(i + 1).map_values(f) =~= views.take(i as int).map_values(f).push(
                f(views[i as int]),
            ));
            lemma_keep_some_push(views.take(i as int).map_values(f), f(views[i as int]));
            assert(views[i as int].paths_ok());
        }
        let found = match &impl_items[i] {
            ImplItemSyntax::Method { public, sig, attrs } => {
                if with_trait.is_some() || *public {
                    handler_from(sig, attrs.as_slice(), with_trait, parent_path)
                } else {
                    None
                }
            },
            ImplItemSyntax::Other => None,
        };
        match found {
            Some(h) => {
                assert(handler_views(r@.push(h)) =~= handler_views(r@).push(h@));
                r.push(h);
            },
            None => {},
        }
        i = i + 1;
    }
    assert(impl_item_views(impl_items@).take(impl_items@.len() as int) =~= impl_item_views(impl_items@));
    r
}

/// The handlers of a trait, in order.
fn handlers_from_trait_items(trait_items: &[TraitItemSyntax], parent_path: &PathSyntax) -> (r: Vec<Handler>)
    requires
        forall|i: int| 0 <= i < trait_items@.len() ==> #[trigger] trait_item_views(trait_items@)[i].paths_ok(),
    ensures
        handler_views(r@) == trait_handlers(trait_item_views(trait_items@), parent_path@),
{
    let ghost f = |it: TraitItemView| trait_item_handler(it, parent_path@);
    let no_attrs: Vec<AttributeSyntax> = Vec::new();
    assert(attribute_views(no_attrs@) =~= Seq::<AttributeView>::empty());
    let mut r: Vec<Handler> = Vec::new();
    let mut i: usize = 0;
    while i < trait_items.len()
        invariant
            i <= trait_items@.len(),
            f == (|it: TraitItemView| trait_item_handler(it, parent_path@)),
            attribute_views(no_attrs@) == Seq::<AttributeView>::empty(),
            forall|k: int| 0 <= k < trait_items@.len() ==> #[trigger] trait_item_views(trait_items@)[k].paths_ok(),
            handler_views(r@) == keep_some(trait_item_views(trait_items@).take(i as int).map_values(f)),
        decreases trait_items@.len() - i,
    {
        let ghost views = trait_item_views(trait_items@);
        proof {
            lemma_take_push(views, i as int);
            assert(views.take(i + 1).map_values(f) =~= views.take(i as int).map_values(f).push(
                f(views[i as int]),
            ));
            lemma_keep_some_push(views.take(i as int).map_values(f), f(views[i as int]));
            assert(views[i as int].paths_ok());
        }
        let found = match &trait_items[i] {
            TraitItemSyntax::Method { sig } => handler_from(sig, no_attrs.as_slice(), &None, parent_path),
            TraitItemSyntax::Other => None,
        };
        match found {
            Some(h) => {
                assert(handler_views(r@.push(h)) =~= handler_views(r@).push(h@));
                r.push(h);
            },
            None => {},
        }
        i = i + 1;
    }
    assert(trait_item_views(trait_items@).take(trait_items@.len() as int) =~= trait_item_views(trait_items@));
    r
}

/// Whether the trait is one whose implementations do not make a type an
/// actor.
fn std_trait(path: &PathSyntax) -> (r: bool)
    requires
        path@.segments.len() > 0,
    ensures
        r == is_std_trait(path@),
{
    last_ident_is(path, "Deref") || last_ident_is(path, "DerefMut") || last_ident_is(path, "Default")
        || last_ident_is(path, "Clone") || last_ident_is(path, "Into") || last_ident_is(path, "From")
        || last_ident_is(path, "Add") || last_ident_is(path, "AddAssign") || last_ident_is(path, "Sum")
}

/// Inserting twice under one key leaves what the second insertion put.
proof fn lemma_insert_twice<V>(e: Seq<(Seq<char>, V)>, k: Seq<char>, a: V, b: V)
    ensures
        inserted(inserted(e, k, a), k, b) == inserted(e, k, b),
{
    lemma_key_index(e, k);
    match key_index(e, k) {
        Some(i) => {
            lemma_key_index_update(e, k, i, a);
            assert(e.update(i, (k, a)).update(i, (k, b)) =~= e.update(i, (k, b)));
        },
        None => {
            lemma_key_index_push(e, k, a);
            assert(e.push((k, a)).update(e.len() as int, (k, b)) =~= e.push((k, b)));
        },
    }
}

/// The path made of one identifier.
fn path_of_ident(ident: &String) -> (r: PathSyntax)
    ensures
        r@ == ident_path(ident@),
{
    let mut segments: Vec<PathSegmentSyntax> = Vec::new();
    segments.push(PathSegmentSyntax { ident: ident.clone(), arguments: String::new() });
    let r = PathSyntax { leading_colon: false, segments };
    assert(r@.segments =~= ident_path(ident@).segments);
    r
}

/// The model of a module whose items are all supported.
pub fn model_from_syntax(file: &FileSyntax) -> (r: Model)
    requires
        file@.supported(),
    ensures
        r@ == model_of(file@),
{
    let mut model = Model::default();
    assert(actor_entries(model.actors) =~= actors_of(file@.items.take(0)));
    assert(trait_entries(model.traits) =~= traits_of(file@.items.take(0)));
    let mut i: usize = 0;
    while i < file.items.len()
        invariant
            i <= file.items@.len(),
            file@.supported(),
            actor_entries(model.actors) == actors_of(file@.items.take(i as int)),
            trait_entries(model.traits) == traits_of(file@.items.take(i as int)),
        decreases file.items@.len() - i,
    {
        let ghost items = file@.items;
        let ghost actors = actor_entries(model.actors);
        let ghost traits = trait_entries(model.traits);
        proof {
            lemma_take_push(items, i as int);
            assert(items.take(i + 1).drop_last() =~= items.take(i as int));
            assert(items[i as int].supported());
        }
        match &file.items[i] {
            ItemSyntax::Struct { ident, generics } => {
                let old = actor_map_insert(&mut model.actors, ident.clone(), ActorDef::default());
                let mut d = match old {
                    Some(d) => d,
                    None => ActorDef::default(),
                };
                d.defined_here = true;
                d.generics = generics.clone();
                proof {
                    lemma_insert_twice(actors, ident@, empty_actor(), d@);
                }
                actor_map_insert(&mut model.actors, ident.clone(), d);
            },
            ItemSyntax::Impl { trait_path, self_ty, items: impl_items, generics } => {
                assert(file.items@[i as int]@.supported());
                assert(file.items@[i as int]@ matches ItemView::Impl { items: its, .. } && its
                    == impl_item_views(impl_items@));
                let path = match self_ty {
                    TypeSyntax::Path { path, .. } => path,
                    _ => {
                        assert(false);
                        return model;
                    },
                };
                let key = path.segments[0].ident.clone();
                let old = actor_map_insert(&mut model.actors, key.clone(), ActorDef::default());
                let mut d = match old {
                    Some(d) => d,
                    None => ActorDef::default(),
                };
                let ghost d0 = d@;
                d.generics = generics.clone();
                let with = match trait_path {
                    Some(t) => Some(t.clone()),
                    None => None,
                };
                let mut new_handlers = handlers_from_impl_items(impl_items.as_slice(), &with, path);
                let ghost hv = handler_views(d.handlers@);
                let ghost nv = handler_views(new_handlers@);
                d.handlers.append(&mut new_handlers);
                assert(handler_views(d.handlers@) =~= hv + nv);
                if let Some(t) = trait_path {
                    if !std_trait(t) {
                        let ghost iv = path_views(d.impls@);
                        d.impls.push(t.clone());
                        assert(path_views(d.impls@) =~= iv.push(t@));
                    }
                }
                proof {
                    assert(d@ == with_impl(d0, opt_path_view(*trait_path), impl_item_views(impl_items@), generics@, path@));
                    lemma_insert_twice(actors, key@, empty_actor(), d@);
                }
                actor_map_insert(&mut model.actors, key, d);
            },
            ItemSyntax::Trait { ident, items: trait_items, generics } => {
                assert(file.items@[i as int]@.supported());
                assert(file.items@[i as int]@ matches ItemView::Trait { items: its, .. } && its
                    == trait_item_views(trait_items@));
                let old = trait_map_insert(&mut model.traits, ident.clone(), TraitDef::default());
                let mut d = match old {
                    Some(d) => d,
                    None => TraitDef::default(),
                };
                let parent = path_of_ident(ident);
                let mut new_handlers = handlers_from_trait_items(trait_items.as_slice(), &parent);
                let ghost hv = handler_views(d.handlers@);
                let ghost nv = handler_views(new_handlers@);
                d.handlers.append(&mut new_handlers);
                assert(handler_views(d.handlers@) =~= hv + nv);
                d.generics = generics.clone();
                proof {
                    lemma_insert_twice(traits, ident@, empty_trait(), d@);
                }
                trait_map_insert(&mut model.traits, ident.clone(), d);
            },
            ItemSyntax::Other => {},
        }
        i = i + 1;
    }
    assert(file@.items.take(file.items@.len() as int) =~= file@.items);
    actor_map_retain_active(&mut model.actors);
    trait_map_retain_active(&mut model.traits);
    model
}

/// Reads the model of a module from its source text, or gives back the
/// syntax error of text that is not valid Rust. Every `impl` block of valid
/// text must be for a type named by a path.
pub fn parse(file: &str) -> (r: Result<Model, syn::Error>)
    requires
        rust_file_syntax(file@) matches Some(f) ==> f.impls_on_paths(),
    ensures
        match rust_file_syntax(file@) {
            Some(f) => r matches Ok(m) && m@ == model_of(f),
            None => r is Err,
        },
{
    let parsed = match parse_rust_file(file) {
        Ok(parsed) => parsed,
        Err(e) => {
            return Err(e);
        },
    };
    proof {
        parsed@.lemma_supported();
    }
    Ok(model_from_syntax(&parsed))
}

} // verus!
