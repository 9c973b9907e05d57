//! The model that the parser builds and the generator reads: the actors and
//! actor traits of a module, with their message handlers.
use vstd::prelude::*;
use indexmap::IndexMap;
use crate::syntax::{
    arg_views, opt_path_view, FnArgSyntax, FnArgView, GenericsSyntax, GenericsView, PatSyntax,
    PathSyntax, PathView,
};
use crate::index_map::{actor_map_get_index, actor_map_len, trait_map_get_index, trait_map_len};

verus! {

/// Whether a handler handles messages to an existing actor, or creates one.
#[derive(Copy, Clone, PartialEq, Eq, Debug, Structural)]
pub enum HandlerType {
    Handler,
    Init,
}

/// A message handler: a method whose last argument is `&mut World`.
#[derive(Debug)]
pub struct Handler {
    pub name: String,
    /// The arguments after the first one (`&self` for a handler, the new
    /// actor's id for an init handler).
    pub arguments: Vec<FnArgSyntax>,
    pub scope: HandlerType,
    pub critical: bool,
    pub returns_fate: bool,
    /// The trait whose implementation declares the handler, if any.
    pub from_trait: Option<PathSyntax>,
}

pub struct HandlerView {
    pub name: Seq<char>,
    pub arguments: Seq<FnArgView>,
    pub scope: HandlerType,
    pub critical: bool,
    pub returns_fate: bool,
    pub from_trait: Option<PathView>,
}

impl View for Handler {
    type V = HandlerView;

    open spec fn view(&self) -> HandlerView {
        HandlerView {
            name: self.name@,
            arguments: arg_views(self.arguments@),
            scope: self.scope,
            critical: self.critical,
            returns_fate: self.returns_fate,
            from_trait: opt_path_view(self.from_trait),
        }
    }
}

/// The views of handlers.
pub open spec fn handler_views(s: Seq<Handler>) -> Seq<HandlerView> {
    s.map_values(|h: Handler| h@)
}

/// The views of paths.
pub open spec fn path_views(s: Seq<PathSyntax>) -> Seq<PathView> {
    s.map_values(|p: PathSyntax| p@)
}

impl Clone for Handler {
    fn clone(&self) -> (r: Self)
        ensures
            r@ == self@,
    {
        let arguments = self.arguments.clone();
        assert(arg_views(arguments@) =~= arg_views(self.arguments@));
        let from_trait = match &self.from_trait {
            Some(p) => Some(p.clone()),
            None => None,
        };
        Handler {
            name: self.name.clone(),
            arguments,
            scope: self.scope,
            critical: self.critical,
            returns_fate: self.returns_fate,
            from_trait,
        }
    }
}

/// An actor: a type with handlers or trait implementations.
#[derive(Debug)]
pub struct ActorDef {
    pub handlers: Vec<Handler>,
    /// The actor traits that the type implements.
    pub impls: Vec<PathSyntax>,
    /// Whether the type's struct is declared in the module.
    pub defined_here: bool,
    pub generics: GenericsSyntax,
}

pub struct ActorDefView {
    pub handlers: Seq<HandlerView>,
    pub impls: Seq<PathView>,
    pub defined_here: bool,
    pub generics: GenericsView,
}

impl View for ActorDef {
    type V = ActorDefView;

    open spec fn view(&self) -> ActorDefView {
        ActorDefView {
            handlers: handler_views(self.handlers@),
            impls: path_views(self.impls@),
            defined_here: self.defined_here,
            generics: self.generics@,
        }
    }
}

/// An actor with no handlers, no trait implementations and no generics,
/// whose struct is not declared in the module.
pub open spec fn empty_actor() -> ActorDefView {
    ActorDefView {
        handlers: seq![],
        impls: seq![],
        defined_here: false,
        generics: GenericsView { impl_generics: seq![], type_generics: seq![] },
    }
}

impl Default for ActorDef {
    fn default() -> (r: Self)
        ensures
            r@ == empty_actor(),
    {
        let r = ActorDef {
            handlers: Vec::new(),
            impls: Vec::new(),
            defined_here: false,
            generics: GenericsSyntax::empty(),
        };
        assert(r@.handlers =~= Seq::<HandlerView>::empty());
        assert(r@.impls =~= Seq::<PathView>::empty());
        assert(r@.generics.impl_generics =~= Seq::<char>::empty());
        assert(r@.generics.type_generics =~= Seq::<char>::empty());
        r
    }
}

impl ActorDef {
    /// Whether the actor has a handler or a trait implementation.
    pub fn is_active(&self) -> (r: bool)
        ensures
            r == self@.is_active(),
    {
        self.handlers.len() > 0 || self.impls.len() > 0
    }
}

impl ActorDefView {
    /// The actor has a handler or a trait implementation.
    pub open spec fn is_active(self) -> bool {
        self.handlers.len() > 0 || self.impls.len() > 0
    }
}

/// An actor trait: a trait with handlers.
#[derive(Debug)]
pub struct TraitDef {
    pub handlers: Vec<Handler>,
    pub generics: GenericsSyntax,
}

pub struct TraitDefView {
    pub handlers: Seq<HandlerView>,
    pub generics: GenericsView,
}

impl View for TraitDef {
    type V = TraitDefView;

    open spec fn view(&self) -> TraitDefView {
        TraitDefView { handlers: handler_views(self.handlers@), generics: self.generics@ }
    }
}

/// A trait with no handlers and no generics.
pub open spec fn empty_trait() -> TraitDefView {
    TraitDefView {
        handlers: seq![],
        generics: GenericsView { impl_generics: seq![], type_generics: seq![] },
    }
}

impl Default for TraitDef {
    fn default() -> (r: Self)
        ensures
            r@ == empty_trait(),
    {
        let r = TraitDef { handlers: Vec::new(), generics: GenericsSyntax::empty() };
        assert(r@.handlers =~= Seq::<HandlerView>::empty());
        assert(r@.generics.impl_generics =~= Seq::<char>::empty());
        assert(r@.generics.type_generics =~= Seq::<char>::empty());
        r
    }
}

impl TraitDef {
    /// Whether the trait has a handler.
    pub fn is_active(&self) -> (r: bool)
        ensures
            r == self@.is_active(),
    {
        self.handlers.len() > 0
    }
}

impl TraitDefView {
    /// The trait has a handler.
    pub open spec fn is_active(self) -> bool {
        self.handlers.len() > 0
    }
}

/// The actors and actor traits of a module, each under its name, in the
/// order in which the module first mentions them.
#[derive(Debug)]
pub struct Model {
    pub actors: IndexMap<String, ActorDef>,
    pub traits: IndexMap<String, TraitDef>,
}

pub struct ModelView {
    pub actors: Seq<(Seq<char>, ActorDefView)>,
    pub traits: Seq<(Seq<char>, TraitDefView)>,
}

impl View for Model {
    type V = ModelView;

    open spec fn view(&self) -> ModelView {
        ModelView {
            actors: crate::index_map::actor_entries(self.actors),
            traits: crate::index_map::trait_entries(self.traits),
        }
    }
}

impl Default for Model {
    fn default() -> (r: Self)
        ensures
            r@.actors.len() == 0,
            r@.traits.len() == 0,
    {
        Model {
            actors: crate::index_map::new_actor_map(),
            traits: crate::index_map::new_trait_map(),
        }
    }
}

// ---------------------------------------------------------------------------
// What the generator can handle
// ---------------------------------------------------------------------------

impl FnArgView {
    /// The argument is a name or `_` with a type whose paths all have a
    /// segment.
    pub open spec fn generable(self) -> bool {
        self matches FnArgView::Captured { pat, ty } && (pat is Ident || pat is Wild) && ty.paths_ok()
    }
}

impl HandlerView {
    /// Every argument of the handler is one the generator can handle.
    pub open spec fn generable(self) -> bool {
        forall|i: int| 0 <= i < self.arguments.len() ==> #[trigger] self.arguments[i].generable()
    }
}

impl ActorDefView {
    /// Every handler that no trait declares is one the generator can handle,
    /// and every trait path has a segment.
    pub open spec fn generable(self) -> bool {
        &&& forall|i: int|
            0 <= i < self.handlers.len() && self.handlers[i].from_trait is None
                ==> #[trigger] self.handlers[i].generable()
        &&& forall|i: int| 0 <= i < self.impls.len() ==> #[trigger] self.impls[i].segments.len() > 0
    }
}

impl TraitDefView {
    /// Every handler is one the generator can handle.
    pub open spec fn generable(self) -> bool {
        forall|i: int| 0 <= i < self.handlers.len() ==> #[trigger] self.handlers[i].generable()
    }
}

impl ModelView {
    /// Every actor is one the generator can handle.
    pub open spec fn actors_generable(self) -> bool {
        forall|i: int| 0 <= i < self.actors.len() ==> #[trigger] self.actors[i].1.generable()
    }

    /// Every trait is one the generator can handle.
    pub open spec fn traits_generable(self) -> bool {
        forall|i: int| 0 <= i < self.traits.len() ==> #[trigger] self.traits[i].1.generable()
    }

    /// Every actor and trait is one the generator can handle.
    pub open spec fn generable(self) -> bool {
        self.actors_generable() && self.traits_generable()
    }
}

impl FnArgSyntax {
    /// Whether the generator can handle the argument.
    pub fn generable(&self) -> (r: bool)
        ensures
            r == self@.generable(),
    {
        match self {
            FnArgSyntax::Captured { pat, ty } => match pat {
                PatSyntax::Ident(_) | PatSyntax::Wild => ty.paths_ok(),
                PatSyntax::Other => false,
            },
            _ => false,
        }
    }
}

impl Handler {
    /// Whether the generator can handle every argument of the handler.
    pub fn generable(&self) -> (r: bool)
        ensures
            r == self@.generable(),
    {
        let mut i: usize = 0;
        while i < self.arguments.len()
            invariant
                i <= self.arguments@.len(),
                forall|k: int| 0 <= k < i ==> #[trigger] self@.arguments[k].generable(),
            decreases self.arguments@.len() - i,
        {
            if !self.arguments[i].generable() {
                assert(!self@.arguments[i as int].generable());
                return false;
            }
            i = i + 1;
        }
        true
    }
}

/// Whether the generator can handle every handler in `handlers` that no
/// trait declares.
fn own_handlers_generable(handlers: &Vec<Handler>) -> (r: bool)
    ensures
        r == forall|k: int|
            0 <= k < handlers@.len() && handler_views(handlers@)[k].from_trait is None
                ==> #[trigger] handler_views(handlers@)[k].generable(),
{
    let mut i: usize = 0;
    while i < handlers.len()
        invariant
            i <= handlers@.len(),
            forall|k: int|
                0 <= k < i && handler_views(handlers@)[k].from_trait is None
                    ==> #[trigger] handler_views(handlers@)[k].generable(),
        decreases handlers@.len() - i,
    {
        if handlers[i].from_trait.is_none() && !handlers[i].generable() {
            assert(!handler_views(handlers@)[i as int].generable());
            return false;
        }
        i = i + 1;
    }
    true
}

impl ActorDef {
    /// Whether the generator can handle the actor.
    pub fn generable(&self) -> (r: bool)
        ensures
            r == self@.generable(),
    {
        if !own_handlers_generable(&self.handlers) {
            return false;
        }
        let mut i: usize = 0;
        while i < self.impls.len()
            invariant
                i <= self.impls@.len(),
                forall|k: int| 0 <= k < i ==> #[trigger] self@.impls[k].segments.len() > 0,
            decreases self.impls@.len() - i,
        {
            if self.impls[i].segments.len() == 0 {
                assert(self@.impls[i as int].segments.len() == 0);
                return false;
            }
            i = i + 1;
        }
        true
    }
}

impl TraitDef {
    /// Whether the generator can handle the trait.
    pub fn generable(&self) -> (r: bool)
        ensures
            r == self@.generable(),
    {
        let mut i: usize = 0;
        while i < self.handlers.len()
            invariant
                i <= self.handlers@.len(),
                forall|k: int| 0 <= k < i ==> #[trigger] self@.handlers[k].generable(),
            decreases self.handlers@.len() - i,
        {
            if !self.handlers[i].generable() {
                assert(!self@.handlers[i as int].generable());
                return false;
            }
            i = i + 1;
        }
        true
    }
}

impl Model {
    /// Whether the generator can handle every actor and trait of the model.
    pub fn generable(&self) -> (r: bool)
        ensures
            r == self@.generable(),
    {
        let n = actor_map_len(&self.actors);
        let mut i: usize = 0;
        while i < n
            invariant
                i <= n,
                n == self@.actors.len(),
                forall|k: int| 0 <= k < i ==> #[trigger] self@.actors[k].1.generable(),
            decreases n - i,
        {
            let (_, d) = actor_map_get_index(&self.actors, i).unwrap();
            if !d.generable() {
                assert(!self@.actors[i as int].1.generable());
                return false;
            }
            i = i + 1;
        }
        let n = trait_map_len(&self.traits);
        let mut j: usize = 0;
        while j < n
            invariant
                j <= n,
                n == self@.traits.len(),
                forall|k: int| 0 <= k < self@.actors.len() ==> #[trigger] self@.actors[k].1.generable(),
                forall|k: int| 0 <= k < j ==> #[trigger] self@.traits[k].1.generable(),
            decreases n - j,
        {
            let (_, d) = trait_map_get_index(&self.traits, j).unwrap();
            if !d.generable() {
                assert(!self@.traits[j as int].1.generable());
                return false;
            }
            j = j + 1;
        }
        true
    }
}

} // verus!
