//! The generator on whole modules: each input module and the code that is
//! expected for it.
use kay_codegen::{generate, normalize_empty_lines, parse};

const SIMPLE_ACTOR_IN: &str = r##"pub struct SomeActor {
    id: SomeActorID,
    field: usize
}

impl SomeActor {
    pub fn some_method(&mut self, some_param: usize, world: &mut World) {
        self.id().some_method(42, world);
    }

    pub fn no_params_fate(&mut self, world: &mut World) -> Fate {
        Fate::Die
    }

    pub fn init_ish(id: SomeActorID, some_param: usize, world: &mut World) -> SomeActor {
        SomeActor {
            id: Some(id),
            field: some_param
        }
    }
}"##;

const SIMPLE_ACTOR_OUT: &str = r##"//! This is all auto-generated. Do not touch.
#![rustfmt::skip]
#[allow(unused_imports)]
use kay::{ActorSystem, TypedID, RawID, Fate, Actor, TraitIDFrom, ActorOrActorTrait};
#[allow(unused_imports)]
use super::*;



impl Actor for SomeActor {
    type ID = SomeActorID;

    fn id(&self) -> Self::ID {
        self.id
    }
    unsafe fn set_id(&mut self, id: RawID) {
        self.id = Self::ID::from_raw(id);
    }
}


pub struct SomeActorID {
    _raw_id: RawID
}

impl Copy for SomeActorID {}
impl Clone for SomeActorID { fn clone(&self) -> Self { *self } }
impl ::std::fmt::Debug for SomeActorID {
    fn fmt(&self, f: &mut ::std::fmt::Formatter) -> ::std::fmt::Result {
        write!(f, "SomeActorID({:?})", self._raw_id)
    }
}
impl ::std::hash::Hash for SomeActorID {
    fn hash<H: ::std::hash::Hasher>(&self, state: &mut H) {
        self._raw_id.hash(state);
    }
}
impl PartialEq for SomeActorID {
    fn eq(&self, other: &SomeActorID) -> bool {
        self._raw_id == other._raw_id
    }
}
impl Eq for SomeActorID {}

impl TypedID for SomeActorID {
    type Target = SomeActor;

    fn from_raw(id: RawID) -> Self {
        SomeActorID { _raw_id: id }
    }

    fn as_raw(&self) -> RawID {
        self._raw_id
    }
}

impl SomeActorID {
    pub fn some_method(self, some_param: usize, world: &mut World) {
        world.send(self.as_raw(), MSG_SomeActor_some_method(some_param));
    }

    pub fn no_params_fate(self, world: &mut World) {
        world.send(self.as_raw(), MSG_SomeActor_no_params_fate());
    }

    pub fn init_ish(some_param: usize, world: &mut World) -> Self {
        let id = SomeActorID::from_raw(world.allocate_instance_id::<SomeActor>());
        let swarm = world.local_broadcast::<SomeActor>();
        world.send(swarm, MSG_SomeActor_init_ish(id, some_param));
        id
    }
}

#[derive(Compact, Clone)] #[allow(non_camel_case_types)]
struct MSG_SomeActor_some_method(pub usize);
#[derive(Copy, Clone)] #[allow(non_camel_case_types)]
struct MSG_SomeActor_no_params_fate();
#[derive(Compact, Clone)] #[allow(non_camel_case_types)]
struct MSG_SomeActor_init_ish(pub SomeActorID, pub usize);


#[allow(unused_variables)]
#[allow(unused_mut)]
pub fn auto_setup(system: &mut ActorSystem) {


    system.add_handler::<SomeActor, _, _>(
        |&MSG_SomeActor_some_method(some_param), instance, world| {
            instance.some_method(some_param, world); Fate::Live
        }, false
    );

    system.add_handler::<SomeActor, _, _>(
        |&MSG_SomeActor_no_params_fate(), instance, world| {
            instance.no_params_fate(world)
        }, false
    );

    system.add_spawner::<SomeActor, _, _>(
        |&MSG_SomeActor_init_ish(id, some_param), world| {
            SomeActor::init_ish(id, some_param, world)
        }, false
    );
}"##;

const GENERIC_ACTOR_IN: &str = r##"pub struct SomeActor<A: Compact, B: Compact> {
    id: SomeActorID<A, B>,
    field: usize,
    thing: B
}

impl<A: Compact, B: Compact> SomeActor<A, B> {
    pub fn some_method(&mut self, some_param: usize, thing: &B, world: &mut World) {
        self.id().some_method(42, world);
    }

    pub fn no_params_fate(&mut self, world: &mut World) -> Fate {
        Fate::Die
    }

    pub fn init_ish(id: SomeActorID<A, B>, some_param: usize, world: &mut World) -> SomeActor<A, B> {
        SomeActor {
            id: id,
            field: some_param,
            thing: B::new()
        }
    }
}"##;

const GENERIC_ACTOR_OUT: &str = r##"//! This is all auto-generated. Do not touch.
#![rustfmt::skip]
#[allow(unused_imports)]
use kay::{ActorSystem, TypedID, RawID, Fate, Actor, TraitIDFrom, ActorOrActorTrait};
#[allow(unused_imports)]
use super::*;



impl<A: Compact, B: Compact> Actor for SomeActor<A, B> {
    type ID = SomeActorID<A, B>;

    fn id(&self) -> Self::ID {
        self.id
    }
    unsafe fn set_id(&mut self, id: RawID) {
        self.id = Self::ID::from_raw(id);
    }
}


pub struct SomeActorID<A: Compact, B: Compact> {
    _raw_id: RawID, _marker: ::std::marker::PhantomData<Box<(A, B)>>
}

impl<A: Compact, B: Compact> Copy for SomeActorID<A, B> {}
impl<A: Compact, B: Compact> Clone for SomeActorID<A, B> { fn clone(&self) -> Self { *self } }
impl<A: Compact, B: Compact> ::std::fmt::Debug for SomeActorID<A, B> {
    fn fmt(&self, f: &mut ::std::fmt::Formatter) -> ::std::fmt::Result {
        write!(f, "SomeActorID<A, B>({:?})", self._raw_id)
    }
}
impl<A: Compact, B: Compact> ::std::hash::Hash for SomeActorID<A, B> {
    fn hash<H: ::std::hash::Hasher>(&self, state: &mut H) {
        self._raw_id.hash(state);
    }
}
impl<A: Compact, B: Compact> PartialEq for SomeActorID<A, B> {
    fn eq(&self, other: &SomeActorID<A, B>) -> bool {
        self._raw_id == other._raw_id
    }
}
impl<A: Compact, B: Compact> Eq for SomeActorID<A, B> {}

impl<A: Compact, B: Compact> TypedID for SomeActorID<A, B> {
    type Target = SomeActor<A, B>;

    fn from_raw(id: RawID) -> Self {
        SomeActorID { _raw_id: id, _marker: ::std::marker::PhantomData }
    }

    fn as_raw(&self) -> RawID {
        self._raw_id
    }
}

impl<A: Compact, B: Compact> SomeActorID<A, B> {
    pub fn some_method(self, some_param: usize, thing: B, world: &mut World) {
        world.send(self.as_raw(), MSG_SomeActor_some_method::<B>(some_param, thing));
    }

    pub fn no_params_fate(self, world: &mut World) {
        world.send(self.as_raw(), MSG_SomeActor_no_params_fate());
    }

    pub fn init_ish(some_param: usize, world: &mut World) -> Self {
        let id = SomeActorID::<A, B>::from_raw(world.allocate_instance_id::<SomeActor<A, B>>());
        let swarm = world.local_broadcast::<SomeActor<A, B>>();
        world.send(swarm, MSG_SomeActor_init_ish::<A, B>(id, some_param));
        id
    }
}

#[derive(Compact, Clone)] #[allow(non_camel_case_types)]
struct MSG_SomeActor_some_method<B: Compact>(pub usize, pub B);
#[derive(Copy, Clone)] #[allow(non_camel_case_types)]
struct MSG_SomeActor_no_params_fate();
#[derive(Compact, Clone)] #[allow(non_camel_case_types)]
struct MSG_SomeActor_init_ish<A: Compact, B: Compact>(pub SomeActorID<A, B>, pub usize);


#[allow(unused_variables)]
#[allow(unused_mut)]
pub fn auto_setup<A: Compact, B: Compact>(system: &mut ActorSystem) {


    system.add_handler::<SomeActor<A, B>, _, _>(
        |&MSG_SomeActor_some_method::<B>(some_param, ref thing), instance, world| {
            instance.some_method(some_param, thing, world); Fate::Live
        }, false
    );

    system.add_handler::<SomeActor<A, B>, _, _>(
        |&MSG_SomeActor_no_params_fate(), instance, world| {
            instance.no_params_fate(world)
        }, false
    );

    system.add_spawner::<SomeActor<A, B>, _, _>(
        |&MSG_SomeActor_init_ish::<A, B>(id, some_param), world| {
            SomeActor::<A, B>::init_ish(id, some_param, world)
        }, false
    );
}"##;

const GENERIC_TRAIT_AND_IMPL_IN: &str = r##"pub struct SomeActor {
    id: SomeActorID,
    field: usize
}

trait SomeTrait<A: Compact, B: Compact> {
    fn some_method(&mut self, some_param: A, world: &mut World);
    fn no_params_fate(&mut self, world: &mut World) -> Fate;
    fn some_default_impl_method(&mut self, world: &mut World) {
        self.some_method(3, world);
    }
}

impl SomeTrait<usize, isize> for SomeActor {
    fn some_method(&mut self, some_param: usize, world: &mut World) {
        self.id().some_method(42, world);
    }

    fn no_params_fate(&mut self, world: &mut World) -> Fate {
        Fate::Die
    }
}

impl ForeignTrait<usize, isize> for SomeActor {
    fn simple(&mut self, some_param: usize, world: &mut World) {
        self.id().some_method(some_param, world);
    }
}"##;

const GENERIC_TRAIT_AND_IMPL_OUT: &str = r##"//! This is all auto-generated. Do not touch.
#![rustfmt::skip]
#[allow(unused_imports)]
use kay::{ActorSystem, TypedID, RawID, Fate, Actor, TraitIDFrom, ActorOrActorTrait};
#[allow(unused_imports)]
use super::*;


pub struct SomeTraitID<A: Compact, B: Compact> {
    _raw_id: RawID, _marker: ::std::marker::PhantomData<Box<(A, B)>>
}

impl<A: Compact, B: Compact> Copy for SomeTraitID<A, B> {}
impl<A: Compact, B: Compact> Clone for SomeTraitID<A, B> { fn clone(&self) -> Self { *self } }
impl<A: Compact, B: Compact> ::std::fmt::Debug for SomeTraitID<A, B> {
    fn fmt(&self, f: &mut ::std::fmt::Formatter) -> ::std::fmt::Result {
        write!(f, "SomeTraitID<A, B>({:?})", self._raw_id)
    }
}
impl<A: Compact, B: Compact> ::std::hash::Hash for SomeTraitID<A, B> {
    fn hash<H: ::std::hash::Hasher>(&self, state: &mut H) {
        self._raw_id.hash(state);
    }
}
impl<A: Compact, B: Compact> PartialEq for SomeTraitID<A, B> {
    fn eq(&self, other: &SomeTraitID<A, B>) -> bool {
        self._raw_id == other._raw_id
    }
}
impl<A: Compact, B: Compact> Eq for SomeTraitID<A, B> {}

pub struct SomeTraitRepresentative<A: Compact, B: Compact>{ _marker: ::std::marker::PhantomData<Box<(A, B)>> }

impl<A: Compact, B: Compact> ActorOrActorTrait for SomeTraitRepresentative<A, B> {
    type ID = SomeTraitID<A, B>;
}

impl<A: Compact, B: Compact> TypedID for SomeTraitID<A, B> {
    type Target = SomeTraitRepresentative<A, B>;

    fn from_raw(id: RawID) -> Self {
        SomeTraitID { _raw_id: id, _marker: ::std::marker::PhantomData }
    }

    fn as_raw(&self) -> RawID {
        self._raw_id
    }
}

impl<A: Compact, B: Compact, Act: Actor + SomeTrait<A, B>> TraitIDFrom<Act> for SomeTraitID<A, B> {}

impl<A: Compact, B: Compact> SomeTraitID<A, B> {
    pub fn some_method(self, some_param: A, world: &mut World) {
        world.send(self.as_raw(), MSG_SomeTrait_some_method(some_param));
    }

    pub fn no_params_fate(self, world: &mut World) {
        world.send(self.as_raw(), MSG_SomeTrait_no_params_fate());
    }

    pub fn some_default_impl_method(self, world: &mut World) {
        world.send(self.as_raw(), MSG_SomeTrait_some_default_impl_method());
    }

    pub fn register_trait(system: &mut ActorSystem) {
        system.register_trait::<SomeTraitRepresentative<A, B>>();
        system.register_trait_message::<MSG_SomeTrait_some_method<A>>();
        system.register_trait_message::<MSG_SomeTrait_no_params_fate>();
        system.register_trait_message::<MSG_SomeTrait_some_default_impl_method>();
    }

    pub fn register_implementor<Act: Actor + SomeTrait<A, B>>(system: &mut ActorSystem) {
        system.register_implementor::<Act, SomeTraitRepresentative<A, B>>();
        system.add_handler::<Act, _, _>(
            |&MSG_SomeTrait_some_method::<A>(some_param), instance, world| {
                instance.some_method(some_param, world); Fate::Live
            }, false
        );

        system.add_handler::<Act, _, _>(
            |&MSG_SomeTrait_no_params_fate(), instance, world| {
                instance.no_params_fate(world)
            }, false
        );

        system.add_handler::<Act, _, _>(
            |&MSG_SomeTrait_some_default_impl_method(), instance, world| {
                instance.some_default_impl_method(world); Fate::Live
            }, false
        );
    }
}

#[derive(Compact, Clone)] #[allow(non_camel_case_types)]
struct MSG_SomeTrait_some_method<A: Compact>(pub A);
#[derive(Copy, Clone)] #[allow(non_camel_case_types)]
struct MSG_SomeTrait_no_params_fate();
#[derive(Copy, Clone)] #[allow(non_camel_case_types)]
struct MSG_SomeTrait_some_default_impl_method();

impl Actor for SomeActor {
    type ID = SomeActorID;

    fn id(&self) -> Self::ID {
        self.id
    }
    unsafe fn set_id(&mut self, id: RawID) {
        self.id = Self::ID::from_raw(id);
    }
}


pub struct SomeActorID {
    _raw_id: RawID
}

impl Copy for SomeActorID {}
impl Clone for SomeActorID { fn clone(&self) -> Self { *self } }
impl ::std::fmt::Debug for SomeActorID {
    fn fmt(&self, f: &mut ::std::fmt::Formatter) -> ::std::fmt::Result {
        write!(f, "SomeActorID({:?})", self._raw_id)
    }
}
impl ::std::hash::Hash for SomeActorID {
    fn hash<H: ::std::hash::Hasher>(&self, state: &mut H) {
        self._raw_id.hash(state);
    }
}
impl PartialEq for SomeActorID {
    fn eq(&self, other: &SomeActorID) -> bool {
        self._raw_id == other._raw_id
    }
}
impl Eq for SomeActorID {}

impl TypedID for SomeActorID {
    type Target = SomeActor;

    fn from_raw(id: RawID) -> Self {
        SomeActorID { _raw_id: id }
    }

    fn as_raw(&self) -> RawID {
        self._raw_id
    }
}

impl SomeActorID {

}



impl Into<SomeTraitID<usize, isize>> for SomeActorID {
    fn into(self) -> SomeTraitID<usize, isize> {
        SomeTraitID::from_raw(self.as_raw())
    }
}

impl Into<ForeignTraitID<usize, isize>> for SomeActorID {
    fn into(self) -> ForeignTraitID<usize, isize> {
        ForeignTraitID::from_raw(self.as_raw())
    }
}

#[allow(unused_variables)]
#[allow(unused_mut)]
pub fn auto_setup<A: Compact, B: Compact>(system: &mut ActorSystem) {
    SomeTraitID::<A, B>::register_trait(system);
    SomeTraitID::<usize, isize>::register_implementor::<SomeActor>(system);
    ForeignTraitID::<usize, isize>::register_implementor::<SomeActor>(system);
}"##;

#[test]
fn simple_actor() {
    let input = SIMPLE_ACTOR_IN;
    let expected = SIMPLE_ACTOR_OUT;

    let output = generate(&parse(input).unwrap());

    assert_eq!(normalize_empty_lines(&expected), normalize_empty_lines(&output));
}

#[test]
fn generic_actor() {
    let input = GENERIC_ACTOR_IN;
    let expected = GENERIC_ACTOR_OUT;

    let output = generate(&parse(input).unwrap());

    assert_eq!(normalize_empty_lines(&expected), normalize_empty_lines(&output));
}

#[test]
fn generic_trait_and_impl() {
    let input = GENERIC_TRAIT_AND_IMPL_IN;
    let expected = GENERIC_TRAIT_AND_IMPL_OUT;

    let output = generate(&parse(input).unwrap());

    assert_eq!(normalize_empty_lines(&expected), normalize_empty_lines(&output));
}
