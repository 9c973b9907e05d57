//! The templates of the generated code, in the syntax of `format!` with
//! named arguments only.
use vstd::prelude::*;

verus! {

/// Registers a handler of an actor.
pub const HANDLER_REGISTRATION: &'static str = r#"
                                system.add_handler::<{actor_name}{short_generics}, _, _>(
                                    |&{msg_name}{used_generics_turbofish}({msg_args}), instance, world| {{
                                        instance.{handler_name}({handler_params}){maybe_return}
                                    }}, {is_critical}
                                );"#;

/// Registers an init handler (a spawner) of an actor.
pub const SPAWNER_REGISTRATION: &'static str = r#"
                                system.add_spawner::<{actor_name}{short_generics}, _, _>(
                                    |&{msg_name}{used_generics_turbofish}(id, {msg_args}), world| {{
                                        {actor_name}{short_generics_turbofish}::{handler_name}(id, {handler_params})
                                    }}, {is_critical}
                                );"#;

/// The setup of one actor: its trait implementations and handlers.
pub const ACTOR_SETUP: &'static str = r#"
                {impl_registrations}
                {handler_registrations}"#;

/// The setup function that registers everything.
pub const SETUP_FUNCTION: &'static str = r#"
            #[allow(unused_variables)]
            #[allow(unused_mut)]
            pub fn auto_setup{all_generics}(system: &mut ActorSystem) {{
                {trait_registrations}
                {actor_setups}
            }}"#;

/// A method of a trait ID that sends a message.
pub const TRAIT_SEND_METHOD: &'static str = r#"
                    pub fn {handler_name}(self, {handler_args}) {{
                        world.send(self.as_raw(), {msg_name}({msg_params}));
                    }}"#;

/// Registers a handler of a trait implementor.
pub const IMPLEMENTOR_HANDLER: &'static str = r#"
                    system.add_handler::<Act, _, _>(
                        |&{msg_name}{used_generics_turbofish}({msg_args}), instance, world| {{
                            instance.{handler_name}({handler_params}){maybe_return}
                        }}, {is_critical}
                    );"#;

/// A message struct of a trait handler.
pub const TRAIT_MESSAGE_STRUCT: &'static str = r#"
                    {msg_derives} #[allow(non_camel_case_types)]
                    struct {msg_name}{used_generics}({msg_param_types});"#;

/// The ID type, representative and messages of an actor trait.
pub const TRAIT_DEFINITIONS: &'static str = r#"
                {trait_id_derives}
                pub struct {trait_name}ID{full_generics} {{
                    _raw_id: RawID{maybe_marker}
                }}

                impl{full_generics} Copy for {trait_name}ID{short_generics} {{}}
                impl{full_generics} Clone for {trait_name}ID{short_generics} {{ fn clone(&self) -> Self {{ *self }} }}
                impl{full_generics} ::std::fmt::Debug for {trait_name}ID{short_generics} {{
                    fn fmt(&self, f: &mut ::std::fmt::Formatter) -> ::std::fmt::Result {{
                        write!(f, "{trait_name}ID{short_generics}({{:?}})", self._raw_id)
                    }}
                }}
                impl{full_generics} ::std::hash::Hash for {trait_name}ID{short_generics} {{
                    fn hash<H: ::std::hash::Hasher>(&self, state: &mut H) {{
                        self._raw_id.hash(state);
                    }}
                }}
                impl{full_generics} PartialEq for {trait_name}ID{short_generics} {{
                    fn eq(&self, other: &{trait_name}ID{short_generics}) -> bool {{
                        self._raw_id == other._raw_id
                    }}
                }}
                impl{full_generics} Eq for {trait_name}ID{short_generics} {{}}

                pub struct {trait_name}Representative{full_generics}{maybe_marker_only}

                impl{full_generics} ActorOrActorTrait for {trait_name}Representative{short_generics} {{
                    type ID = {trait_name}ID{short_generics};
                }}

                impl{full_generics} TypedID for {trait_name}ID{short_generics} {{
                    type Target = {trait_name}Representative{short_generics};

                    fn from_raw(id: RawID) -> Self {{
                        {trait_name}ID {{ _raw_id: id{maybe_marker_init} }}
                    }}

                    fn as_raw(&self) -> RawID {{
                        self._raw_id
                    }}
                }}

                impl<{full_generics_inner_comma}Act: Actor + {trait_name}{short_generics}> TraitIDFrom<Act> for {trait_name}ID{short_generics} {{}}

                impl{full_generics} {trait_name}ID{short_generics} {{
                    {handler_send_impls}

                    pub fn register_trait(system: &mut ActorSystem) {{
                        system.register_trait::<{trait_name}Representative{short_generics}>();
                        {trait_msg_registrations}
                    }}

                    pub fn register_implementor<Act: Actor + {trait_name}{short_generics}>(system: &mut ActorSystem) {{
                        system.register_implementor::<Act, {trait_name}Representative{short_generics}>();
                        {implementor_handler_registrations}
                    }}
                }}

                {msg_struct_defs}"#;

/// The `Actor` implementation and the ID type of an actor.
pub const ACTOR_ID_DEFINITION: &'static str = r#"
                    impl{full_generics} Actor for {actor_name}{short_generics} {{
                        type ID = {actor_name}ID{short_generics};

                        fn id(&self) -> Self::ID {{
                            self.id
                        }}
                        unsafe fn set_id(&mut self, id: RawID) {{
                            self.id = Self::ID::from_raw(id);
                        }}
                    }}

                    {actor_id_derives}
                    pub struct {actor_name}ID{full_generics} {{
                        _raw_id: RawID{maybe_marker}
                    }}

                    impl{full_generics} Copy for {actor_name}ID{short_generics} {{}}
                    impl{full_generics} Clone for {actor_name}ID{short_generics} {{ fn clone(&self) -> Self {{ *self }} }}
                    impl{full_generics} ::std::fmt::Debug for {actor_name}ID{short_generics} {{
                        fn fmt(&self, f: &mut ::std::fmt::Formatter) -> ::std::fmt::Result {{
                            write!(f, "{actor_name}ID{short_generics}({{:?}})", self._raw_id)
                        }}
                    }}
                    impl{full_generics} ::std::hash::Hash for {actor_name}ID{short_generics} {{
                        fn hash<H: ::std::hash::Hasher>(&self, state: &mut H) {{
                            self._raw_id.hash(state);
                        }}
                    }}
                    impl{full_generics} PartialEq for {actor_name}ID{short_generics} {{
                        fn eq(&self, other: &{actor_name}ID{short_generics}) -> bool {{
                            self._raw_id == other._raw_id
                        }}
                    }}
                    impl{full_generics} Eq for {actor_name}ID{short_generics} {{}}

                    impl{full_generics} TypedID for {actor_name}ID{short_generics} {{
                        type Target = {actor_name}{short_generics};

                        fn from_raw(id: RawID) -> Self {{
                            {actor_name}ID {{ _raw_id: id{maybe_marker_init} }}
                        }}

                        fn as_raw(&self) -> RawID {{
                            self._raw_id
                        }}
                    }}"#;

/// A method of an actor ID that sends a message.
pub const ACTOR_SEND_METHOD: &'static str = r#"
                            pub fn {handler_name}(self, {handler_args}) {{
                                world.send(self.as_raw(), {msg_name}{used_generics_turbofish}({msg_params}));
                            }}"#;

/// A method of an actor ID that creates an actor.
pub const ACTOR_INIT_METHOD: &'static str = r#"
                            pub fn {handler_name}({handler_args}) -> Self {{
                                let id = {actor_name}ID{short_generics_turbofish}::from_raw(world.allocate_instance_id::<{actor_name}{short_generics}>());
                                let swarm = world.local_broadcast::<{actor_name}{short_generics}>();
                                world.send(swarm, {msg_name}{used_generics_turbofish}(id, {msg_params}));
                                id
                            }}"#;

/// A message struct of an actor handler.
pub const ACTOR_MESSAGE_STRUCT: &'static str = r#"
                    {msg_derives} #[allow(non_camel_case_types)]
                    struct {msg_name}{used_generics}({maybe_id_type}{msg_param_types});"#;

/// The conversion from an actor ID to the ID of a trait it implements.
pub const ID_CONVERSION: &'static str = r#"
                    impl Into<{trait_name}ID{impl_generics}> for {actor_name}ID{short_generics} {{
                        fn into(self) -> {trait_name}ID{impl_generics} {{
                            {trait_name}ID::from_raw(self.as_raw())
                        }}
                    }}"#;

/// The ID, methods and messages of an actor.
pub const ACTOR_DEFINITIONS: &'static str = r#"
                {id_def_if_defined_here}

                impl{full_generics} {actor_name}ID{short_generics} {{
                    {handler_defs}
                }}

                {msg_defs}

                {id_conversion_impls}"#;

/// The whole generated module.
pub const GENERATED_MODULE: &'static str = r#"
        //! This is all auto-generated. Do not touch.
        #![rustfmt::skip]
        #[allow(unused_imports)]
        use kay::{{ActorSystem, TypedID, RawID, Fate, Actor, TraitIDFrom, ActorOrActorTrait}};
        #[allow(unused_imports)]
        use super::*;

        {traits_msgs}

        {actors_msgs}

        {setup}"#;

/// Registers an actor trait.
pub const TRAIT_REGISTRATION: &'static str = "{trait_name}ID{short_generics_turbofish}::register_trait(system);";

/// Registers an actor as an implementor of a trait.
pub const IMPL_REGISTRATION: &'static str = "{trait_name}ID{impl_generics_turbofish}::register_implementor::<{actor_name}>(system);";

/// Registers the message of a trait handler.
pub const TRAIT_MESSAGE_REGISTRATION: &'static str = "system.register_trait_message::<{msg_name}{used_generics}>();";

/// The marker field of a generic ID.
pub const MARKER_FIELD: &'static str = ", _marker: ::std::marker::PhantomData<Box<({params})>>";

/// The body of a generic trait representative (one without generic
/// parameters ends in `;` instead).
pub const MARKER_BODY: &'static str = "{{ _marker: ::std::marker::PhantomData<Box<({params})>> }}";

/// The ID field of an init message.
pub const INIT_ID_FIELD: &'static str = "pub {actor_name}ID{short_generics}, ";

} // verus!
