//! Reusable named definitions referenced elsewhere in a document.

#![allow(unused_imports)]

use vstd::prelude::*;

use crate::fields::dec_opt_bool;
use crate::fields::dec_opt_i32;
use crate::fields::dec_opt_string;
use crate::fields::dec_req_string;
use crate::fields::dec_value_list;
use crate::fields::dec_value_map;
use crate::fields::dec_vec_string;
use crate::fields::enc_opt_bool;
use crate::fields::enc_opt_i32;
use crate::fields::enc_opt_string;
use crate::fields::enc_string_list;
use crate::fields::encode_string_list;
use crate::fields::encode_value_list;
use crate::fields::encode_value_map;
use crate::fields::get_opt_bool;
use crate::fields::get_opt_i32;
use crate::fields::get_opt_string;
use crate::fields::get_req_string;
use crate::fields::get_value_list;
use crate::fields::get_value_map;
use crate::fields::get_vec_string;
use crate::fields::lemma_string_list_round_trip;
use crate::fields::view_opt_string;
use crate::fields::view_vec_string;
use crate::reference::Ref;
use crate::reference::RefOr;
use crate::reference::RefOrView;
use crate::reference::as_reference;
use crate::reference::enc_ref;
use crate::reference::encode_reference;
use crate::reference::lemma_ref_shape_enc;
use crate::reference::ref_shape;
use crate::value::DecodeError;
use crate::value::Value;
use crate::value::ValueView;
use crate::value::collect_extensions;
use crate::value::distinct_keys;
use crate::value::ext_of;
use crate::value::find_field;
use crate::value::has_field_key;
use crate::value::key_views;
use crate::value::lemma_ext_encoded;
use crate::value::lemma_list_view;
use crate::value::lemma_lookup_encoded;
use crate::value::lemma_obj_view;
use crate::value::lemma_present_fields_snoc;
use crate::value::list_view;
use crate::value::lookup;
use crate::value::obj_view;
use crate::value::present_fields;
use crate::value::push_entries;
use crate::value::push_present;
use crate::schema::Schema;
use crate::schema::SchemaView;
use crate::schema::dec_ref_or_schema;
use crate::schema::dec_schema_map_entries;
use crate::schema::decode_ref_or_schema;
use crate::schema::decode_schema_map_entries;
use crate::schema::enc_ref_or_schema;
use crate::schema::enc_schema_map;
use crate::schema::encode_ref_or_schema;
use crate::schema::encode_schema_map_entries;
use crate::schema::lemma_ref_or_schema_round_trip;
use crate::schema::lemma_schema_map_round_trip;
use crate::schema::lemma_schema_round_trip;
use crate::schema::ref_or_schema_view;
use crate::schema::schema_map_view;
use crate::schema::schema_view;
use crate::schema::wf_ref_or_schema;
use crate::schema::wf_schema_map;
use crate::message::Message;
use crate::message::MessageView;
use crate::message::dec_ref_or_message;
use crate::message::enc_ref_or_message;
use crate::message::wf_ref_or_message;
use crate::message::lemma_ref_or_message_round_trip;
use crate::message::decode_ref_or_message;
use crate::message::encode_ref_or_message;
use crate::message::message_map_view;
use crate::message::enc_message_map;
use crate::message::dec_message_map_entries;
use crate::message::wf_message_map;
use crate::message::lemma_message_map_round_trip;
use crate::message::encode_message_map_entries;
use crate::message::decode_message_map_entries;
use crate::message_trait::MessageTrait;
use crate::message_trait::MessageTraitView;
use crate::message_trait::dec_ref_or_message_trait;
use crate::message_trait::enc_ref_or_message_trait;
use crate::message_trait::wf_ref_or_message_trait;
use crate::message_trait::lemma_ref_or_message_trait_round_trip;
use crate::message_trait::decode_ref_or_message_trait;
use crate::message_trait::encode_ref_or_message_trait;
use crate::message_trait::message_trait_map_view;
use crate::message_trait::enc_message_trait_map;
use crate::message_trait::dec_message_trait_map_entries;
use crate::message_trait::wf_message_trait_map;
use crate::message_trait::lemma_message_trait_map_round_trip;
use crate::message_trait::encode_message_trait_map_entries;
use crate::message_trait::decode_message_trait_map_entries;
use crate::correlation_id::CorrelationId;
use crate::correlation_id::CorrelationIdView;
use crate::correlation_id::dec_ref_or_correlation_id;
use crate::correlation_id::enc_ref_or_correlation_id;
use crate::correlation_id::wf_ref_or_correlation_id;
use crate::correlation_id::lemma_ref_or_correlation_id_round_trip;
use crate::correlation_id::decode_ref_or_correlation_id;
use crate::correlation_id::encode_ref_or_correlation_id;
use crate::correlation_id::correlation_id_map_view;
use crate::correlation_id::enc_correlation_id_map;
use crate::correlation_id::dec_correlation_id_map_entries;
use crate::correlation_id::wf_correlation_id_map;
use crate::correlation_id::lemma_correlation_id_map_round_trip;
use crate::correlation_id::encode_correlation_id_map_entries;
use crate::correlation_id::decode_correlation_id_map_entries;
use crate::server::Server;
use crate::server::ServerView;
use crate::server::dec_ref_or_server;
use crate::server::enc_ref_or_server;
use crate::server::wf_ref_or_server;
use crate::server::lemma_ref_or_server_round_trip;
use crate::server::decode_ref_or_server;
use crate::server::encode_ref_or_server;
use crate::server::server_map_view;
use crate::server::enc_server_map;
use crate::server::dec_server_map_entries;
use crate::server::wf_server_map;
use crate::server::lemma_server_map_round_trip;
use crate::server::encode_server_map_entries;
use crate::server::decode_server_map_entries;
use crate::channel::Channel;
use crate::channel::ChannelView;
use crate::channel::channel_val_map_view;
use crate::channel::enc_channel_val_map;
use crate::channel::dec_channel_val_map_entries;
use crate::channel::wf_channel_val_map;
use crate::channel::lemma_channel_val_map_round_trip;
use crate::channel::encode_channel_val_map_entries;
use crate::channel::decode_channel_val_map_entries;
use crate::channel_binding::ChannelBinding;
use crate::channel_binding::ChannelBindingView;
use crate::channel_binding::dec_ref_or_channel_binding;
use crate::channel_binding::enc_ref_or_channel_binding;
use crate::channel_binding::wf_ref_or_channel_binding;
use crate::channel_binding::lemma_ref_or_channel_binding_round_trip;
use crate::channel_binding::decode_ref_or_channel_binding;
use crate::channel_binding::encode_ref_or_channel_binding;
use crate::channel_binding::channel_binding_map_view;
use crate::channel_binding::enc_channel_binding_map;
use crate::channel_binding::dec_channel_binding_map_entries;
use crate::channel_binding::wf_channel_binding_map;
use crate::channel_binding::lemma_channel_binding_map_round_trip;
use crate::channel_binding::encode_channel_binding_map_entries;
use crate::channel_binding::decode_channel_binding_map_entries;
use crate::operation_binding::OperationBinding;
use crate::operation_binding::OperationBindingView;
use crate::operation_binding::dec_ref_or_operation_binding;
use crate::operation_binding::enc_ref_or_operation_binding;
use crate::operation_binding::wf_ref_or_operation_binding;
use crate::operation_binding::lemma_ref_or_operation_binding_round_trip;
use crate::operation_binding::decode_ref_or_operation_binding;
use crate::operation_binding::encode_ref_or_operation_binding;
use crate::operation_binding::operation_binding_map_view;
use crate::operation_binding::enc_operation_binding_map;
use crate::operation_binding::dec_operation_binding_map_entries;
use crate::operation_binding::wf_operation_binding_map;
use crate::operation_binding::lemma_operation_binding_map_round_trip;
use crate::operation_binding::encode_operation_binding_map_entries;
use crate::operation_binding::decode_operation_binding_map_entries;
use crate::message_binding::MessageBinding;
use crate::message_binding::MessageBindingView;
use crate::message_binding::dec_ref_or_message_binding;
use crate::message_binding::enc_ref_or_message_binding;
use crate::message_binding::wf_ref_or_message_binding;
use crate::message_binding::lemma_ref_or_message_binding_round_trip;
use crate::message_binding::decode_ref_or_message_binding;
use crate::message_binding::encode_ref_or_message_binding;
use crate::message_binding::message_binding_map_view;
use crate::message_binding::enc_message_binding_map;
use crate::message_binding::dec_message_binding_map_entries;
use crate::message_binding::wf_message_binding_map;
use crate::message_binding::lemma_message_binding_map_round_trip;
use crate::message_binding::encode_message_binding_map_entries;
use crate::message_binding::decode_message_binding_map_entries;

verus! {

/// A set of reusable objects for different aspects of the specification.
/// Objects defined here have no effect on the API unless they are
/// explicitly referenced from properties outside this section.
#[derive(Debug, PartialEq)]
pub struct Components {
    /// Reusable schema objects, by name.
    pub schemas: Vec<(String, RefOr<Schema>)>,
    /// Reusable message objects, by name.
    pub messages: Vec<(String, RefOr<Message>)>,
    /// Reusable message trait objects, by name.
    pub message_traits: Vec<(String, RefOr<MessageTrait>)>,
    /// Reusable correlation identifier objects, by name.
    pub correlation_ids: Vec<(String, RefOr<CorrelationId>)>,
    /// Reusable server objects, by name.
    pub servers: Vec<(String, RefOr<Server>)>,
    /// Reusable channel item objects, by name.
    pub channels: Vec<(String, Channel)>,
    /// Reusable channel binding objects, by name.
    pub channel_bindings: Vec<(String, RefOr<ChannelBinding>)>,
    /// Reusable operation binding objects, by name.
    pub operation_bindings: Vec<(String, RefOr<OperationBinding>)>,
    /// Reusable message binding objects, by name.
    pub message_bindings: Vec<(String, RefOr<MessageBinding>)>,
    /// Unrecognized sibling fields, preserved in source order.
    pub extensions: Vec<(String, Value)>,
}

/// Model of a [`Components`].
#[verifier::ext_equal]
pub struct ComponentsView {
    pub schemas: Seq<(Seq<char>, RefOrView<SchemaView>)>,
    pub messages: Seq<(Seq<char>, RefOrView<MessageView>)>,
    pub message_traits: Seq<(Seq<char>, RefOrView<MessageTraitView>)>,
    pub correlation_ids: Seq<(Seq<char>, RefOrView<CorrelationIdView>)>,
    pub servers: Seq<(Seq<char>, RefOrView<ServerView>)>,
    pub channels: Seq<(Seq<char>, ChannelView)>,
    pub channel_bindings: Seq<(Seq<char>, RefOrView<ChannelBindingView>)>,
    pub operation_bindings: Seq<(Seq<char>, RefOrView<OperationBindingView>)>,
    pub message_bindings: Seq<(Seq<char>, RefOrView<MessageBindingView>)>,
    pub extensions: Seq<(Seq<char>, ValueView)>,
}

impl View for Components {
    type V = ComponentsView;

    open spec fn view(&self) -> ComponentsView {
        ComponentsView {
            schemas: schema_map_view(self.schemas@),
            messages: message_map_view(self.messages@),
            message_traits: message_trait_map_view(self.message_traits@),
            correlation_ids: correlation_id_map_view(self.correlation_ids@),
            servers: server_map_view(self.servers@),
            channels: channel_val_map_view(self.channels@),
            channel_bindings: channel_binding_map_view(self.channel_bindings@),
            operation_bindings: operation_binding_map_view(self.operation_bindings@),
            message_bindings: message_binding_map_view(self.message_bindings@),
            extensions: obj_view(self.extensions@),
        }
    }
}

/// The declared keys are pairwise distinct.
pub proof fn lemma_components_keys_distinct()
    ensures
        forall|p: int, q: int|
            0 <= p < q < ComponentsView::known_keys().len() ==> ComponentsView::known_keys()[p]
                != ComponentsView::known_keys()[q],
{
    reveal_strlit("schemas");
    reveal_strlit("messages");
    reveal_strlit("messageTraits");
    reveal_strlit("correlationIds");
    reveal_strlit("servers");
    reveal_strlit("channels");
    reveal_strlit("channelBindings");
    reveal_strlit("operationBindings");
    reveal_strlit("messageBindings");
    assert("schemas"@.len() == 7);
    assert("messages"@.len() == 8);
    assert("messageTraits"@.len() == 13);
    assert("correlationIds"@.len() == 14);
    assert("servers"@.len() == 7);
    assert("channels"@.len() == 8);
    assert("channelBindings"@.len() == 15);
    assert("operationBindings"@.len() == 17);
    assert("messageBindings"@.len() == 15);
    assert("schemas"@[1] == 'c');
    assert("servers"@[1] == 'e');
    assert("messages"@[0] == 'm');
    assert("channels"@[0] == 'c');
    assert("channelBindings"@[0] == 'c');
    assert("messageBindings"@[0] == 'm');
}

impl ComponentsView {
    /// The declared wire keys.
    pub open spec fn known_keys() -> Seq<Seq<char>> {
        seq!["schemas"@, "messages"@, "messageTraits"@, "correlationIds"@, "servers"@, "channels"@, "channelBindings"@, "operationBindings"@, "messageBindings"@]
    }

    /// Declared fields in output order; absent options and empty
    /// sequences are omitted.
    pub open spec fn field_list(self) -> Seq<(Seq<char>, Option<ValueView>)> {
        seq![
            ("schemas"@, if self.schemas.len() == 0 {
                None
            } else {
                Some(ValueView::Object(enc_schema_map(self.schemas)))
            }),
            ("messages"@, if self.messages.len() == 0 {
                None
            } else {
                Some(ValueView::Object(enc_message_map(self.messages)))
            }),
            ("messageTraits"@, if self.message_traits.len() == 0 {
                None
            } else {
                Some(ValueView::Object(enc_message_trait_map(self.message_traits)))
            }),
            ("correlationIds"@, if self.correlation_ids.len() == 0 {
                None
            } else {
                Some(ValueView::Object(enc_correlation_id_map(self.correlation_ids)))
            }),
            ("servers"@, if self.servers.len() == 0 {
                None
            } else {
                Some(ValueView::Object(enc_server_map(self.servers)))
            }),
            ("channels"@, if self.channels.len() == 0 {
                None
            } else {
                Some(ValueView::Object(enc_channel_val_map(self.channels)))
            }),
            ("channelBindings"@, if self.channel_bindings.len() == 0 {
                None
            } else {
                Some(ValueView::Object(enc_channel_binding_map(self.channel_bindings)))
            }),
            ("operationBindings"@, if self.operation_bindings.len() == 0 {
                None
            } else {
                Some(ValueView::Object(enc_operation_binding_map(self.operation_bindings)))
            }),
            ("messageBindings"@, if self.message_bindings.len() == 0 {
                None
            } else {
                Some(ValueView::Object(enc_message_binding_map(self.message_bindings)))
            }),
        ]
    }

    /// No extension key shadows a declared field, and every nested
    /// entity is well formed.
    pub open spec fn wf(self) -> bool {
        &&& forall|j: int|
            0 <= j < self.extensions.len() ==> !Self::known_keys().contains(
                (#[trigger] self.extensions[j]).0,
            )
        &&& wf_schema_map(self.schemas)
        &&& wf_message_map(self.messages)
        &&& wf_message_trait_map(self.message_traits)
        &&& wf_correlation_id_map(self.correlation_ids)
        &&& wf_server_map(self.servers)
        &&& wf_channel_val_map(self.channels)
        &&& wf_channel_binding_map(self.channel_bindings)
        &&& wf_operation_binding_map(self.operation_bindings)
        &&& wf_message_binding_map(self.message_bindings)
    }

    /// The encoding: declared fields first, then the extensions.
    pub open spec fn encode(self) -> ValueView {
        ValueView::Object(present_fields(self.field_list()) + self.extensions)
    }

    /// The decoding of a structural value as this object.
    pub open spec fn decode(v: ValueView) -> Result<Self, DecodeError> {
        match v {
            ValueView::Object(entries) => {
                let schemas = match lookup(entries, "schemas"@) {
                    None => Ok(Seq::<(Seq<char>, RefOrView<SchemaView>)>::empty()),
                    Some(ValueView::Object(es)) => dec_schema_map_entries(es),
                    Some(_) => Err(DecodeError::StructuralMismatch),
                };
                let messages = match lookup(entries, "messages"@) {
                    None => Ok(Seq::<(Seq<char>, RefOrView<MessageView>)>::empty()),
                    Some(ValueView::Object(es)) => dec_message_map_entries(es),
                    Some(_) => Err(DecodeError::StructuralMismatch),
                };
                let message_traits = match lookup(entries, "messageTraits"@) {
                    None => Ok(Seq::<(Seq<char>, RefOrView<MessageTraitView>)>::empty()),
                    Some(ValueView::Object(es)) => dec_message_trait_map_entries(es),
                    Some(_) => Err(DecodeError::StructuralMismatch),
                };
                let correlation_ids = match lookup(entries, "correlationIds"@) {
                    None => Ok(Seq::<(Seq<char>, RefOrView<CorrelationIdView>)>::empty()),
                    Some(ValueView::Object(es)) => dec_correlation_id_map_entries(es),
                    Some(_) => Err(DecodeError::StructuralMismatch),
                };
                let servers = match lookup(entries, "servers"@) {
                    None => Ok(Seq::<(Seq<char>, RefOrView<ServerView>)>::empty()),
                    Some(ValueView::Object(es)) => dec_server_map_entries(es),
                    Some(_) => Err(DecodeError::StructuralMismatch),
                };
                let channels = match lookup(entries, "channels"@) {
                    None => Ok(Seq::<(Seq<char>, ChannelView)>::empty()),
                    Some(ValueView::Object(es)) => dec_channel_val_map_entries(es),
                    Some(_) => Err(DecodeError::StructuralMismatch),
                };
                let channel_bindings = match lookup(entries, "channelBindings"@) {
                    None => Ok(Seq::<(Seq<char>, RefOrView<ChannelBindingView>)>::empty()),
                    Some(ValueView::Object(es)) => dec_channel_binding_map_entries(es),
                    Some(_) => Err(DecodeError::StructuralMismatch),
                };
                let operation_bindings = match lookup(entries, "operationBindings"@) {
                    None => Ok(Seq::<(Seq<char>, RefOrView<OperationBindingView>)>::empty()),
                    Some(ValueView::Object(es)) => dec_operation_binding_map_entries(es),
                    Some(_) => Err(DecodeError::StructuralMismatch),
                };
                let message_bindings = match lookup(entries, "messageBindings"@) {
                    None => Ok(Seq::<(Seq<char>, RefOrView<MessageBindingView>)>::empty()),
                    Some(ValueView::Object(es)) => dec_message_binding_map_entries(es),
                    Some(_) => Err(DecodeError::StructuralMismatch),
                };
                if schemas is Err {
                    Err(schemas->Err_0)
                } else if messages is Err {
                    Err(messages->Err_0)
                } else if message_traits is Err {
                    Err(message_traits->Err_0)
                } else if correlation_ids is Err {
                    Err(correlation_ids->Err_0)
                } else if servers is Err {
                    Err(servers->Err_0)
                } else if channels is Err {
                    Err(channels->Err_0)
                } else if channel_bindings is Err {
                    Err(channel_bindings->Err_0)
                } else if operation_bindings is Err {
                    Err(operation_bindings->Err_0)
                } else if message_bindings is Err {
                    Err(message_bindings->Err_0)
                } else {
                    Ok(
                        ComponentsView {
                            schemas: schemas->Ok_0,
                            messages: messages->Ok_0,
                            message_traits: message_traits->Ok_0,
                            correlation_ids: correlation_ids->Ok_0,
                            servers: servers->Ok_0,
                            channels: channels->Ok_0,
                            channel_bindings: channel_bindings->Ok_0,
                            operation_bindings: operation_bindings->Ok_0,
                            message_bindings: message_bindings->Ok_0,
                            extensions: ext_of(entries, Self::known_keys()),
                        },
                    )
                }
            },
            _ => Err(DecodeError::StructuralMismatch),
        }
    }

    /// Decoding what a well-formed value encodes restores it exactly,
    /// extensions included.
    #[verifier::rlimit(100)]
    pub proof fn lemma_round_trip(m: ComponentsView)
        requires
            m.wf(),
        ensures
            Self::decode(m.encode()) == Ok::<_, DecodeError>(m),
    {
        reveal(dec_message_map_entries);
        reveal(dec_message_trait_map_entries);
        reveal(dec_correlation_id_map_entries);
        reveal(dec_server_map_entries);
        reveal(dec_channel_val_map_entries);
        reveal(dec_channel_binding_map_entries);
        reveal(dec_operation_binding_map_entries);
        reveal(dec_message_binding_map_entries);
        let fl = m.field_list();
        let keys = ComponentsView::known_keys();
        lemma_components_keys_distinct();
        assert(forall|p: int| 0 <= p < fl.len() ==> (#[trigger] fl[p]).0 == keys[p]);
        assert(distinct_keys(fl));
        assert(forall|k: Seq<char>| has_field_key(fl, k) ==> keys.contains(k));
        assert(forall|j: int|
            0 <= j < m.extensions.len() ==> !has_field_key(fl, (#[trigger] m.extensions[j]).0));
        lemma_lookup_encoded(fl, m.extensions, 0);
        lemma_lookup_encoded(fl, m.extensions, 1);
        lemma_lookup_encoded(fl, m.extensions, 2);
        lemma_lookup_encoded(fl, m.extensions, 3);
        lemma_lookup_encoded(fl, m.extensions, 4);
        lemma_lookup_encoded(fl, m.extensions, 5);
        lemma_lookup_encoded(fl, m.extensions, 6);
        lemma_lookup_encoded(fl, m.extensions, 7);
        lemma_lookup_encoded(fl, m.extensions, 8);
        lemma_ext_encoded(fl, m.extensions, keys);
        if m.schemas.len() == 0 {
            assert(m.schemas =~= Seq::<(Seq<char>, RefOrView<SchemaView>)>::empty());
            assert(dec_schema_map_entries(Seq::<(Seq<char>, ValueView)>::empty()) == Ok::<
                _,
                DecodeError,
            >(Seq::<(Seq<char>, RefOrView<SchemaView>)>::empty()));
        } else {
            lemma_schema_map_round_trip(m.schemas);
        }
        if m.messages.len() == 0 {
            assert(m.messages =~= Seq::<(Seq<char>, RefOrView<MessageView>)>::empty());
            assert(dec_message_map_entries(Seq::<(Seq<char>, ValueView)>::empty()) == Ok::<
                _,
                DecodeError,
            >(Seq::<(Seq<char>, RefOrView<MessageView>)>::empty()));
        } else {
            lemma_message_map_round_trip(m.messages);
        }
        if m.message_traits.len() == 0 {
            assert(m.message_traits =~= Seq::<(Seq<char>, RefOrView<MessageTraitView>)>::empty());
            assert(dec_message_trait_map_entries(Seq::<(Seq<char>, ValueView)>::empty()) == Ok::<
                _,
                DecodeError,
            >(Seq::<(Seq<char>, RefOrView<MessageTraitView>)>::empty()));
        } else {
            lemma_message_trait_map_round_trip(m.message_traits);
        }
        if m.correlation_ids.len() == 0 {
            assert(m.correlation_ids =~= Seq::<(Seq<char>, RefOrView<CorrelationIdView>)>::empty());
            assert(dec_correlation_id_map_entries(Seq::<(Seq<char>, ValueView)>::empty()) == Ok::<
                _,
                DecodeError,
            >(Seq::<(Seq<char>, RefOrView<CorrelationIdView>)>::empty()));
        } else {
            lemma_correlation_id_map_round_trip(m.correlation_ids);
        }
        if m.servers.len() == 0 {
            assert(m.servers =~= Seq::<(Seq<char>, RefOrView<ServerView>)>::empty());
            assert(dec_server_map_entries(Seq::<(Seq<char>, ValueView)>::empty()) == Ok::<
                _,
                DecodeError,
            >(Seq::<(Seq<char>, RefOrView<ServerView>)>::empty()));
        } else {
            lemma_server_map_round_trip(m.servers);
        }
        if m.channels.len() == 0 {
            assert(m.channels =~= Seq::<(Seq<char>, ChannelView)>::empty());
            assert(dec_channel_val_map_entries(Seq::<(Seq<char>, ValueView)>::empty()) == Ok::<
                _,
                DecodeError,
            >(Seq::<(Seq<char>, ChannelView)>::empty()));
        } else {
            lemma_channel_val_map_round_trip(m.channels);
        }
        if m.channel_bindings.len() == 0 {
            assert(m.channel_bindings =~= Seq::<(Seq<char>, RefOrView<ChannelBindingView>)>::empty());
            assert(dec_channel_binding_map_entries(Seq::<(Seq<char>, ValueView)>::empty()) == Ok::<
                _,
                DecodeError,
            >(Seq::<(Seq<char>, RefOrView<ChannelBindingView>)>::empty()));
        } else {
            lemma_channel_binding_map_round_trip(m.channel_bindings);
        }
        if m.operation_bindings.len() == 0 {
            assert(m.operation_bindings =~= Seq::<(Seq<char>, RefOrView<OperationBindingView>)>::empty());
            assert(dec_operation_binding_map_entries(Seq::<(Seq<char>, ValueView)>::empty()) == Ok::<
                _,
                DecodeError,
            >(Seq::<(Seq<char>, RefOrView<OperationBindingView>)>::empty()));
        } else {
            lemma_operation_binding_map_round_trip(m.operation_bindings);
        }
        if m.message_bindings.len() == 0 {
            assert(m.message_bindings =~= Seq::<(Seq<char>, RefOrView<MessageBindingView>)>::empty());
            assert(dec_message_binding_map_entries(Seq::<(Seq<char>, ValueView)>::empty()) == Ok::<
                _,
                DecodeError,
            >(Seq::<(Seq<char>, RefOrView<MessageBindingView>)>::empty()));
        } else {
            lemma_message_binding_map_round_trip(m.message_bindings);
        }
        assert(Self::decode(m.encode())->Ok_0 =~= m);
    }
}

impl Components {
    /// Decodes this object; unrecognized keys are collected into
    /// `extensions` in source order.
    #[verifier::rlimit(100)]
    pub fn decode(v: &Value) -> (r: Result<Components, DecodeError>)
        ensures
            match r {
                Ok(m) => ComponentsView::decode(v@) == Ok::<_, DecodeError>(m@),
                Err(e) => ComponentsView::decode(v@) == Err::<ComponentsView, _>(e),
            },
    {
        match v {
            Value::Object(entries) => {
                let schemas = match find_field(entries, "schemas") {
                    None => {
                        let p: Vec<(String, RefOr<Schema>)> = Vec::new();
                        proof {
                            assert(schema_map_view(p@) =~= Seq::<(Seq<char>, RefOrView<SchemaView>)>::empty());
                        }
                        p
                    },
                    Some(x) => match x {
                        Value::Object(es) => match decode_schema_map_entries(es) {
                            Ok(p) => p,
                            Err(e) => { return Err(e) },
                        },
                        _ => { return Err(DecodeError::StructuralMismatch) },
                    },
                };
                let messages = match find_field(entries, "messages") {
                    None => {
                        let p: Vec<(String, RefOr<Message>)> = Vec::new();
                        proof {
                            assert(message_map_view(p@) =~= Seq::<(Seq<char>, RefOrView<MessageView>)>::empty());
                        }
                        p
                    },
                    Some(x) => match x {
                        Value::Object(es) => match decode_message_map_entries(es) {
                            Ok(p) => p,
                            Err(e) => { return Err(e) },
                        },
                        _ => { return Err(DecodeError::StructuralMismatch) },
                    },
                };
                let message_traits = match find_field(entries, "messageTraits") {
                    None => {
                        let p: Vec<(String, RefOr<MessageTrait>)> = Vec::new();
                        proof {
                            assert(message_trait_map_view(p@) =~= Seq::<(Seq<char>, RefOrView<MessageTraitView>)>::empty());
                        }
                        p
                    },
                    Some(x) => match x {
                        Value::Object(es) => match decode_message_trait_map_entries(es) {
                            Ok(p) => p,
                            Err(e) => { return Err(e) },
                        },
                        _ => { return Err(DecodeError::StructuralMismatch) },
                    },
                };
                let correlation_ids = match find_field(entries, "correlationIds") {
                    None => {
                        let p: Vec<(String, RefOr<CorrelationId>)> = Vec::new();
                        proof {
                            assert(correlation_id_map_view(p@) =~= Seq::<(Seq<char>, RefOrView<CorrelationIdView>)>::empty());
                        }
                        p
                    },
                    Some(x) => match x {
                        Value::Object(es) => match decode_correlation_id_map_entries(es) {
                            Ok(p) => p,
                            Err(e) => { return Err(e) },
                        },
                        _ => { return Err(DecodeError::StructuralMismatch) },
                    },
                };
                let servers = match find_field(entries, "servers") {
                    None => {
                        let p: Vec<(String, RefOr<Server>)> = Vec::new();
                        proof {
                            assert(server_map_view(p@) =~= Seq::<(Seq<char>, RefOrView<ServerView>)>::empty());
                        }
                        p
                    },
                    Some(x) => match x {
                        Value::Object(es) => match decode_server_map_entries(es) {
                            Ok(p) => p,
                            Err(e) => { return Err(e) },
                        },
                        _ => { return Err(DecodeError::StructuralMismatch) },
                    },
                };
                let channels = match find_field(entries, "channels") {
                    None => {
                        let p: Vec<(String, Channel)> = Vec::new();
                        proof {
                            assert(channel_val_map_view(p@) =~= Seq::<(Seq<char>, ChannelView)>::empty());
                        }
                        p
                    },
                    Some(x) => match x {
                        Value::Object(es) => match decode_channel_val_map_entries(es) {
                            Ok(p) => p,
                            Err(e) => { return Err(e) },
                        },
                        _ => { return Err(DecodeError::StructuralMismatch) },
                    },
                };
                let channel_bindings = match find_field(entries, "channelBindings") {
                    None => {
                        let p: Vec<(String, RefOr<ChannelBinding>)> = Vec::new();
                        proof {
                            assert(channel_binding_map_view(p@) =~= Seq::<(Seq<char>, RefOrView<ChannelBindingView>)>::empty());
                        }
                        p
                    },
                    Some(x) => match x {
                        Value::Object(es) => match decode_channel_binding_map_entries(es) {
                            Ok(p) => p,
                            Err(e) => { return Err(e) },
                        },
                        _ => { return Err(DecodeError::StructuralMismatch) },
                    },
                };
                let operation_bindings = match find_field(entries, "operationBindings") {
                    None => {
                        let p: Vec<(String, RefOr<OperationBinding>)> = Vec::new();
                        proof {
                            assert(operation_binding_map_view(p@) =~= Seq::<(Seq<char>, RefOrView<OperationBindingView>)>::empty());
                        }
                        p
                    },
                    Some(x) => match x {
                        Value::Object(es) => match decode_operation_binding_map_entries(es) {
                            Ok(p) => p,
                            Err(e) => { return Err(e) },
                        },
                        _ => { return Err(DecodeError::StructuralMismatch) },
                    },
                };
                let message_bindings = match find_field(entries, "messageBindings") {
                    None => {
                        let p: Vec<(String, RefOr<MessageBinding>)> = Vec::new();
                        proof {
                            assert(message_binding_map_view(p@) =~= Seq::<(Seq<char>, RefOrView<MessageBindingView>)>::empty());
                        }
                        p
                    },
                    Some(x) => match x {
                        Value::Object(es) => match decode_message_binding_map_entries(es) {
                            Ok(p) => p,
                            Err(e) => { return Err(e) },
                        },
                        _ => { return Err(DecodeError::StructuralMismatch) },
                    },
                };
                let known: [&str; 9] = [
                    "schemas", "messages", "messageTraits", "correlationIds", "servers", "channels", "channelBindings", "operationBindings", "messageBindings",
                ];
                let ks: &[&str] = known.as_slice();
                let extensions = collect_extensions(entries, ks);
                proof {
                    assert(key_views(ks@) =~= ComponentsView::known_keys());
                }
                Ok(
                    Components {
                        schemas,
                        messages,
                        message_traits,
                        correlation_ids,
                        servers,
                        channels,
                        channel_bindings,
                        operation_bindings,
                        message_bindings,
                        extensions,
                    },
                )
            },
            _ => Err(DecodeError::StructuralMismatch),
        }
    }

    /// Encodes this object: declared fields, then extensions.
    #[verifier::rlimit(100)]
    pub fn encode(&self) -> (r: Value)
        ensures
            r@ == self@.encode(),
    {
        let ghost fl = self@.field_list();
        let mut out: Vec<(String, Value)> = Vec::new();
        proof {
            assert(fl.subrange(0, 0) =~= Seq::<(Seq<char>, Option<ValueView>)>::empty());
            assert(present_fields(fl.subrange(0, 0)) =~= Seq::<(Seq<char>, ValueView)>::empty());
            assert(fl.subrange(0, 1) =~= fl.subrange(0, 0).push(fl[0]));
            lemma_present_fields_snoc(fl.subrange(0, 0), fl[0]);
        }
        if self.schemas.len() > 0 {
            let es = encode_schema_map_entries(&self.schemas);
            push_present(&mut out, "schemas", Value::Object(es));
        }
        proof {
            assert(obj_view(out@) =~= present_fields(fl.subrange(0, 1)));
            assert(fl.subrange(0, 2) =~= fl.subrange(0, 1).push(fl[1]));
            lemma_present_fields_snoc(fl.subrange(0, 1), fl[1]);
        }
        if self.messages.len() > 0 {
            let es = encode_message_map_entries(&self.messages);
            push_present(&mut out, "messages", Value::Object(es));
        }
        proof {
            assert(obj_view(out@) =~= present_fields(fl.subrange(0, 2)));
            assert(fl.subrange(0, 3) =~= fl.subrange(0, 2).push(fl[2]));
            lemma_present_fields_snoc(fl.subrange(0, 2), fl[2]);
        }
        if self.message_traits.len() > 0 {
            let es = encode_message_trait_map_entries(&self.message_traits);
            push_present(&mut out, "messageTraits", Value::Object(es));
        }
        proof {
            assert(obj_view(out@) =~= present_fields(fl.subrange(0, 3)));
            assert(fl.subrange(0, 4) =~= fl.subrange(0, 3).push(fl[3]));
            lemma_present_fields_snoc(fl.subrange(0, 3), fl[3]);
        }
        if self.correlation_ids.len() > 0 {
            let es = encode_correlation_id_map_entries(&self.correlation_ids);
            push_present(&mut out, "correlationIds", Value::Object(es));
        }
        proof {
            assert(obj_view(out@) =~= present_fields(fl.subrange(0, 4)));
            assert(fl.subrange(0, 5) =~= fl.subrange(0, 4).push(fl[4]));
            lemma_present_fields_snoc(fl.subrange(0, 4), fl[4]);
        }
        if self.servers.len() > 0 {
            let es = encode_server_map_entries(&self.servers);
            push_present(&mut out, "servers", Value::Object(es));
        }
        proof {
            assert(obj_view(out@) =~= present_fields(fl.subrange(0, 5)));
            assert(fl.subrange(0, 6) =~= fl.subrange(0, 5).push(fl[5]));
            lemma_present_fields_snoc(fl.subrange(0, 5), fl[5]);
        }
        if self.channels.len() > 0 {
            let es = encode_channel_val_map_entries(&self.channels);
            push_present(&mut out, "channels", Value::Object(es));
        }
        proof {
            assert(obj_view(out@) =~= present_fields(fl.subrange(0, 6)));
            assert(fl.subrange(0, 7) =~= fl.subrange(0, 6).push(fl[6]));
            lemma_present_fields_snoc(fl.subrange(0, 6), fl[6]);
        }
        if self.channel_bindings.len() > 0 {
            let es = encode_channel_binding_map_entries(&self.channel_bindings);
            push_present(&mut out, "channelBindings", Value::Object(es));
        }
        proof {
            assert(obj_view(out@) =~= present_fields(fl.subrange(0, 7)));
            assert(fl.subrange(0, 8) =~= fl.subrange(0, 7).push(fl[7]));
            lemma_present_fields_snoc(fl.subrange(0, 7), fl[7]);
        }
        if self.operation_bindings.len() > 0 {
            let es = encode_operation_binding_map_entries(&self.operation_bindings);
            push_present(&mut out, "operationBindings", Value::Object(es));
        }
        proof {
            assert(obj_view(out@) =~= present_fields(fl.subrange(0, 8)));
            assert(fl.subrange(0, 9) =~= fl.subrange(0, 8).push(fl[8]));
            lemma_present_fields_snoc(fl.subrange(0, 8), fl[8]);
        }
        if self.message_bindings.len() > 0 {
            let es = encode_message_binding_map_entries(&self.message_bindings);
            push_present(&mut out, "messageBindings", Value::Object(es));
        }
        proof {
            assert(obj_view(out@) =~= present_fields(fl.subrange(0, 9)));
            assert(fl.subrange(0, 9) =~= fl);
        }
        push_entries(&mut out, &self.extensions);
        Value::Object(out)
    }
}

} // verus!
