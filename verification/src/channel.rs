//! Channels and their publish and subscribe operations.

#![allow(unused_imports)]

use vstd::prelude::*;

use crate::fields::dec_opt_bool;
use crate::fields::dec_opt_i32;
use crate::fields::dec_opt_string;
use crate::fields::dec_req_string;
use crate::fields::dec_value_list;
use crate::fields::dec_value_map;
use crate::fields::dec_vec_string;
use crate::fields::enc_opt_bool;
use crate::fields::enc_opt_i32;
use crate::fields::enc_opt_string;
use crate::fields::enc_string_list;
use crate::fields::encode_string_list;
use crate::fields::encode_value_list;
use crate::fields::encode_value_map;
use crate::fields::get_opt_bool;
use crate::fields::get_opt_i32;
use crate::fields::get_opt_string;
use crate::fields::get_req_string;
use crate::fields::get_value_list;
use crate::fields::get_value_map;
use crate::fields::get_vec_string;
use crate::fields::lemma_string_list_round_trip;
use crate::fields::view_opt_string;
use crate::fields::view_vec_string;
use crate::reference::Ref;
use crate::reference::RefOr;
use crate::reference::RefOrView;
use crate::reference::as_reference;
use crate::reference::enc_ref;
use crate::reference::encode_reference;
use crate::reference::lemma_ref_shape_enc;
use crate::reference::ref_shape;
use crate::value::DecodeError;
use crate::value::Value;
use crate::value::ValueView;
use crate::value::collect_extensions;
use crate::value::distinct_keys;
use crate::value::ext_of;
use crate::value::find_field;
use crate::value::has_field_key;
use crate::value::key_views;
use crate::value::lemma_ext_encoded;
use crate::value::lemma_list_view;
use crate::value::lemma_lookup_encoded;
use crate::value::lemma_obj_view;
use crate::value::lemma_present_fields_snoc;
use crate::value::list_view;
use crate::value::lookup;
use crate::value::obj_view;
use crate::value::present_fields;
use crate::value::push_entries;
use crate::value::push_present;
use crate::tag::Tag;
use crate::tag::TagView;
use crate::tag::tag_list_view;
use crate::tag::enc_tag_list;
use crate::tag::dec_tag_list_items;
use crate::tag::wf_tag_list;
use crate::tag::lemma_tag_list_round_trip;
use crate::tag::encode_tag_list_items;
use crate::tag::decode_tag_list_items;
use crate::tag::lemma_tag_list_view;
use crate::external_documentation::ExternalDocumentation;
use crate::external_documentation::ExternalDocumentationView;
use crate::message::Message;
use crate::message::MessageView;
use crate::message::dec_ref_or_message;
use crate::message::enc_ref_or_message;
use crate::message::wf_ref_or_message;
use crate::message::lemma_ref_or_message_round_trip;
use crate::message::decode_ref_or_message;
use crate::message::encode_ref_or_message;
use crate::operation_binding::OperationBinding;
use crate::operation_binding::OperationBindingView;
use crate::operation_binding::dec_ref_or_operation_binding;
use crate::operation_binding::enc_ref_or_operation_binding;
use crate::operation_binding::wf_ref_or_operation_binding;
use crate::operation_binding::lemma_ref_or_operation_binding_round_trip;
use crate::operation_binding::decode_ref_or_operation_binding;
use crate::operation_binding::encode_ref_or_operation_binding;
use crate::channel_binding::ChannelBinding;
use crate::channel_binding::ChannelBindingView;
use crate::channel_binding::dec_ref_or_channel_binding;
use crate::channel_binding::enc_ref_or_channel_binding;
use crate::channel_binding::wf_ref_or_channel_binding;
use crate::channel_binding::lemma_ref_or_channel_binding_round_trip;
use crate::channel_binding::decode_ref_or_channel_binding;
use crate::channel_binding::encode_ref_or_channel_binding;

verus! {

/// Describes a publish or a subscribe operation: what messages pass over
/// the channel and how they are bound to the transport.
#[derive(Debug, PartialEq)]
pub struct Operation {
    /// A unique string used to identify the operation.
    pub operation_id: Option<String>,
    /// A short summary of what the operation is about.
    pub summary: Option<String>,
    /// A verbose explanation of the operation.
    pub description: Option<String>,
    /// A list of tags for API documentation control.
    pub tags: Vec<Tag>,
    /// Additional external documentation for this operation.
    pub external_docs: Option<ExternalDocumentation>,
    /// Protocol-specific definitions for the operation, keyed by
    /// protocol name.
    pub bindings: Option<RefOr<OperationBinding>>,
    /// A definition of the message that will be published or received
    /// on this channel.
    pub message: Option<RefOr<Message>>,
    /// Unrecognized sibling fields, preserved in source order.
    pub extensions: Vec<(String, Value)>,
}

/// Model of a [`Operation`].
#[verifier::ext_equal]
pub struct OperationView {
    pub operation_id: Option<Seq<char>>,
    pub summary: Option<Seq<char>>,
    pub description: Option<Seq<char>>,
    pub tags: Seq<TagView>,
    pub external_docs: Option<ExternalDocumentationView>,
    pub bindings: Option<RefOrView<OperationBindingView>>,
    pub message: Option<RefOrView<MessageView>>,
    pub extensions: Seq<(Seq<char>, ValueView)>,
}

impl View for Operation {
    type V = OperationView;

    open spec fn view(&self) -> OperationView {
        OperationView {
            operation_id: view_opt_string(self.operation_id),
            summary: view_opt_string(self.summary),
            description: view_opt_string(self.description),
            tags: tag_list_view(self.tags@),
            external_docs: match self.external_docs {
                None => None,
                Some(x) => Some(x@),
            },
            bindings: match self.bindings {
                None => None,
                Some(x) => Some(x@),
            },
            message: match self.message {
                None => None,
                Some(x) => Some(x@),
            },
            extensions: obj_view(self.extensions@),
        }
    }
}

/// The declared keys are pairwise distinct.
pub proof fn lemma_operation_keys_distinct()
    ensures
        forall|p: int, q: int|
            0 <= p < q < OperationView::known_keys().len() ==> OperationView::known_keys()[p]
                != OperationView::known_keys()[q],
{
    reveal_strlit("operationId");
    reveal_strlit("summary");
    reveal_strlit("description");
    reveal_strlit("tags");
    reveal_strlit("externalDocs");
    reveal_strlit("bindings");
    reveal_strlit("message");
    assert("operationId"@.len() == 11);
    assert("summary"@.len() == 7);
    assert("description"@.len() == 11);
    assert("tags"@.len() == 4);
    assert("externalDocs"@.len() == 12);
    assert("bindings"@.len() == 8);
    assert("message"@.len() == 7);
    assert("operationId"@[0] == 'o');
    assert("description"@[0] == 'd');
    assert("summary"@[0] == 's');
    assert("message"@[0] == 'm');
}

impl OperationView {
    /// The declared wire keys.
    pub open spec fn known_keys() -> Seq<Seq<char>> {
        seq!["operationId"@, "summary"@, "description"@, "tags"@, "externalDocs"@, "bindings"@, "message"@]
    }

    /// Declared fields in output order; absent options and empty
    /// sequences are omitted.
    pub open spec fn field_list(self) -> Seq<(Seq<char>, Option<ValueView>)> {
        seq![
            ("operationId"@, enc_opt_string(self.operation_id)),
            ("summary"@, enc_opt_string(self.summary)),
            ("description"@, enc_opt_string(self.description)),
            ("tags"@, if self.tags.len() == 0 {
                None
            } else {
                Some(ValueView::List(enc_tag_list(self.tags)))
            }),
            ("externalDocs"@, match self.external_docs {
                None => None,
                Some(m) => Some(m.encode()),
            }),
            ("bindings"@, match self.bindings {
                None => None,
                Some(x) => Some(enc_ref_or_operation_binding(x)),
            }),
            ("message"@, match self.message {
                None => None,
                Some(x) => Some(enc_ref_or_message(x)),
            }),
        ]
    }

    /// No extension key shadows a declared field, and every nested
    /// entity is well formed.
    pub open spec fn wf(self) -> bool {
        &&& forall|j: int|
            0 <= j < self.extensions.len() ==> !Self::known_keys().contains(
                (#[trigger] self.extensions[j]).0,
            )
        &&& wf_tag_list(self.tags)
        &&& match self.external_docs {
            None => true,
            Some(m) => m.wf(),
        }
        &&& match self.bindings {
            None => true,
            Some(x) => wf_ref_or_operation_binding(x),
        }
        &&& match self.message {
            None => true,
            Some(x) => wf_ref_or_message(x),
        }
    }

    /// The encoding: declared fields first, then the extensions.
    pub open spec fn encode(self) -> ValueView {
        ValueView::Object(present_fields(self.field_list()) + self.extensions)
    }

    /// The decoding of a structural value as this object.
    pub open spec fn decode(v: ValueView) -> Result<Self, DecodeError> {
        match v {
            ValueView::Object(entries) => {
                let operation_id = dec_opt_string(lookup(entries, "operationId"@));
                let summary = dec_opt_string(lookup(entries, "summary"@));
                let description = dec_opt_string(lookup(entries, "description"@));
                let tags = match lookup(entries, "tags"@) {
                    None => Ok(Seq::<TagView>::empty()),
                    Some(ValueView::List(items)) => dec_tag_list_items(items),
                    Some(_) => Err(DecodeError::StructuralMismatch),
                };
                let external_docs = match lookup(entries, "externalDocs"@) {
                    None => Ok(None),
                    Some(pv) => match ExternalDocumentationView::decode(pv) {
                        Ok(m) => Ok(Some(m)),
                        Err(e) => Err(e),
                    },
                };
                let bindings = match lookup(entries, "bindings"@) {
                    None => Ok(None),
                    Some(pv) => match dec_ref_or_operation_binding(pv) {
                        Ok(x) => Ok(Some(x)),
                        Err(e) => Err(e),
                    },
                };
                let message = match lookup(entries, "message"@) {
                    None => Ok(None),
                    Some(pv) => match dec_ref_or_message(pv) {
                        Ok(x) => Ok(Some(x)),
                        Err(e) => Err(e),
                    },
                };
                if operation_id is Err {
                    Err(operation_id->Err_0)
                } else if summary is Err {
                    Err(summary->Err_0)
                } else if description is Err {
                    Err(description->Err_0)
                } else if tags is Err {
                    Err(tags->Err_0)
                } else if external_docs is Err {
                    Err(external_docs->Err_0)
                } else if bindings is Err {
                    Err(bindings->Err_0)
                } else if message is Err {
                    Err(message->Err_0)
                } else {
                    Ok(
                        OperationView {
                            operation_id: operation_id->Ok_0,
                            summary: summary->Ok_0,
                            description: description->Ok_0,
                            tags: tags->Ok_0,
                            external_docs: external_docs->Ok_0,
                            bindings: bindings->Ok_0,
                            message: message->Ok_0,
                            extensions: ext_of(entries, Self::known_keys()),
                        },
                    )
                }
            },
            _ => Err(DecodeError::StructuralMismatch),
        }
    }

    /// Decoding what a well-formed value encodes restores it exactly,
    /// extensions included.
    #[verifier::rlimit(100)]
    pub proof fn lemma_round_trip(m: OperationView)
        requires
            m.wf(),
        ensures
            Self::decode(m.encode()) == Ok::<_, DecodeError>(m),
    {
        reveal(dec_tag_list_items);
        reveal(dec_ref_or_operation_binding);
        reveal(dec_ref_or_message);
        let fl = m.field_list();
        let keys = OperationView::known_keys();
        lemma_operation_keys_distinct();
        assert(forall|p: int| 0 <= p < fl.len() ==> (#[trigger] fl[p]).0 == keys[p]);
        assert(distinct_keys(fl));
        assert(forall|k: Seq<char>| has_field_key(fl, k) ==> keys.contains(k));
        assert(forall|j: int|
            0 <= j < m.extensions.len() ==> !has_field_key(fl, (#[trigger] m.extensions[j]).0));
        lemma_lookup_encoded(fl, m.extensions, 0);
        lemma_lookup_encoded(fl, m.extensions, 1);
        lemma_lookup_encoded(fl, m.extensions, 2);
        lemma_lookup_encoded(fl, m.extensions, 3);
        lemma_lookup_encoded(fl, m.extensions, 4);
        lemma_lookup_encoded(fl, m.extensions, 5);
        lemma_lookup_encoded(fl, m.extensions, 6);
        lemma_ext_encoded(fl, m.extensions, keys);
        if m.tags.len() == 0 {
            assert(m.tags =~= Seq::<TagView>::empty());
            assert(dec_tag_list_items(Seq::<ValueView>::empty()) == Ok::<_, DecodeError>(
                Seq::<TagView>::empty(),
            ));
        } else {
            lemma_tag_list_round_trip(m.tags);
        }
        match m.external_docs {
            None => {},
            Some(x) => {
                ExternalDocumentationView::lemma_round_trip(x);
            },
        }
        match m.bindings {
            None => {},
            Some(x) => {
                lemma_ref_or_operation_binding_round_trip(x);
            },
        }
        match m.message {
            None => {},
            Some(x) => {
                lemma_ref_or_message_round_trip(x);
            },
        }
        assert(Self::decode(m.encode())->Ok_0 =~= m);
    }
}

impl Operation {
    /// Decodes this object; unrecognized keys are collected into
    /// `extensions` in source order.
    #[verifier::rlimit(100)]
    pub fn decode(v: &Value) -> (r: Result<Operation, DecodeError>)
        ensures
            match r {
                Ok(m) => OperationView::decode(v@) == Ok::<_, DecodeError>(m@),
                Err(e) => OperationView::decode(v@) == Err::<OperationView, _>(e),
            },
    {
        match v {
            Value::Object(entries) => {
                let operation_id = match get_opt_string(find_field(entries, "operationId")) {
                    Ok(x) => x,
                    Err(e) => { return Err(e) },
                };
                let summary = match get_opt_string(find_field(entries, "summary")) {
                    Ok(x) => x,
                    Err(e) => { return Err(e) },
                };
                let description = match get_opt_string(find_field(entries, "description")) {
                    Ok(x) => x,
                    Err(e) => { return Err(e) },
                };
                let tags = match find_field(entries, "tags") {
                    None => {
                        let p: Vec<Tag> = Vec::new();
                        proof {
                            assert(tag_list_view(p@) =~= Seq::<TagView>::empty());
                        }
                        p
                    },
                    Some(x) => match x {
                        Value::List(items) => match decode_tag_list_items(items) {
                            Ok(p) => p,
                            Err(e) => { return Err(e) },
                        },
                        _ => { return Err(DecodeError::StructuralMismatch) },
                    },
                };
                let external_docs = match find_field(entries, "externalDocs") {
                    None => None,
                    Some(x) => match ExternalDocumentation::decode(x) {
                        Ok(m) => Some(m),
                        Err(e) => { return Err(e) },
                    },
                };
                let bindings = match find_field(entries, "bindings") {
                    None => None,
                    Some(x) => match decode_ref_or_operation_binding(x) {
                        Ok(m) => Some(m),
                        Err(e) => { return Err(e) },
                    },
                };
                let message = match find_field(entries, "message") {
                    None => None,
                    Some(x) => match decode_ref_or_message(x) {
                        Ok(m) => Some(m),
                        Err(e) => { return Err(e) },
                    },
                };
                let known: [&str; 7] = [
                    "operationId", "summary", "description", "tags", "externalDocs", "bindings", "message",
                ];
                let ks: &[&str] = known.as_slice();
                let extensions = collect_extensions(entries, ks);
                proof {
                    assert(key_views(ks@) =~= OperationView::known_keys());
                }
                Ok(
                    Operation {
                        operation_id,
                        summary,
                        description,
                        tags,
                        external_docs,
                        bindings,
                        message,
                        extensions,
                    },
                )
            },
            _ => Err(DecodeError::StructuralMismatch),
        }
    }

    /// Encodes this object: declared fields, then extensions.
    #[verifier::rlimit(100)]
    pub fn encode(&self) -> (r: Value)
        ensures
            r@ == self@.encode(),
    {
        let ghost fl = self@.field_list();
        let mut out: Vec<(String, Value)> = Vec::new();
        proof {
            assert(fl.subrange(0, 0) =~= Seq::<(Seq<char>, Option<ValueView>)>::empty());
            assert(present_fields(fl.subrange(0, 0)) =~= Seq::<(Seq<char>, ValueView)>::empty());
            assert(fl.subrange(0, 1) =~= fl.subrange(0, 0).push(fl[0]));
            lemma_present_fields_snoc(fl.subrange(0, 0), fl[0]);
        }
        if let Some(x) = &self.operation_id {
            push_present(&mut out, "operationId", Value::Str(x.clone()));
        }
        proof {
            assert(obj_view(out@) =~= present_fields(fl.subrange(0, 1)));
            assert(fl.subrange(0, 2) =~= fl.subrange(0, 1).push(fl[1]));
            lemma_present_fields_snoc(fl.subrange(0, 1), fl[1]);
        }
        if let Some(x) = &self.summary {
            push_present(&mut out, "summary", Value::Str(x.clone()));
        }
        proof {
            assert(obj_view(out@) =~= present_fields(fl.subrange(0, 2)));
            assert(fl.subrange(0, 3) =~= fl.subrange(0, 2).push(fl[2]));
            lemma_present_fields_snoc(fl.subrange(0, 2), fl[2]);
        }
        if let Some(x) = &self.description {
            push_present(&mut out, "description", Value::Str(x.clone()));
        }
        proof {
            assert(obj_view(out@) =~= present_fields(fl.subrange(0, 3)));
            assert(fl.subrange(0, 4) =~= fl.subrange(0, 3).push(fl[3]));
            lemma_present_fields_snoc(fl.subrange(0, 3), fl[3]);
        }
        if self.tags.len() > 0 {
            let items = encode_tag_list_items(&self.tags);
            push_present(&mut out, "tags", Value::List(items));
        }
        proof {
            assert(obj_view(out@) =~= present_fields(fl.subrange(0, 4)));
            assert(fl.subrange(0, 5) =~= fl.subrange(0, 4).push(fl[4]));
            lemma_present_fields_snoc(fl.subrange(0, 4), fl[4]);
        }
        if let Some(m) = &self.external_docs {
            let ev = m.encode();
            push_present(&mut out, "externalDocs", ev);
        }
        proof {
            assert(obj_view(out@) =~= present_fields(fl.subrange(0, 5)));
            assert(fl.subrange(0, 6) =~= fl.subrange(0, 5).push(fl[5]));
            lemma_present_fields_snoc(fl.subrange(0, 5), fl[5]);
        }
        if let Some(x) = &self.bindings {
            let ev = encode_ref_or_operation_binding(x);
            push_present(&mut out, "bindings", ev);
        }
        proof {
            assert(obj_view(out@) =~= present_fields(fl.subrange(0, 6)));
            assert(fl.subrange(0, 7) =~= fl.subrange(0, 6).push(fl[6]));
            lemma_present_fields_snoc(fl.subrange(0, 6), fl[6]);
        }
        if let Some(x) = &self.message {
            let ev = encode_ref_or_message(x);
            push_present(&mut out, "message", ev);
        }
        proof {
            assert(obj_view(out@) =~= present_fields(fl.subrange(0, 7)));
            assert(fl.subrange(0, 7) =~= fl);
        }
        push_entries(&mut out, &self.extensions);
        Value::Object(out)
    }
}

/// Describes a single channel: an addressable path over which messages
/// are published and subscribed.
#[derive(Debug, PartialEq)]
pub struct Channel {
    /// An optional description of this channel item.
    pub description: Option<String>,
    /// A definition of the subscribe operation, which defines the
    /// messages consumed by the application from the channel.
    pub subscribe: Option<Operation>,
    /// A definition of the publish operation, which defines the
    /// messages produced by the application and sent to the channel.
    pub publish: Option<Operation>,
    /// Protocol-specific definitions for the channel, keyed by protocol
    /// name.
    pub bindings: Option<RefOr<ChannelBinding>>,
    /// Unrecognized sibling fields, preserved in source order.
    pub extensions: Vec<(String, Value)>,
}

/// Model of a [`Channel`].
#[verifier::ext_equal]
pub struct ChannelView {
    pub description: Option<Seq<char>>,
    pub subscribe: Option<OperationView>,
    pub publish: Option<OperationView>,
    pub bindings: Option<RefOrView<ChannelBindingView>>,
    pub extensions: Seq<(Seq<char>, ValueView)>,
}

impl View for Channel {
    type V = ChannelView;

    open spec fn view(&self) -> ChannelView {
        ChannelView {
            description: view_opt_string(self.description),
            subscribe: match self.subscribe {
                None => None,
                Some(x) => Some(x@),
            },
            publish: match self.publish {
                None => None,
                Some(x) => Some(x@),
            },
            bindings: match self.bindings {
                None => None,
                Some(x) => Some(x@),
            },
            extensions: obj_view(self.extensions@),
        }
    }
}

/// The declared keys are pairwise distinct.
pub proof fn lemma_channel_keys_distinct()
    ensures
        forall|p: int, q: int|
            0 <= p < q < ChannelView::known_keys().len() ==> ChannelView::known_keys()[p]
                != ChannelView::known_keys()[q],
{
    reveal_strlit("description");
    reveal_strlit("subscribe");
    reveal_strlit("publish");
    reveal_strlit("bindings");
    assert("description"@.len() == 11);
    assert("subscribe"@.len() == 9);
    assert("publish"@.len() == 7);
    assert("bindings"@.len() == 8);
}

impl ChannelView {
    /// The declared wire keys.
    pub open spec fn known_keys() -> Seq<Seq<char>> {
        seq!["description"@, "subscribe"@, "publish"@, "bindings"@]
    }

    /// Declared fields in output order; absent options and empty
    /// sequences are omitted.
    pub open spec fn field_list(self) -> Seq<(Seq<char>, Option<ValueView>)> {
        seq![
            ("description"@, enc_opt_string(self.description)),
            ("subscribe"@, match self.subscribe {
                None => None,
                Some(m) => Some(m.encode()),
            }),
            ("publish"@, match self.publish {
                None => None,
                Some(m) => Some(m.encode()),
            }),
            ("bindings"@, match self.bindings {
                None => None,
                Some(x) => Some(enc_ref_or_channel_binding(x)),
            }),
        ]
    }

    /// No extension key shadows a declared field, and every nested
    /// entity is well formed.
    pub open spec fn wf(self) -> bool {
        &&& forall|j: int|
            0 <= j < self.extensions.len() ==> !Self::known_keys().contains(
                (#[trigger] self.extensions[j]).0,
            )
        &&& match self.subscribe {
            None => true,
            Some(m) => m.wf(),
        }
        &&& match self.publish {
            None => true,
            Some(m) => m.wf(),
        }
        &&& match self.bindings {
            None => true,
            Some(x) => wf_ref_or_channel_binding(x),
        }
    }

    /// The encoding: declared fields first, then the extensions.
    pub open spec fn encode(self) -> ValueView {
        ValueView::Object(present_fields(self.field_list()) + self.extensions)
    }

    /// The decoding of a structural value as this object.
    pub open spec fn decode(v: ValueView) -> Result<Self, DecodeError> {
        match v {
            ValueView::Object(entries) => {
                let description = dec_opt_string(lookup(entries, "description"@));
                let subscribe = match lookup(entries, "subscribe"@) {
                    None => Ok(None),
                    Some(pv) => match OperationView::decode(pv) {
                        Ok(m) => Ok(Some(m)),
                        Err(e) => Err(e),
                    },
                };
                let publish = match lookup(entries, "publish"@) {
                    None => Ok(None),
                    Some(pv) => match OperationView::decode(pv) {
                        Ok(m) => Ok(Some(m)),
                        Err(e) => Err(e),
                    },
                };
                let bindings = match lookup(entries, "bindings"@) {
                    None => Ok(None),
                    Some(pv) => match dec_ref_or_channel_binding(pv) {
                        Ok(x) => Ok(Some(x)),
                        Err(e) => Err(e),
                    },
                };
                if description is Err {
                    Err(description->Err_0)
                } else if subscribe is Err {
                    Err(subscribe->Err_0)
                } else if publish is Err {
                    Err(publish->Err_0)
                } else if bindings is Err {
                    Err(bindings->Err_0)
                } else {
                    Ok(
                        ChannelView {
                            description: description->Ok_0,
                            subscribe: subscribe->Ok_0,
                            publish: publish->Ok_0,
                            bindings: bindings->Ok_0,
                            extensions: ext_of(entries, Self::known_keys()),
                        },
                    )
                }
            },
            _ => Err(DecodeError::StructuralMismatch),
        }
    }

    /// Decoding what a well-formed value encodes restores it exactly,
    /// extensions included.
    #[verifier::rlimit(100)]
    pub proof fn lemma_round_trip(m: ChannelView)
        requires
            m.wf(),
        ensures
            Self::decode(m.encode()) == Ok::<_, DecodeError>(m),
    {
        reveal(dec_ref_or_channel_binding);
        let fl = m.field_list();
        let keys = ChannelView::known_keys();
        lemma_channel_keys_distinct();
        assert(forall|p: int| 0 <= p < fl.len() ==> (#[trigger] fl[p]).0 == keys[p]);
        assert(distinct_keys(fl));
        assert(forall|k: Seq<char>| has_field_key(fl, k) ==> keys.contains(k));
        assert(forall|j: int|
            0 <= j < m.extensions.len() ==> !has_field_key(fl, (#[trigger] m.extensions[j]).0));
        lemma_lookup_encoded(fl, m.extensions, 0);
        lemma_lookup_encoded(fl, m.extensions, 1);
        lemma_lookup_encoded(fl, m.extensions, 2);
        lemma_lookup_encoded(fl, m.extensions, 3);
        lemma_ext_encoded(fl, m.extensions, keys);
        match m.subscribe {
            None => {},
            Some(x) => {
                OperationView::lemma_round_trip(x);
            },
        }
        match m.publish {
            None => {},
            Some(x) => {
                OperationView::lemma_round_trip(x);
            },
        }
        match m.bindings {
            None => {},
            Some(x) => {
                lemma_ref_or_channel_binding_round_trip(x);
            },
        }
        assert(Self::decode(m.encode())->Ok_0 =~= m);
    }
}

impl Channel {
    /// Decodes this object; unrecognized keys are collected into
    /// `extensions` in source order.
    #[verifier::rlimit(100)]
    pub fn decode(v: &Value) -> (r: Result<Channel, DecodeError>)
        ensures
            match r {
                Ok(m) => ChannelView::decode(v@) == Ok::<_, DecodeError>(m@),
                Err(e) => ChannelView::decode(v@) == Err::<ChannelView, _>(e),
            },
    {
        match v {
            Value::Object(entries) => {
                let description = match get_opt_string(find_field(entries, "description")) {
                    Ok(x) => x,
                    Err(e) => { return Err(e) },
                };
                let subscribe = match find_field(entries, "subscribe") {
                    None => None,
                    Some(x) => match Operation::decode(x) {
                        Ok(m) => Some(m),
                        Err(e) => { return Err(e) },
                    },
                };
                let publish = match find_field(entries, "publish") {
                    None => None,
                    Some(x) => match Operation::decode(x) {
                        Ok(m) => Some(m),
                        Err(e) => { return Err(e) },
                    },
                };
                let bindings = match find_field(entries, "bindings") {
                    None => None,
                    Some(x) => match decode_ref_or_channel_binding(x) {
                        Ok(m) => Some(m),
                        Err(e) => { return Err(e) },
                    },
                };
                let known: [&str; 4] = [
                    "description", "subscribe", "publish", "bindings",
                ];
                let ks: &[&str] = known.as_slice();
                let extensions = collect_extensions(entries, ks);
                proof {
                    assert(key_views(ks@) =~= ChannelView::known_keys());
                }
                Ok(
                    Channel {
                        description,
                        subscribe,
                        publish,
                        bindings,
                        extensions,
                    },
                )
            },
            _ => Err(DecodeError::StructuralMismatch),
        }
    }

    /// Encodes this object: declared fields, then extensions.
    #[verifier::rlimit(100)]
    pub fn encode(&self) -> (r: Value)
        ensures
            r@ == self@.encode(),
    {
        let ghost fl = self@.field_list();
        let mut out: Vec<(String, Value)> = Vec::new();
        proof {
            assert(fl.subrange(0, 0) =~= Seq::<(Seq<char>, Option<ValueView>)>::empty());
            assert(present_fields(fl.subrange(0, 0)) =~= Seq::<(Seq<char>, ValueView)>::empty());
            assert(fl.subrange(0, 1) =~= fl.subrange(0, 0).push(fl[0]));
            lemma_present_fields_snoc(fl.subrange(0, 0), fl[0]);
        }
        if let Some(x) = &self.description {
            push_present(&mut out, "description", Value::Str(x.clone()));
        }
        proof {
            assert(obj_view(out@) =~= present_fields(fl.subrange(0, 1)));
            assert(fl.subrange(0, 2) =~= fl.subrange(0, 1).push(fl[1]));
            lemma_present_fields_snoc(fl.subrange(0, 1), fl[1]);
        }
        if let Some(m) = &self.subscribe {
            let ev = m.encode();
            push_present(&mut out, "subscribe", ev);
        }
        proof {
            assert(obj_view(out@) =~= present_fields(fl.subrange(0, 2)));
            assert(fl.subrange(0, 3) =~= fl.subrange(0, 2).push(fl[2]));
            lemma_present_fields_snoc(fl.subrange(0, 2), fl[2]);
        }
        if let Some(m) = &self.publish {
            let ev = m.encode();
            push_present(&mut out, "publish", ev);
        }
        proof {
            assert(obj_view(out@) =~= present_fields(fl.subrange(0, 3)));
            assert(fl.subrange(0, 4) =~= fl.subrange(0, 3).push(fl[3]));
            lemma_present_fields_snoc(fl.subrange(0, 3), fl[3]);
        }
        if let Some(x) = &self.bindings {
            let ev = encode_ref_or_channel_binding(x);
            push_present(&mut out, "bindings", ev);
        }
        proof {
            assert(obj_view(out@) =~= present_fields(fl.subrange(0, 4)));
            assert(fl.subrange(0, 4) =~= fl);
        }
        push_entries(&mut out, &self.extensions);
        Value::Object(out)
    }
}

/// Model of a named channel mapping, entry by entry.
pub open spec fn channel_val_map_view(m: Seq<(String, Channel)>) -> Seq<(Seq<char>, ChannelView)>
    decreases m.len(),
{
    if m.len() == 0 {
        Seq::empty()
    } else {
        seq![(m[0].0@, m[0].1@)] + channel_val_map_view(m.subrange(1, m.len() as int))
    }
}

/// `channel_val_map_view` maps the entry sequence pointwise.
pub broadcast proof fn lemma_channel_val_map_view(m: Seq<(String, Channel)>)
    ensures
        (#[trigger] channel_val_map_view(m)).len() == m.len(),
        forall|i: int|
            0 <= i < m.len() ==> channel_val_map_view(m)[i] == (m[i].0@, m[i].1@),
    decreases m.len(),
{
    if m.len() > 0 {
        lemma_channel_val_map_view(m.subrange(1, m.len() as int));
    }
}

/// The encoding of a named channel mapping, entry by entry.
pub open spec fn enc_channel_val_map(m: Seq<(Seq<char>, ChannelView)>) -> Seq<(Seq<char>, ValueView)>
    decreases m.len(),
{
    if m.len() == 0 {
        Seq::empty()
    } else {
        seq![(m[0].0, m[0].1.encode())] + enc_channel_val_map(m.subrange(1, m.len() as int))
    }
}

/// The decoding of a named channel mapping, entry by entry.
#[verifier::opaque]
pub open spec fn dec_channel_val_map_entries(entries: Seq<(Seq<char>, ValueView)>) -> Result<
    Seq<(Seq<char>, ChannelView)>,
    DecodeError,
>
    decreases entries.len(),
{
    if entries.len() == 0 {
        Ok(Seq::empty())
    } else {
        let head = ChannelView::decode(entries[0].1);
        let rest = dec_channel_val_map_entries(entries.subrange(1, entries.len() as int));
        if head is Err {
            Err(head->Err_0)
        } else if rest is Err {
            Err(rest->Err_0)
        } else {
            Ok(seq![(entries[0].0, head->Ok_0)] + rest->Ok_0)
        }
    }
}

/// Every entry of the mapping is well formed.
pub open spec fn wf_channel_val_map(m: Seq<(Seq<char>, ChannelView)>) -> bool
    decreases m.len(),
{
    m.len() == 0 || (m[0].1.wf() && wf_channel_val_map(m.subrange(1, m.len() as int)))
}

/// Decoding an encoded channel mapping restores it.
pub proof fn lemma_channel_val_map_round_trip(m: Seq<(Seq<char>, ChannelView)>)
    requires
        wf_channel_val_map(m),
    ensures
        dec_channel_val_map_entries(enc_channel_val_map(m)) == Ok::<_, DecodeError>(m),
    decreases m.len(),
{
    reveal(dec_channel_val_map_entries);
    if m.len() > 0 {
        let rest = m.subrange(1, m.len() as int);
        ChannelView::lemma_round_trip(m[0].1);
        lemma_channel_val_map_round_trip(rest);
        let whole = enc_channel_val_map(m);
        assert(whole[0] == (m[0].0, m[0].1.encode()));
        assert(whole.subrange(1, whole.len() as int) =~= enc_channel_val_map(rest));
        assert(dec_channel_val_map_entries(whole)->Ok_0 =~= m);
    } else {
        assert(m =~= Seq::<(Seq<char>, ChannelView)>::empty());
        assert(enc_channel_val_map(m) =~= Seq::<(Seq<char>, ValueView)>::empty());
        assert(dec_channel_val_map_entries(enc_channel_val_map(m))->Ok_0 =~= m);
    }
}

/// Encodes a named channel mapping, entry by entry.
pub fn encode_channel_val_map_entries(m: &Vec<(String, Channel)>) -> (res: Vec<(String, Value)>)
    ensures
        obj_view(res@) == enc_channel_val_map(channel_val_map_view(m@)),
{
    let ghost mv = channel_val_map_view(m@);
    proof {
        lemma_channel_val_map_view(m@);
    }
    let n = m.len();
    let mut out: Vec<(String, Value)> = Vec::new();
    let mut i: usize = 0;
    proof {
        assert(mv.subrange(0, mv.len() as int) =~= mv);
        assert(obj_view(out@) + enc_channel_val_map(mv) =~= enc_channel_val_map(mv));
    }
    while i < n
        invariant
            n == m@.len(),
            0 <= i <= n,
            mv == channel_val_map_view(m@),
            mv.len() == n,
            forall|j: int| 0 <= j < n ==> channel_val_map_view(m@)[j] == (m@[j].0@, m@[j].1@),
            enc_channel_val_map(mv) == obj_view(out@) + enc_channel_val_map(mv.subrange(i as int, n as int)),
        decreases n - i,
    {
        let ghost prev = out@;
        let k = m[i].0.clone();
        let ev = m[i].1.encode();
        out.push((k, ev));
        proof {
            let tail = mv.subrange(i as int, n as int);
            assert(tail[0] == mv[i as int]);
            assert(tail.subrange(1, tail.len() as int) =~= mv.subrange(i as int + 1, n as int));
            lemma_obj_view(out@);
            lemma_obj_view(prev);
            assert(obj_view(out@) =~= obj_view(prev).push((mv[i as int].0, mv[i as int].1.encode())));
            assert(obj_view(prev) + (seq![(mv[i as int].0, mv[i as int].1.encode())] + enc_channel_val_map(
                mv.subrange(i as int + 1, n as int),
            )) =~= obj_view(out@) + enc_channel_val_map(mv.subrange(i as int + 1, n as int)));
        }
        i += 1;
    }
    proof {
        assert(mv.subrange(n as int, n as int) =~= Seq::<(Seq<char>, ChannelView)>::empty());
        assert(enc_channel_val_map(mv.subrange(n as int, n as int)) =~= Seq::<(Seq<char>, ValueView)>::empty());
        assert(obj_view(out@) + Seq::<(Seq<char>, ValueView)>::empty() =~= obj_view(out@));
    }
    out
}

/// Decodes the entries of a named channel mapping.
pub fn decode_channel_val_map_entries(entries: &Vec<(String, Value)>) -> (r: Result<Vec<(String, Channel)>, DecodeError>)
    ensures
        match r {
            Ok(x) => dec_channel_val_map_entries(obj_view(entries@)) == Ok::<_, DecodeError>(channel_val_map_view(x@)),
            Err(e) => dec_channel_val_map_entries(obj_view(entries@)) == Err::<Seq<(Seq<char>, ChannelView)>, _>(e),
        },
{
    proof {
        reveal(dec_channel_val_map_entries);
    }
    let ghost ov = obj_view(entries@);
    proof {
        lemma_obj_view(entries@);
    }
    let n = entries.len();
    let mut out: Vec<(String, Channel)> = Vec::new();
    let mut i: usize = 0;
    proof {
        assert(ov.subrange(0, ov.len() as int) =~= ov);
        assert(channel_val_map_view(out@) =~= Seq::<(Seq<char>, ChannelView)>::empty());
        lemma_channel_val_map_view(out@);
    }
    while i < n
        invariant
            n == entries@.len(),
            0 <= i <= n,
            ov == obj_view(entries@),
            ov.len() == n,
            forall|j: int|
                0 <= j < n ==> ov[j] == (entries@[j].0@, crate::value::value_view(
                    entries@[j].1,
                )),
            dec_channel_val_map_entries(ov) == (match dec_channel_val_map_entries(ov.subrange(i as int, n as int)) {
                Ok(t) => Ok::<_, DecodeError>(channel_val_map_view(out@) + t),
                Err(e) => Err(e),
            }),
        decreases n - i,
    {
        let ghost prev = out@;
        let ghost tail = ov.subrange(i as int, n as int);
        proof {
            reveal(dec_channel_val_map_entries);
            assert(tail[0] == ov[i as int]);
            assert(tail.subrange(1, tail.len() as int) =~= ov.subrange(i as int + 1, n as int));
        }
        let k = entries[i].0.clone();
        match Channel::decode(&entries[i].1) {
            Ok(x) => {
                out.push((k, x));
                proof {
                    reveal(dec_channel_val_map_entries);
                    lemma_channel_val_map_view(out@);
                    lemma_channel_val_map_view(prev);
                    assert(channel_val_map_view(out@) =~= channel_val_map_view(prev).push((ov[i as int].0, x@)));
                    assert(channel_val_map_view(prev) + (seq![(ov[i as int].0, x@)] + dec_channel_val_map_entries(
                        ov.subrange(i as int + 1, n as int),
                    )->Ok_0) =~= channel_val_map_view(out@) + dec_channel_val_map_entries(
                        ov.subrange(i as int + 1, n as int),
                    )->Ok_0);
                }
            },
            Err(e) => {
                return Err(e);
            },
        }
        i += 1;
    }
    proof {
        reveal(dec_channel_val_map_entries);
        assert(ov.subrange(n as int, n as int) =~= Seq::<(Seq<char>, ValueView)>::empty());
        assert(channel_val_map_view(out@) + Seq::<(Seq<char>, ChannelView)>::empty() =~= channel_val_map_view(out@));
    }
    Ok(out)
}

} // verus!
