//! Protocol-specific definitions for an operation, dispatched by protocol
//! name; unrecognized protocols land in the extension bag.

#![allow(unused_imports)]

use vstd::prelude::*;

use crate::fields::dec_opt_bool;
use crate::fields::dec_opt_i32;
use crate::fields::dec_opt_string;
use crate::fields::dec_req_string;
use crate::fields::dec_vec_string;
use crate::fields::enc_opt_bool;
use crate::fields::enc_opt_i32;
use crate::fields::enc_opt_string;
use crate::fields::enc_string_list;
use crate::fields::encode_string_list;
use crate::fields::get_opt_bool;
use crate::fields::get_opt_i32;
use crate::fields::get_opt_string;
use crate::fields::get_req_string;
use crate::fields::get_vec_string;
use crate::fields::lemma_string_list_round_trip;
use crate::fields::view_opt_string;
use crate::fields::view_vec_string;
use crate::reference::Ref;
use crate::reference::RefOr;
use crate::reference::RefOrView;
use crate::reference::as_reference;
use crate::reference::enc_ref;
use crate::reference::encode_reference;
use crate::reference::lemma_ref_shape_enc;
use crate::reference::ref_shape;
use crate::schema::Schema;
use crate::schema::SchemaView;
use crate::schema::lemma_schema_round_trip;
use crate::schema::schema_view;
use crate::value::lemma_list_view;
use crate::value::lemma_obj_view;
use crate::value::list_view;
use crate::value::DecodeError;
use crate::value::Value;
use crate::value::ValueView;
use crate::value::collect_extensions;
use crate::value::distinct_keys;
use crate::value::ext_of;
use crate::value::find_field;
use crate::value::has_field_key;
use crate::value::key_views;
use crate::value::lemma_ext_encoded;
use crate::value::lemma_lookup_encoded;
use crate::value::lemma_present_fields_snoc;
use crate::value::lookup;
use crate::value::obj_view;
use crate::value::present_fields;
use crate::value::push_entries;
use crate::value::push_present;

verus! {

/// Protocol-specific information for an HTTP operation.
#[derive(Debug, PartialEq)]
pub struct HTTPOperationBinding {
    /// Type of operation. Its value must be either `request` or
    /// `response`. Required.
    pub typ: String,
    /// When `type` is `request`, this is the HTTP method; otherwise it
    /// must be ignored.
    pub method: Option<String>,
    /// A schema containing the definitions for each query parameter.
    pub query: Option<Schema>,
    /// The version of this binding. If omitted, "latest" must be
    /// assumed.
    pub binding_version: Option<String>,
    /// Unrecognized sibling fields, preserved in source order.
    pub extensions: Vec<(String, Value)>,
}

/// Model of a [`HTTPOperationBinding`].
#[verifier::ext_equal]
pub struct HTTPOperationBindingView {
    pub typ: Seq<char>,
    pub method: Option<Seq<char>>,
    pub query: Option<SchemaView>,
    pub binding_version: Option<Seq<char>>,
    pub extensions: Seq<(Seq<char>, ValueView)>,
}

impl View for HTTPOperationBinding {
    type V = HTTPOperationBindingView;

    open spec fn view(&self) -> HTTPOperationBindingView {
        HTTPOperationBindingView {
            typ: self.typ@,
            method: view_opt_string(self.method),
            query: match self.query {
                None => None,
                Some(x) => Some(schema_view(x)),
            },
            binding_version: view_opt_string(self.binding_version),
            extensions: obj_view(self.extensions@),
        }
    }
}

/// The declared keys are pairwise distinct.
pub proof fn lemma_http_operation_binding_keys_distinct()
    ensures
        forall|p: int, q: int|
            0 <= p < q < HTTPOperationBindingView::known_keys().len() ==> HTTPOperationBindingView::known_keys()[p]
                != HTTPOperationBindingView::known_keys()[q],
{
    reveal_strlit("type");
    reveal_strlit("method");
    reveal_strlit("query");
    reveal_strlit("bindingVersion");
    assert("type"@.len() == 4);
    assert("method"@.len() == 6);
    assert("query"@.len() == 5);
    assert("bindingVersion"@.len() == 14);
}

impl HTTPOperationBindingView {
    /// The declared wire keys.
    pub open spec fn known_keys() -> Seq<Seq<char>> {
        seq!["type"@, "method"@, "query"@, "bindingVersion"@]
    }

    /// Declared fields in output order; absent options and empty
    /// sequences are omitted.
    pub open spec fn field_list(self) -> Seq<(Seq<char>, Option<ValueView>)> {
        seq![
            ("type"@, Some(ValueView::Str(self.typ))),
            ("method"@, enc_opt_string(self.method)),
            ("query"@, match self.query {
                None => None,
                Some(m) => Some(m.encode()),
            }),
            ("bindingVersion"@, enc_opt_string(self.binding_version)),
        ]
    }

    /// No extension key shadows a declared field, and every nested
    /// entity is well formed.
    pub open spec fn wf(self) -> bool {
        &&& forall|j: int|
            0 <= j < self.extensions.len() ==> !Self::known_keys().contains(
                (#[trigger] self.extensions[j]).0,
            )
        &&& match self.query {
            None => true,
            Some(m) => m.wf(),
        }
    }

    /// The encoding: declared fields first, then the extensions.
    pub open spec fn encode(self) -> ValueView {
        ValueView::Object(present_fields(self.field_list()) + self.extensions)
    }

    /// The decoding of a structural value as this object.
    pub open spec fn decode(v: ValueView) -> Result<Self, DecodeError> {
        match v {
            ValueView::Object(entries) => {
                let typ = dec_req_string(lookup(entries, "type"@));
                let method = dec_opt_string(lookup(entries, "method"@));
                let query = match lookup(entries, "query"@) {
                    None => Ok(None),
                    Some(pv) => match SchemaView::decode(pv) {
                        Ok(m) => Ok(Some(m)),
                        Err(e) => Err(e),
                    },
                };
                let binding_version = dec_opt_string(lookup(entries, "bindingVersion"@));
                if typ is Err {
                    Err(typ->Err_0)
                } else if method is Err {
                    Err(method->Err_0)
                } else if query is Err {
                    Err(query->Err_0)
                } else if binding_version is Err {
                    Err(binding_version->Err_0)
                } else {
                    Ok(
                        HTTPOperationBindingView {
                            typ: typ->Ok_0,
                            method: method->Ok_0,
                            query: query->Ok_0,
                            binding_version: binding_version->Ok_0,
                            extensions: ext_of(entries, Self::known_keys()),
                        },
                    )
                }
            },
            _ => Err(DecodeError::StructuralMismatch),
        }
    }

    /// Decoding what a well-formed value encodes restores it exactly,
    /// extensions included.
    #[verifier::rlimit(100)]
    pub proof fn lemma_round_trip(m: HTTPOperationBindingView)
        requires
            m.wf(),
        ensures
            Self::decode(m.encode()) == Ok::<_, DecodeError>(m),
    {
        let fl = m.field_list();
        let keys = HTTPOperationBindingView::known_keys();
        lemma_http_operation_binding_keys_distinct();
        assert(forall|p: int| 0 <= p < fl.len() ==> (#[trigger] fl[p]).0 == keys[p]);
        assert(distinct_keys(fl));
        assert(forall|k: Seq<char>| has_field_key(fl, k) ==> keys.contains(k));
        assert(forall|j: int|
            0 <= j < m.extensions.len() ==> !has_field_key(fl, (#[trigger] m.extensions[j]).0));
        lemma_lookup_encoded(fl, m.extensions, 0);
        lemma_lookup_encoded(fl, m.extensions, 1);
        lemma_lookup_encoded(fl, m.extensions, 2);
        lemma_lookup_encoded(fl, m.extensions, 3);
        lemma_ext_encoded(fl, m.extensions, keys);
        match m.query {
            None => {},
            Some(x) => {
                lemma_schema_round_trip(x);
            },
        }
        assert(Self::decode(m.encode())->Ok_0 =~= m);
    }
}

impl HTTPOperationBinding {
    /// Decodes this object; unrecognized keys are collected into
    /// `extensions` in source order.
    #[verifier::rlimit(100)]
    pub fn decode(v: &Value) -> (r: Result<HTTPOperationBinding, DecodeError>)
        ensures
            match r {
                Ok(m) => HTTPOperationBindingView::decode(v@) == Ok::<_, DecodeError>(m@),
                Err(e) => HTTPOperationBindingView::decode(v@) == Err::<HTTPOperationBindingView, _>(e),
            },
    {
        match v {
            Value::Object(entries) => {
                let typ = match get_req_string(find_field(entries, "type")) {
                    Ok(x) => x,
                    Err(e) => { return Err(e) },
                };
                let method = match get_opt_string(find_field(entries, "method")) {
                    Ok(x) => x,
                    Err(e) => { return Err(e) },
                };
                let query = match find_field(entries, "query") {
                    None => None,
                    Some(x) => match Schema::decode(x) {
                        Ok(m) => Some(m),
                        Err(e) => { return Err(e) },
                    },
                };
                let binding_version = match get_opt_string(find_field(entries, "bindingVersion")) {
                    Ok(x) => x,
                    Err(e) => { return Err(e) },
                };
                let known: [&str; 4] = [
                    "type", "method", "query", "bindingVersion",
                ];
                let ks: &[&str] = known.as_slice();
                let extensions = collect_extensions(entries, ks);
                proof {
                    assert(key_views(ks@) =~= HTTPOperationBindingView::known_keys());
                }
                Ok(
                    HTTPOperationBinding {
                        typ,
                        method,
                        query,
                        binding_version,
                        extensions,
                    },
                )
            },
            _ => Err(DecodeError::StructuralMismatch),
        }
    }

    /// Encodes this object: declared fields, then extensions.
    #[verifier::rlimit(100)]
    pub fn encode(&self) -> (r: Value)
        ensures
            r@ == self@.encode(),
    {
        let ghost fl = self@.field_list();
        let mut out: Vec<(String, Value)> = Vec::new();
        proof {
            assert(fl.subrange(0, 0) =~= Seq::<(Seq<char>, Option<ValueView>)>::empty());
            assert(present_fields(fl.subrange(0, 0)) =~= Seq::<(Seq<char>, ValueView)>::empty());
            assert(fl.subrange(0, 1) =~= fl.subrange(0, 0).push(fl[0]));
            lemma_present_fields_snoc(fl.subrange(0, 0), fl[0]);
        }
        push_present(&mut out, "type", Value::Str(self.typ.clone()));
        proof {
            assert(obj_view(out@) =~= present_fields(fl.subrange(0, 1)));
            assert(fl.subrange(0, 2) =~= fl.subrange(0, 1).push(fl[1]));
            lemma_present_fields_snoc(fl.subrange(0, 1), fl[1]);
        }
        if let Some(x) = &self.method {
            push_present(&mut out, "method", Value::Str(x.clone()));
        }
        proof {
            assert(obj_view(out@) =~= present_fields(fl.subrange(0, 2)));
            assert(fl.subrange(0, 3) =~= fl.subrange(0, 2).push(fl[2]));
            lemma_present_fields_snoc(fl.subrange(0, 2), fl[2]);
        }
        if let Some(m) = &self.query {
            let ev = m.encode();
            push_present(&mut out, "query", ev);
        }
        proof {
            assert(obj_view(out@) =~= present_fields(fl.subrange(0, 3)));
            assert(fl.subrange(0, 4) =~= fl.subrange(0, 3).push(fl[3]));
            lemma_present_fields_snoc(fl.subrange(0, 3), fl[3]);
        }
        if let Some(x) = &self.binding_version {
            push_present(&mut out, "bindingVersion", Value::Str(x.clone()));
        }
        proof {
            assert(obj_view(out@) =~= present_fields(fl.subrange(0, 4)));
            assert(fl.subrange(0, 4) =~= fl);
        }
        push_entries(&mut out, &self.extensions);
        Value::Object(out)
    }
}

/// This object must not contain any properties. Its name is reserved for
/// future use.
#[derive(Debug, PartialEq)]
pub struct WebSocketsOperationBinding {}

/// Model of a [`WebSocketsOperationBinding`].
#[verifier::ext_equal]
pub struct WebSocketsOperationBindingView {}

impl View for WebSocketsOperationBinding {
    type V = WebSocketsOperationBindingView;

    open spec fn view(&self) -> WebSocketsOperationBindingView {
        WebSocketsOperationBindingView {  }
    }
}

impl WebSocketsOperationBindingView {
    /// Any object decodes to this empty binding; its fields, if any,
    /// are not kept.
    pub open spec fn decode(v: ValueView) -> Result<WebSocketsOperationBindingView, DecodeError> {
        match v {
            ValueView::Object(entries) => Ok(WebSocketsOperationBindingView {  }),
            _ => Err(DecodeError::StructuralMismatch),
        }
    }

    /// The encoding: an empty object.
    pub open spec fn encode(self) -> ValueView {
        ValueView::Object(Seq::<(Seq<char>, ValueView)>::empty())
    }

    /// There is nothing to be malformed.
    pub open spec fn wf(self) -> bool {
        true
    }

    /// Decoding what this object encodes restores it.
    pub proof fn lemma_round_trip(m: WebSocketsOperationBindingView)
        requires
            m.wf(),
        ensures
            Self::decode(m.encode()) == Ok::<_, DecodeError>(m),
    {
    }
}

impl WebSocketsOperationBinding {
    /// Decodes this object, accepting any object shape.
    pub fn decode(v: &Value) -> (r: Result<WebSocketsOperationBinding, DecodeError>)
        ensures
            match r {
                Ok(m) => WebSocketsOperationBindingView::decode(v@) == Ok::<_, DecodeError>(m@),
                Err(e) => WebSocketsOperationBindingView::decode(v@) == Err::<WebSocketsOperationBindingView, _>(e),
            },
    {
        match v {
            Value::Object(_) => Ok(WebSocketsOperationBinding {  }),
            _ => Err(DecodeError::StructuralMismatch),
        }
    }

    /// Encodes this object: always the empty object.
    pub fn encode(&self) -> (r: Value)
        ensures
            r@ == self@.encode(),
    {
        let out: Vec<(String, Value)> = Vec::new();
        proof {
            assert(obj_view(out@) =~= Seq::<(Seq<char>, ValueView)>::empty());
        }
        Value::Object(out)
    }
}

/// Information about the operation representation in Kafka.
#[derive(Debug, PartialEq)]
pub struct KafkaOperationBinding {
    /// Id of the consumer group.
    pub group_id: Option<Schema>,
    /// Id of the consumer inside a consumer group.
    pub client_id: Option<String>,
    /// The version of this binding. If omitted, "latest" must be
    /// assumed.
    pub binding_version: Option<String>,
    /// Unrecognized sibling fields, preserved in source order.
    pub extensions: Vec<(String, Value)>,
}

/// Model of a [`KafkaOperationBinding`].
#[verifier::ext_equal]
pub struct KafkaOperationBindingView {
    pub group_id: Option<SchemaView>,
    pub client_id: Option<Seq<char>>,
    pub binding_version: Option<Seq<char>>,
    pub extensions: Seq<(Seq<char>, ValueView)>,
}

impl View for KafkaOperationBinding {
    type V = KafkaOperationBindingView;

    open spec fn view(&self) -> KafkaOperationBindingView {
        KafkaOperationBindingView {
            group_id: match self.group_id {
                None => None,
                Some(x) => Some(schema_view(x)),
            },
            client_id: view_opt_string(self.client_id),
            binding_version: view_opt_string(self.binding_version),
            extensions: obj_view(self.extensions@),
        }
    }
}

/// The declared keys are pairwise distinct.
pub proof fn lemma_kafka_operation_binding_keys_distinct()
    ensures
        forall|p: int, q: int|
            0 <= p < q < KafkaOperationBindingView::known_keys().len() ==> KafkaOperationBindingView::known_keys()[p]
                != KafkaOperationBindingView::known_keys()[q],
{
    reveal_strlit("groupId");
    reveal_strlit("clientId");
    reveal_strlit("bindingVersion");
    assert("groupId"@.len() == 7);
    assert("clientId"@.len() == 8);
    assert("bindingVersion"@.len() == 14);
}

impl KafkaOperationBindingView {
    /// The declared wire keys.
    pub open spec fn known_keys() -> Seq<Seq<char>> {
        seq!["groupId"@, "clientId"@, "bindingVersion"@]
    }

    /// Declared fields in output order; absent options and empty
    /// sequences are omitted.
    pub open spec fn field_list(self) -> Seq<(Seq<char>, Option<ValueView>)> {
        seq![
            ("groupId"@, match self.group_id {
                None => None,
                Some(m) => Some(m.encode()),
            }),
            ("clientId"@, enc_opt_string(self.client_id)),
            ("bindingVersion"@, enc_opt_string(self.binding_version)),
        ]
    }

    /// No extension key shadows a declared field, and every nested
    /// entity is well formed.
    pub open spec fn wf(self) -> bool {
        &&& forall|j: int|
            0 <= j < self.extensions.len() ==> !Self::known_keys().contains(
                (#[trigger] self.extensions[j]).0,
            )
        &&& match self.group_id {
            None => true,
            Some(m) => m.wf(),
        }
    }

    /// The encoding: declared fields first, then the extensions.
    pub open spec fn encode(self) -> ValueView {
        ValueView::Object(present_fields(self.field_list()) + self.extensions)
    }

    /// The decoding of a structural value as this object.
    pub open spec fn decode(v: ValueView) -> Result<Self, DecodeError> {
        match v {
            ValueView::Object(entries) => {
                let group_id = match lookup(entries, "groupId"@) {
                    None => Ok(None),
                    Some(pv) => match SchemaView::decode(pv) {
                        Ok(m) => Ok(Some(m)),
                        Err(e) => Err(e),
                    },
                };
                let client_id = dec_opt_string(lookup(entries, "clientId"@));
                let binding_version = dec_opt_string(lookup(entries, "bindingVersion"@));
                if group_id is Err {
                    Err(group_id->Err_0)
                } else if client_id is Err {
                    Err(client_id->Err_0)
                } else if binding_version is Err {
                    Err(binding_version->Err_0)
                } else {
                    Ok(
                        KafkaOperationBindingView {
                            group_id: group_id->Ok_0,
                            client_id: client_id->Ok_0,
                            binding_version: binding_version->Ok_0,
                            extensions: ext_of(entries, Self::known_keys()),
                        },
                    )
                }
            },
            _ => Err(DecodeError::StructuralMismatch),
        }
    }

    /// Decoding what a well-formed value encodes restores it exactly,
    /// extensions included.
    pub proof fn lemma_round_trip(m: KafkaOperationBindingView)
        requires
            m.wf(),
        ensures
            Self::decode(m.encode()) == Ok::<_, DecodeError>(m),
    {
        let fl = m.field_list();
        let keys = KafkaOperationBindingView::known_keys();
        lemma_kafka_operation_binding_keys_distinct();
        assert(forall|p: int| 0 <= p < fl.len() ==> (#[trigger] fl[p]).0 == keys[p]);
        assert(distinct_keys(fl));
        assert(forall|k: Seq<char>| has_field_key(fl, k) ==> keys.contains(k));
        assert(forall|j: int|
            0 <= j < m.extensions.len() ==> !has_field_key(fl, (#[trigger] m.extensions[j]).0));
        lemma_lookup_encoded(fl, m.extensions, 0);
        lemma_lookup_encoded(fl, m.extensions, 1);
        lemma_lookup_encoded(fl, m.extensions, 2);
        lemma_ext_encoded(fl, m.extensions, keys);
        match m.group_id {
            None => {},
            Some(x) => {
                lemma_schema_round_trip(x);
            },
        }
        assert(Self::decode(m.encode())->Ok_0 =~= m);
    }
}

impl KafkaOperationBinding {
    /// Decodes this object; unrecognized keys are collected into
    /// `extensions` in source order.
    pub fn decode(v: &Value) -> (r: Result<KafkaOperationBinding, DecodeError>)
        ensures
            match r {
                Ok(m) => KafkaOperationBindingView::decode(v@) == Ok::<_, DecodeError>(m@),
                Err(e) => KafkaOperationBindingView::decode(v@) == Err::<KafkaOperationBindingView, _>(e),
            },
    {
        match v {
            Value::Object(entries) => {
                let group_id = match find_field(entries, "groupId") {
                    None => None,
                    Some(x) => match Schema::decode(x) {
                        Ok(m) => Some(m),
                        Err(e) => { return Err(e) },
                    },
                };
                let client_id = match get_opt_string(find_field(entries, "clientId")) {
                    Ok(x) => x,
                    Err(e) => { return Err(e) },
                };
                let binding_version = match get_opt_string(find_field(entries, "bindingVersion")) {
                    Ok(x) => x,
                    Err(e) => { return Err(e) },
                };
                let known: [&str; 3] = [
                    "groupId", "clientId", "bindingVersion",
                ];
                let ks: &[&str] = known.as_slice();
                let extensions = collect_extensions(entries, ks);
                proof {
                    assert(key_views(ks@) =~= KafkaOperationBindingView::known_keys());
                }
                Ok(
                    KafkaOperationBinding {
                        group_id,
                        client_id,
                        binding_version,
                        extensions,
                    },
                )
            },
            _ => Err(DecodeError::StructuralMismatch),
        }
    }

    /// Encodes this object: declared fields, then extensions.
    pub fn encode(&self) -> (r: Value)
        ensures
            r@ == self@.encode(),
    {
        let ghost fl = self@.field_list();
        let mut out: Vec<(String, Value)> = Vec::new();
        proof {
            assert(fl.subrange(0, 0) =~= Seq::<(Seq<char>, Option<ValueView>)>::empty());
            assert(present_fields(fl.subrange(0, 0)) =~= Seq::<(Seq<char>, ValueView)>::empty());
            assert(fl.subrange(0, 1) =~= fl.subrange(0, 0).push(fl[0]));
            lemma_present_fields_snoc(fl.subrange(0, 0), fl[0]);
        }
        if let Some(m) = &self.group_id {
            let ev = m.encode();
            push_present(&mut out, "groupId", ev);
        }
        proof {
            assert(obj_view(out@) =~= present_fields(fl.subrange(0, 1)));
            assert(fl.subrange(0, 2) =~= fl.subrange(0, 1).push(fl[1]));
            lemma_present_fields_snoc(fl.subrange(0, 1), fl[1]);
        }
        if let Some(x) = &self.client_id {
            push_present(&mut out, "clientId", Value::Str(x.clone()));
        }
        proof {
            assert(obj_view(out@) =~= present_fields(fl.subrange(0, 2)));
            assert(fl.subrange(0, 3) =~= fl.subrange(0, 2).push(fl[2]));
            lemma_present_fields_snoc(fl.subrange(0, 2), fl[2]);
        }
        if let Some(x) = &self.binding_version {
            push_present(&mut out, "bindingVersion", Value::Str(x.clone()));
        }
        proof {
            assert(obj_view(out@) =~= present_fields(fl.subrange(0, 3)));
            assert(fl.subrange(0, 3) =~= fl);
        }
        push_entries(&mut out, &self.extensions);
        Value::Object(out)
    }
}

/// This object must not contain any properties. Its name is reserved for
/// future use.
#[derive(Debug, PartialEq)]
pub struct AnyPointMQOperationBinding {}

/// Model of a [`AnyPointMQOperationBinding`].
#[verifier::ext_equal]
pub struct AnyPointMQOperationBindingView {}

impl View for AnyPointMQOperationBinding {
    type V = AnyPointMQOperationBindingView;

    open spec fn view(&self) -> AnyPointMQOperationBindingView {
        AnyPointMQOperationBindingView {  }
    }
}

impl AnyPointMQOperationBindingView {
    /// Any object decodes to this empty binding; its fields, if any,
    /// are not kept.
    pub open spec fn decode(v: ValueView) -> Result<AnyPointMQOperationBindingView, DecodeError> {
        match v {
            ValueView::Object(entries) => Ok(AnyPointMQOperationBindingView {  }),
            _ => Err(DecodeError::StructuralMismatch),
        }
    }

    /// The encoding: an empty object.
    pub open spec fn encode(self) -> ValueView {
        ValueView::Object(Seq::<(Seq<char>, ValueView)>::empty())
    }

    /// There is nothing to be malformed.
    pub open spec fn wf(self) -> bool {
        true
    }

    /// Decoding what this object encodes restores it.
    pub proof fn lemma_round_trip(m: AnyPointMQOperationBindingView)
        requires
            m.wf(),
        ensures
            Self::decode(m.encode()) == Ok::<_, DecodeError>(m),
    {
    }
}

impl AnyPointMQOperationBinding {
    /// Decodes this object, accepting any object shape.
    pub fn decode(v: &Value) -> (r: Result<AnyPointMQOperationBinding, DecodeError>)
        ensures
            match r {
                Ok(m) => AnyPointMQOperationBindingView::decode(v@) == Ok::<_, DecodeError>(m@),
                Err(e) => AnyPointMQOperationBindingView::decode(v@) == Err::<AnyPointMQOperationBindingView, _>(e),
            },
    {
        match v {
            Value::Object(_) => Ok(AnyPointMQOperationBinding {  }),
            _ => Err(DecodeError::StructuralMismatch),
        }
    }

    /// Encodes this object: always the empty object.
    pub fn encode(&self) -> (r: Value)
        ensures
            r@ == self@.encode(),
    {
        let out: Vec<(String, Value)> = Vec::new();
        proof {
            assert(obj_view(out@) =~= Seq::<(Seq<char>, ValueView)>::empty());
        }
        Value::Object(out)
    }
}

/// Information about the operation representation in AMQP.
#[derive(Debug, PartialEq)]
pub struct AMQPOperationBinding {
    /// TTL (time to live) for the message. It must be greater than or
    /// equal to zero.
    pub expiration: Option<i32>,
    /// Identifies the user who has sent the message.
    pub user_id: Option<String>,
    /// The routing keys the message should be routed to at the time of
    /// publishing.
    pub cc: Vec<String>,
    /// A priority for the message.
    pub priority: Option<i32>,
    /// Delivery mode of the message. Its value must be either 1
    /// (transient) or 2 (persistent).
    pub delivery_mode: Option<i32>,
    /// Whether the message is mandatory or not.
    pub mandatory: Option<bool>,
    /// Like `cc` but consumers will not receive this information.
    pub bcc: Vec<String>,
    /// Name of the queue where the consumer should send the response.
    pub reply_to: Option<String>,
    /// Whether the message should include a timestamp or not.
    pub timestamp: Option<bool>,
    /// Whether the consumer should ack the message or not.
    pub ack: Option<bool>,
    /// The version of this binding. If omitted, "latest" must be
    /// assumed.
    pub binding_version: Option<String>,
    /// Unrecognized sibling fields, preserved in source order.
    pub extensions: Vec<(String, Value)>,
}

/// Model of a [`AMQPOperationBinding`].
#[verifier::ext_equal]
pub struct AMQPOperationBindingView {
    pub expiration: Option<i32>,
    pub user_id: Option<Seq<char>>,
    pub cc: Seq<Seq<char>>,
    pub priority: Option<i32>,
    pub delivery_mode: Option<i32>,
    pub mandatory: Option<bool>,
    pub bcc: Seq<Seq<char>>,
    pub reply_to: Option<Seq<char>>,
    pub timestamp: Option<bool>,
    pub ack: Option<bool>,
    pub binding_version: Option<Seq<char>>,
    pub extensions: Seq<(Seq<char>, ValueView)>,
}

impl View for AMQPOperationBinding {
    type V = AMQPOperationBindingView;

    open spec fn view(&self) -> AMQPOperationBindingView {
        AMQPOperationBindingView {
            expiration: self.expiration,
            user_id: view_opt_string(self.user_id),
            cc: view_vec_string(self.cc@),
            priority: self.priority,
            delivery_mode: self.delivery_mode,
            mandatory: self.mandatory,
            bcc: view_vec_string(self.bcc@),
            reply_to: view_opt_string(self.reply_to),
            timestamp: self.timestamp,
            ack: self.ack,
            binding_version: view_opt_string(self.binding_version),
            extensions: obj_view(self.extensions@),
        }
    }
}

/// The declared keys are pairwise distinct.
pub proof fn lemma_amqp_operation_binding_keys_distinct()
    ensures
        forall|p: int, q: int|
            0 <= p < q < AMQPOperationBindingView::known_keys().len() ==> AMQPOperationBindingView::known_keys()[p]
                != AMQPOperationBindingView::known_keys()[q],
{
    reveal_strlit("expiration");
    reveal_strlit("userId");
    reveal_strlit("cc");
    reveal_strlit("priority");
    reveal_strlit("deliveryMode");
    reveal_strlit("mandatory");
    reveal_strlit("bcc");
    reveal_strlit("replyTo");
    reveal_strlit("timestamp");
    reveal_strlit("ack");
    reveal_strlit("bindingVersion");
    assert("expiration"@.len() == 10);
    assert("userId"@.len() == 6);
    assert("cc"@.len() == 2);
    assert("priority"@.len() == 8);
    assert("deliveryMode"@.len() == 12);
    assert("mandatory"@.len() == 9);
    assert("bcc"@.len() == 3);
    assert("replyTo"@.len() == 7);
    assert("timestamp"@.len() == 9);
    assert("ack"@.len() == 3);
    assert("bindingVersion"@.len() == 14);
    assert("mandatory"@[0] == 'm');
    assert("timestamp"@[0] == 't');
    assert("bcc"@[0] == 'b');
    assert("ack"@[0] == 'a');
}

impl AMQPOperationBindingView {
    /// The declared wire keys.
    pub open spec fn known_keys() -> Seq<Seq<char>> {
        seq!["expiration"@, "userId"@, "cc"@, "priority"@, "deliveryMode"@, "mandatory"@, "bcc"@, "replyTo"@, "timestamp"@, "ack"@, "bindingVersion"@]
    }

    /// Declared fields in output order; absent options and empty
    /// sequences are omitted.
    pub open spec fn field_list(self) -> Seq<(Seq<char>, Option<ValueView>)> {
        seq![
            ("expiration"@, enc_opt_i32(self.expiration)),
            ("userId"@, enc_opt_string(self.user_id)),
            ("cc"@, if self.cc.len() == 0 {
                None
            } else {
                Some(enc_string_list(self.cc))
            }),
            ("priority"@, enc_opt_i32(self.priority)),
            ("deliveryMode"@, enc_opt_i32(self.delivery_mode)),
            ("mandatory"@, enc_opt_bool(self.mandatory)),
            ("bcc"@, if self.bcc.len() == 0 {
                None
            } else {
                Some(enc_string_list(self.bcc))
            }),
            ("replyTo"@, enc_opt_string(self.reply_to)),
            ("timestamp"@, enc_opt_bool(self.timestamp)),
            ("ack"@, enc_opt_bool(self.ack)),
            ("bindingVersion"@, enc_opt_string(self.binding_version)),
        ]
    }

    /// No extension key shadows a declared field, and every nested
    /// entity is well formed.
    pub open spec fn wf(self) -> bool {
        &&& forall|j: int|
            0 <= j < self.extensions.len() ==> !Self::known_keys().contains(
                (#[trigger] self.extensions[j]).0,
            )
    }

    /// The encoding: declared fields first, then the extensions.
    pub open spec fn encode(self) -> ValueView {
        ValueView::Object(present_fields(self.field_list()) + self.extensions)
    }

    /// The decoding of a structural value as this object.
    pub open spec fn decode(v: ValueView) -> Result<Self, DecodeError> {
        match v {
            ValueView::Object(entries) => {
                let expiration = dec_opt_i32(lookup(entries, "expiration"@));
                let user_id = dec_opt_string(lookup(entries, "userId"@));
                let cc = dec_vec_string(lookup(entries, "cc"@));
                let priority = dec_opt_i32(lookup(entries, "priority"@));
                let delivery_mode = dec_opt_i32(lookup(entries, "deliveryMode"@));
                let mandatory = dec_opt_bool(lookup(entries, "mandatory"@));
                let bcc = dec_vec_string(lookup(entries, "bcc"@));
                let reply_to = dec_opt_string(lookup(entries, "replyTo"@));
                let timestamp = dec_opt_bool(lookup(entries, "timestamp"@));
                let ack = dec_opt_bool(lookup(entries, "ack"@));
                let binding_version = dec_opt_string(lookup(entries, "bindingVersion"@));
                if expiration is Err {
                    Err(expiration->Err_0)
                } else if user_id is Err {
                    Err(user_id->Err_0)
                } else if cc is Err {
                    Err(cc->Err_0)
                } else if priority is Err {
                    Err(priority->Err_0)
                } else if delivery_mode is Err {
                    Err(delivery_mode->Err_0)
                } else if mandatory is Err {
                    Err(mandatory->Err_0)
                } else if bcc is Err {
                    Err(bcc->Err_0)
                } else if reply_to is Err {
                    Err(reply_to->Err_0)
                } else if timestamp is Err {
                    Err(timestamp->Err_0)
                } else if ack is Err {
                    Err(ack->Err_0)
                } else if binding_version is Err {
                    Err(binding_version->Err_0)
                } else {
                    Ok(
                        AMQPOperationBindingView {
                            expiration: expiration->Ok_0,
                            user_id: user_id->Ok_0,
                            cc: cc->Ok_0,
                            priority: priority->Ok_0,
                            delivery_mode: delivery_mode->Ok_0,
                            mandatory: mandatory->Ok_0,
                            bcc: bcc->Ok_0,
                            reply_to: reply_to->Ok_0,
                            timestamp: timestamp->Ok_0,
                            ack: ack->Ok_0,
                            binding_version: binding_version->Ok_0,
                            extensions: ext_of(entries, Self::known_keys()),
                        },
                    )
                }
            },
            _ => Err(DecodeError::StructuralMismatch),
        }
    }

    /// Decoding what a well-formed value encodes restores it exactly,
    /// extensions included.
    #[verifier::rlimit(100)]
    pub proof fn lemma_round_trip(m: AMQPOperationBindingView)
        requires
            m.wf(),
        ensures
            Self::decode(m.encode()) == Ok::<_, DecodeError>(m),
    {
        let fl = m.field_list();
        let keys = AMQPOperationBindingView::known_keys();
        lemma_amqp_operation_binding_keys_distinct();
        assert(forall|p: int| 0 <= p < fl.len() ==> (#[trigger] fl[p]).0 == keys[p]);
        assert(distinct_keys(fl));
        assert(forall|k: Seq<char>| has_field_key(fl, k) ==> keys.contains(k));
        assert(forall|j: int|
            0 <= j < m.extensions.len() ==> !has_field_key(fl, (#[trigger] m.extensions[j]).0));
        lemma_lookup_encoded(fl, m.extensions, 0);
        lemma_lookup_encoded(fl, m.extensions, 1);
        lemma_lookup_encoded(fl, m.extensions, 2);
        lemma_lookup_encoded(fl, m.extensions, 3);
        lemma_lookup_encoded(fl, m.extensions, 4);
        lemma_lookup_encoded(fl, m.extensions, 5);
        lemma_lookup_encoded(fl, m.extensions, 6);
        lemma_lookup_encoded(fl, m.extensions, 7);
        lemma_lookup_encoded(fl, m.extensions, 8);
        lemma_lookup_encoded(fl, m.extensions, 9);
        lemma_lookup_encoded(fl, m.extensions, 10);
        lemma_ext_encoded(fl, m.extensions, keys);
        if m.cc.len() == 0 {
            assert(m.cc =~= Seq::<Seq<char>>::empty());
        } else {
            lemma_string_list_round_trip(m.cc);
        }
        if m.bcc.len() == 0 {
            assert(m.bcc =~= Seq::<Seq<char>>::empty());
        } else {
            lemma_string_list_round_trip(m.bcc);
        }
        assert(Self::decode(m.encode())->Ok_0 =~= m);
    }
}

impl AMQPOperationBinding {
    /// Decodes this object; unrecognized keys are collected into
    /// `extensions` in source order.
    #[verifier::rlimit(100)]
    pub fn decode(v: &Value) -> (r: Result<AMQPOperationBinding, DecodeError>)
        ensures
            match r {
                Ok(m) => AMQPOperationBindingView::decode(v@) == Ok::<_, DecodeError>(m@),
                Err(e) => AMQPOperationBindingView::decode(v@) == Err::<AMQPOperationBindingView, _>(e),
            },
    {
        match v {
            Value::Object(entries) => {
                let expiration = match get_opt_i32(find_field(entries, "expiration")) {
                    Ok(x) => x,
                    Err(e) => { return Err(e) },
                };
                let user_id = match get_opt_string(find_field(entries, "userId")) {
                    Ok(x) => x,
                    Err(e) => { return Err(e) },
                };
                let cc = match get_vec_string(find_field(entries, "cc")) {
                    Ok(x) => x,
                    Err(e) => { return Err(e) },
                };
                let priority = match get_opt_i32(find_field(entries, "priority")) {
                    Ok(x) => x,
                    Err(e) => { return Err(e) },
                };
                let delivery_mode = match get_opt_i32(find_field(entries, "deliveryMode")) {
                    Ok(x) => x,
                    Err(e) => { return Err(e) },
                };
                let mandatory = match get_opt_bool(find_field(entries, "mandatory")) {
                    Ok(x) => x,
                    Err(e) => { return Err(e) },
                };
                let bcc = match get_vec_string(find_field(entries, "bcc")) {
                    Ok(x) => x,
                    Err(e) => { return Err(e) },
                };
                let reply_to = match get_opt_string(find_field(entries, "replyTo")) {
                    Ok(x) => x,
                    Err(e) => { return Err(e) },
                };
                let timestamp = match get_opt_bool(find_field(entries, "timestamp")) {
                    Ok(x) => x,
                    Err(e) => { return Err(e) },
                };
                let ack = match get_opt_bool(find_field(entries, "ack")) {
                    Ok(x) => x,
                    Err(e) => { return Err(e) },
                };
                let binding_version = match get_opt_string(find_field(entries, "bindingVersion")) {
                    Ok(x) => x,
                    Err(e) => { return Err(e) },
                };
                let known: [&str; 11] = [
                    "expiration", "userId", "cc", "priority", "deliveryMode", "mandatory", "bcc", "replyTo", "timestamp", "ack", "bindingVersion",
                ];
                let ks: &[&str] = known.as_slice();
                let extensions = collect_extensions(entries, ks);
                proof {
                    assert(key_views(ks@) =~= AMQPOperationBindingView::known_keys());
                }
                Ok(
                    AMQPOperationBinding {
                        expiration,
                        user_id,
                        cc,
                        priority,
                        delivery_mode,
                        mandatory,
                        bcc,
                        reply_to,
                        timestamp,
                        ack,
                        binding_version,
                        extensions,
                    },
                )
            },
            _ => Err(DecodeError::StructuralMismatch),
        }
    }

    /// Emits the first declared slots onto the output object.
    #[verifier::rlimit(100)]
    fn encode_slots_low(&self, out: &mut Vec<(String, Value)>)
        requires
            obj_view(old(out)@) == Seq::<(Seq<char>, ValueView)>::empty(),
        ensures
            obj_view(final(out)@) == present_fields(self@.field_list().subrange(0, 5)),
    {
        let ghost fl = self@.field_list();
        proof {
            assert(fl.subrange(0, 0) =~= Seq::<(Seq<char>, Option<ValueView>)>::empty());
            assert(present_fields(fl.subrange(0, 0)) =~= Seq::<(Seq<char>, ValueView)>::empty());
            assert(fl.subrange(0, 1) =~= fl.subrange(0, 0).push(fl[0]));
            lemma_present_fields_snoc(fl.subrange(0, 0), fl[0]);
        }
        if let Some(x) = &self.expiration {
            push_present(out, "expiration", Value::Int(*x as i64));
        }
        proof {
            assert(obj_view(out@) =~= present_fields(fl.subrange(0, 1)));
            assert(fl.subrange(0, 2) =~= fl.subrange(0, 1).push(fl[1]));
            lemma_present_fields_snoc(fl.subrange(0, 1), fl[1]);
        }
        if let Some(x) = &self.user_id {
            push_present(out, "userId", Value::Str(x.clone()));
        }
        proof {
            assert(obj_view(out@) =~= present_fields(fl.subrange(0, 2)));
            assert(fl.subrange(0, 3) =~= fl.subrange(0, 2).push(fl[2]));
            lemma_present_fields_snoc(fl.subrange(0, 2), fl[2]);
        }
        if self.cc.len() > 0 {
            push_present(out, "cc", encode_string_list(&self.cc));
        }
        proof {
            assert(obj_view(out@) =~= present_fields(fl.subrange(0, 3)));
            assert(fl.subrange(0, 4) =~= fl.subrange(0, 3).push(fl[3]));
            lemma_present_fields_snoc(fl.subrange(0, 3), fl[3]);
        }
        if let Some(x) = &self.priority {
            push_present(out, "priority", Value::Int(*x as i64));
        }
        proof {
            assert(obj_view(out@) =~= present_fields(fl.subrange(0, 4)));
            assert(fl.subrange(0, 5) =~= fl.subrange(0, 4).push(fl[4]));
            lemma_present_fields_snoc(fl.subrange(0, 4), fl[4]);
        }
        if let Some(x) = &self.delivery_mode {
            push_present(out, "deliveryMode", Value::Int(*x as i64));
        }
        proof {
            assert(obj_view(out@) =~= present_fields(fl.subrange(0, 5)));
        }
    }

    /// Emits the remaining declared slots onto the output object.
    #[verifier::rlimit(100)]
    fn encode_slots_high(&self, out: &mut Vec<(String, Value)>)
        requires
            obj_view(old(out)@) == present_fields(self@.field_list().subrange(0, 5)),
        ensures
            obj_view(final(out)@) == present_fields(self@.field_list()),
    {
        let ghost fl = self@.field_list();
        proof {
            assert(fl.subrange(0, 6) =~= fl.subrange(0, 5).push(fl[5]));
            lemma_present_fields_snoc(fl.subrange(0, 5), fl[5]);
        }
        if let Some(x) = &self.mandatory {
            push_present(out, "mandatory", Value::Bool(*x));
        }
        proof {
            assert(obj_view(out@) =~= present_fields(fl.subrange(0, 6)));
            assert(fl.subrange(0, 7) =~= fl.subrange(0, 6).push(fl[6]));
            lemma_present_fields_snoc(fl.subrange(0, 6), fl[6]);
        }
        if self.bcc.len() > 0 {
            push_present(out, "bcc", encode_string_list(&self.bcc));
        }
        proof {
            assert(obj_view(out@) =~= present_fields(fl.subrange(0, 7)));
            assert(fl.subrange(0, 8) =~= fl.subrange(0, 7).push(fl[7]));
            lemma_present_fields_snoc(fl.subrange(0, 7), fl[7]);
        }
        if let Some(x) = &self.reply_to {
            push_present(out, "replyTo", Value::Str(x.clone()));
        }
        proof {
            assert(obj_view(out@) =~= present_fields(fl.subrange(0, 8)));
            assert(fl.subrange(0, 9) =~= fl.subrange(0, 8).push(fl[8]));
            lemma_present_fields_snoc(fl.subrange(0, 8), fl[8]);
        }
        if let Some(x) = &self.timestamp {
            push_present(out, "timestamp", Value::Bool(*x));
        }
        proof {
            assert(obj_view(out@) =~= present_fields(fl.subrange(0, 9)));
            assert(fl.subrange(0, 10) =~= fl.subrange(0, 9).push(fl[9]));
            lemma_present_fields_snoc(fl.subrange(0, 9), fl[9]);
        }
        if let Some(x) = &self.ack {
            push_present(out, "ack", Value::Bool(*x));
        }
        proof {
            assert(obj_view(out@) =~= present_fields(fl.subrange(0, 10)));
            assert(fl.subrange(0, 11) =~= fl.subrange(0, 10).push(fl[10]));
            lemma_present_fields_snoc(fl.subrange(0, 10), fl[10]);
        }
        if let Some(x) = &self.binding_version {
            push_present(out, "bindingVersion", Value::Str(x.clone()));
        }
        proof {
            assert(obj_view(out@) =~= present_fields(fl.subrange(0, 11)));
            assert(fl.subrange(0, 11) =~= fl);
        }
    }

    /// Encodes this object: declared slots, then extensions.
    pub fn encode(&self) -> (r: Value)
        ensures
            r@ == self@.encode(),
    {
        let mut out: Vec<(String, Value)> = Vec::new();
        proof {
            assert(obj_view(out@) =~= Seq::<(Seq<char>, ValueView)>::empty());
        }
        self.encode_slots_low(&mut out);
        self.encode_slots_high(&mut out);
        push_entries(&mut out, &self.extensions);
        Value::Object(out)
    }
}

/// This object must not contain any properties. Its name is reserved for
/// future use.
#[derive(Debug, PartialEq)]
pub struct AMQP1OperationBinding {}

/// Model of a [`AMQP1OperationBinding`].
#[verifier::ext_equal]
pub struct AMQP1OperationBindingView {}

impl View for AMQP1OperationBinding {
    type V = AMQP1OperationBindingView;

    open spec fn view(&self) -> AMQP1OperationBindingView {
        AMQP1OperationBindingView {  }
    }
}

impl AMQP1OperationBindingView {
    /// Any object decodes to this empty binding; its fields, if any,
    /// are not kept.
    pub open spec fn decode(v: ValueView) -> Result<AMQP1OperationBindingView, DecodeError> {
        match v {
            ValueView::Object(entries) => Ok(AMQP1OperationBindingView {  }),
            _ => Err(DecodeError::StructuralMismatch),
        }
    }

    /// The encoding: an empty object.
    pub open spec fn encode(self) -> ValueView {
        ValueView::Object(Seq::<(Seq<char>, ValueView)>::empty())
    }

    /// There is nothing to be malformed.
    pub open spec fn wf(self) -> bool {
        true
    }

    /// Decoding what this object encodes restores it.
    pub proof fn lemma_round_trip(m: AMQP1OperationBindingView)
        requires
            m.wf(),
        ensures
            Self::decode(m.encode()) == Ok::<_, DecodeError>(m),
    {
    }
}

impl AMQP1OperationBinding {
    /// Decodes this object, accepting any object shape.
    pub fn decode(v: &Value) -> (r: Result<AMQP1OperationBinding, DecodeError>)
        ensures
            match r {
                Ok(m) => AMQP1OperationBindingView::decode(v@) == Ok::<_, DecodeError>(m@),
                Err(e) => AMQP1OperationBindingView::decode(v@) == Err::<AMQP1OperationBindingView, _>(e),
            },
    {
        match v {
            Value::Object(_) => Ok(AMQP1OperationBinding {  }),
            _ => Err(DecodeError::StructuralMismatch),
        }
    }

    /// Encodes this object: always the empty object.
    pub fn encode(&self) -> (r: Value)
        ensures
            r@ == self@.encode(),
    {
        let out: Vec<(String, Value)> = Vec::new();
        proof {
            assert(obj_view(out@) =~= Seq::<(Seq<char>, ValueView)>::empty());
        }
        Value::Object(out)
    }
}

/// Information about the operation representation in MQTT.
#[derive(Debug, PartialEq)]
pub struct MQTTOperationBinding {
    /// The quality-of-service level for the message flow: 0 (at most
    /// once), 1 (at least once), or 2 (exactly once).
    pub qos: Option<i32>,
    /// Whether the broker should retain the message or not.
    pub retain: Option<bool>,
    /// The version of this binding. If omitted, "latest" must be
    /// assumed.
    pub binding_version: Option<String>,
    /// Unrecognized sibling fields, preserved in source order.
    pub extensions: Vec<(String, Value)>,
}

/// Model of a [`MQTTOperationBinding`].
#[verifier::ext_equal]
pub struct MQTTOperationBindingView {
    pub qos: Option<i32>,
    pub retain: Option<bool>,
    pub binding_version: Option<Seq<char>>,
    pub extensions: Seq<(Seq<char>, ValueView)>,
}

impl View for MQTTOperationBinding {
    type V = MQTTOperationBindingView;

    open spec fn view(&self) -> MQTTOperationBindingView {
        MQTTOperationBindingView {
            qos: self.qos,
            retain: self.retain,
            binding_version: view_opt_string(self.binding_version),
            extensions: obj_view(self.extensions@),
        }
    }
}

/// The declared keys are pairwise distinct.
pub proof fn lemma_mqtt_operation_binding_keys_distinct()
    ensures
        forall|p: int, q: int|
            0 <= p < q < MQTTOperationBindingView::known_keys().len() ==> MQTTOperationBindingView::known_keys()[p]
                != MQTTOperationBindingView::known_keys()[q],
{
    reveal_strlit("qos");
    reveal_strlit("retain");
    reveal_strlit("bindingVersion");
    assert("qos"@.len() == 3);
    assert("retain"@.len() == 6);
    assert("bindingVersion"@.len() == 14);
}

impl MQTTOperationBindingView {
    /// The declared wire keys.
    pub open spec fn known_keys() -> Seq<Seq<char>> {
        seq!["qos"@, "retain"@, "bindingVersion"@]
    }

    /// Declared fields in output order; absent options and empty
    /// sequences are omitted.
    pub open spec fn field_list(self) -> Seq<(Seq<char>, Option<ValueView>)> {
        seq![
            ("qos"@, enc_opt_i32(self.qos)),
            ("retain"@, enc_opt_bool(self.retain)),
            ("bindingVersion"@, enc_opt_string(self.binding_version)),
        ]
    }

    /// No extension key shadows a declared field, and every nested
    /// entity is well formed.
    pub open spec fn wf(self) -> bool {
        &&& forall|j: int|
            0 <= j < self.extensions.len() ==> !Self::known_keys().contains(
                (#[trigger] self.extensions[j]).0,
            )
    }

    /// The encoding: declared fields first, then the extensions.
    pub open spec fn encode(self) -> ValueView {
        ValueView::Object(present_fields(self.field_list()) + self.extensions)
    }

    /// The decoding of a structural value as this object.
    pub open spec fn decode(v: ValueView) -> Result<Self, DecodeError> {
        match v {
            ValueView::Object(entries) => {
                let qos = dec_opt_i32(lookup(entries, "qos"@));
                let retain = dec_opt_bool(lookup(entries, "retain"@));
                let binding_version = dec_opt_string(lookup(entries, "bindingVersion"@));
                if qos is Err {
                    Err(qos->Err_0)
                } else if retain is Err {
                    Err(retain->Err_0)
                } else if binding_version is Err {
                    Err(binding_version->Err_0)
                } else {
                    Ok(
                        MQTTOperationBindingView {
                            qos: qos->Ok_0,
                            retain: retain->Ok_0,
                            binding_version: binding_version->Ok_0,
                            extensions: ext_of(entries, Self::known_keys()),
                        },
                    )
                }
            },
            _ => Err(DecodeError::StructuralMismatch),
        }
    }

    /// Decoding what a well-formed value encodes restores it exactly,
    /// extensions included.
    pub proof fn lemma_round_trip(m: MQTTOperationBindingView)
        requires
            m.wf(),
        ensures
            Self::decode(m.encode()) == Ok::<_, DecodeError>(m),
    {
        let fl = m.field_list();
        let keys = MQTTOperationBindingView::known_keys();
        lemma_mqtt_operation_binding_keys_distinct();
        assert(forall|p: int| 0 <= p < fl.len() ==> (#[trigger] fl[p]).0 == keys[p]);
        assert(distinct_keys(fl));
        assert(forall|k: Seq<char>| has_field_key(fl, k) ==> keys.contains(k));
        assert(forall|j: int|
            0 <= j < m.extensions.len() ==> !has_field_key(fl, (#[trigger] m.extensions[j]).0));
        lemma_lookup_encoded(fl, m.extensions, 0);
        lemma_lookup_encoded(fl, m.extensions, 1);
        lemma_lookup_encoded(fl, m.extensions, 2);
        lemma_ext_encoded(fl, m.extensions, keys);
        assert(Self::decode(m.encode())->Ok_0 =~= m);
    }
}

impl MQTTOperationBinding {
    /// Decodes this object; unrecognized keys are collected into
    /// `extensions` in source order.
    pub fn decode(v: &Value) -> (r: Result<MQTTOperationBinding, DecodeError>)
        ensures
            match r {
                Ok(m) => MQTTOperationBindingView::decode(v@) == Ok::<_, DecodeError>(m@),
                Err(e) => MQTTOperationBindingView::decode(v@) == Err::<MQTTOperationBindingView, _>(e),
            },
    {
        match v {
            Value::Object(entries) => {
                let qos = match get_opt_i32(find_field(entries, "qos")) {
                    Ok(x) => x,
                    Err(e) => { return Err(e) },
                };
                let retain = match get_opt_bool(find_field(entries, "retain")) {
                    Ok(x) => x,
                    Err(e) => { return Err(e) },
                };
                let binding_version = match get_opt_string(find_field(entries, "bindingVersion")) {
                    Ok(x) => x,
                    Err(e) => { return Err(e) },
                };
                let known: [&str; 3] = [
                    "qos", "retain", "bindingVersion",
                ];
                let ks: &[&str] = known.as_slice();
                let extensions = collect_extensions(entries, ks);
                proof {
                    assert(key_views(ks@) =~= MQTTOperationBindingView::known_keys());
                }
                Ok(
                    MQTTOperationBinding {
                        qos,
                        retain,
                        binding_version,
                        extensions,
                    },
                )
            },
            _ => Err(DecodeError::StructuralMismatch),
        }
    }

    /// Encodes this object: declared fields, then extensions.
    pub fn encode(&self) -> (r: Value)
        ensures
            r@ == self@.encode(),
    {
        let ghost fl = self@.field_list();
        let mut out: Vec<(String, Value)> = Vec::new();
        proof {
            assert(fl.subrange(0, 0) =~= Seq::<(Seq<char>, Option<ValueView>)>::empty());
            assert(present_fields(fl.subrange(0, 0)) =~= Seq::<(Seq<char>, ValueView)>::empty());
            assert(fl.subrange(0, 1) =~= fl.subrange(0, 0).push(fl[0]));
            lemma_present_fields_snoc(fl.subrange(0, 0), fl[0]);
        }
        if let Some(x) = &self.qos {
            push_present(&mut out, "qos", Value::Int(*x as i64));
        }
        proof {
            assert(obj_view(out@) =~= present_fields(fl.subrange(0, 1)));
            assert(fl.subrange(0, 2) =~= fl.subrange(0, 1).push(fl[1]));
            lemma_present_fields_snoc(fl.subrange(0, 1), fl[1]);
        }
        if let Some(x) = &self.retain {
            push_present(&mut out, "retain", Value::Bool(*x));
        }
        proof {
            assert(obj_view(out@) =~= present_fields(fl.subrange(0, 2)));
            assert(fl.subrange(0, 3) =~= fl.subrange(0, 2).push(fl[2]));
            lemma_present_fields_snoc(fl.subrange(0, 2), fl[2]);
        }
        if let Some(x) = &self.binding_version {
            push_present(&mut out, "bindingVersion", Value::Str(x.clone()));
        }
        proof {
            assert(obj_view(out@) =~= present_fields(fl.subrange(0, 3)));
            assert(fl.subrange(0, 3) =~= fl);
        }
        push_entries(&mut out, &self.extensions);
        Value::Object(out)
    }
}

/// This object must not contain any properties. Its name is reserved for
/// future use.
#[derive(Debug, PartialEq)]
pub struct MQTT5OperationBinding {}

/// Model of a [`MQTT5OperationBinding`].
#[verifier::ext_equal]
pub struct MQTT5OperationBindingView {}

impl View for MQTT5OperationBinding {
    type V = MQTT5OperationBindingView;

    open spec fn view(&self) -> MQTT5OperationBindingView {
        MQTT5OperationBindingView {  }
    }
}

impl MQTT5OperationBindingView {
    /// Any object decodes to this empty binding; its fields, if any,
    /// are not kept.
    pub open spec fn decode(v: ValueView) -> Result<MQTT5OperationBindingView, DecodeError> {
        match v {
            ValueView::Object(entries) => Ok(MQTT5OperationBindingView {  }),
            _ => Err(DecodeError::StructuralMismatch),
        }
    }

    /// The encoding: an empty object.
    pub open spec fn encode(self) -> ValueView {
        ValueView::Object(Seq::<(Seq<char>, ValueView)>::empty())
    }

    /// There is nothing to be malformed.
    pub open spec fn wf(self) -> bool {
        true
    }

    /// Decoding what this object encodes restores it.
    pub proof fn lemma_round_trip(m: MQTT5OperationBindingView)
        requires
            m.wf(),
        ensures
            Self::decode(m.encode()) == Ok::<_, DecodeError>(m),
    {
    }
}

impl MQTT5OperationBinding {
    /// Decodes this object, accepting any object shape.
    pub fn decode(v: &Value) -> (r: Result<MQTT5OperationBinding, DecodeError>)
        ensures
            match r {
                Ok(m) => MQTT5OperationBindingView::decode(v@) == Ok::<_, DecodeError>(m@),
                Err(e) => MQTT5OperationBindingView::decode(v@) == Err::<MQTT5OperationBindingView, _>(e),
            },
    {
        match v {
            Value::Object(_) => Ok(MQTT5OperationBinding {  }),
            _ => Err(DecodeError::StructuralMismatch),
        }
    }

    /// Encodes this object: always the empty object.
    pub fn encode(&self) -> (r: Value)
        ensures
            r@ == self@.encode(),
    {
        let out: Vec<(String, Value)> = Vec::new();
        proof {
            assert(obj_view(out@) =~= Seq::<(Seq<char>, ValueView)>::empty());
        }
        Value::Object(out)
    }
}

/// Information about the operation representation in NATS.
#[derive(Debug, PartialEq)]
pub struct NATSOperationBinding {
    /// The name of the queue to use. It must not exceed 255 characters.
    pub queue: Option<String>,
    /// The version of this binding. If omitted, "latest" must be
    /// assumed.
    pub binding_version: Option<String>,
    /// Unrecognized sibling fields, preserved in source order.
    pub extensions: Vec<(String, Value)>,
}

/// Model of a [`NATSOperationBinding`].
#[verifier::ext_equal]
pub struct NATSOperationBindingView {
    pub queue: Option<Seq<char>>,
    pub binding_version: Option<Seq<char>>,
    pub extensions: Seq<(Seq<char>, ValueView)>,
}

impl View for NATSOperationBinding {
    type V = NATSOperationBindingView;

    open spec fn view(&self) -> NATSOperationBindingView {
        NATSOperationBindingView {
            queue: view_opt_string(self.queue),
            binding_version: view_opt_string(self.binding_version),
            extensions: obj_view(self.extensions@),
        }
    }
}

/// The declared keys are pairwise distinct.
pub proof fn lemma_nats_operation_binding_keys_distinct()
    ensures
        forall|p: int, q: int|
            0 <= p < q < NATSOperationBindingView::known_keys().len() ==> NATSOperationBindingView::known_keys()[p]
                != NATSOperationBindingView::known_keys()[q],
{
    reveal_strlit("queue");
    reveal_strlit("bindingVersion");
    assert("queue"@.len() == 5);
    assert("bindingVersion"@.len() == 14);
}

impl NATSOperationBindingView {
    /// The declared wire keys.
    pub open spec fn known_keys() -> Seq<Seq<char>> {
        seq!["queue"@, "bindingVersion"@]
    }

    /// Declared fields in output order; absent options and empty
    /// sequences are omitted.
    pub open spec fn field_list(self) -> Seq<(Seq<char>, Option<ValueView>)> {
        seq![
            ("queue"@, enc_opt_string(self.queue)),
            ("bindingVersion"@, enc_opt_string(self.binding_version)),
        ]
    }

    /// No extension key shadows a declared field, and every nested
    /// entity is well formed.
    pub open spec fn wf(self) -> bool {
        &&& forall|j: int|
            0 <= j < self.extensions.len() ==> !Self::known_keys().contains(
                (#[trigger] self.extensions[j]).0,
            )
    }

    /// The encoding: declared fields first, then the extensions.
    pub open spec fn encode(self) -> ValueView {
        ValueView::Object(present_fields(self.field_list()) + self.extensions)
    }

    /// The decoding of a structural value as this object.
    pub open spec fn decode(v: ValueView) -> Result<Self, DecodeError> {
        match v {
            ValueView::Object(entries) => {
                let queue = dec_opt_string(lookup(entries, "queue"@));
                let binding_version = dec_opt_string(lookup(entries, "bindingVersion"@));
                if queue is Err {
                    Err(queue->Err_0)
                } else if binding_version is Err {
                    Err(binding_version->Err_0)
                } else {
                    Ok(
                        NATSOperationBindingView {
                            queue: queue->Ok_0,
                            binding_version: binding_version->Ok_0,
                            extensions: ext_of(entries, Self::known_keys()),
                        },
                    )
                }
            },
            _ => Err(DecodeError::StructuralMismatch),
        }
    }

    /// Decoding what a well-formed value encodes restores it exactly,
    /// extensions included.
    pub proof fn lemma_round_trip(m: NATSOperationBindingView)
        requires
            m.wf(),
        ensures
            Self::decode(m.encode()) == Ok::<_, DecodeError>(m),
    {
        let fl = m.field_list();
        let keys = NATSOperationBindingView::known_keys();
        lemma_nats_operation_binding_keys_distinct();
        assert(forall|p: int| 0 <= p < fl.len() ==> (#[trigger] fl[p]).0 == keys[p]);
        assert(distinct_keys(fl));
        assert(forall|k: Seq<char>| has_field_key(fl, k) ==> keys.contains(k));
        assert(forall|j: int|
            0 <= j < m.extensions.len() ==> !has_field_key(fl, (#[trigger] m.extensions[j]).0));
        lemma_lookup_encoded(fl, m.extensions, 0);
        lemma_lookup_encoded(fl, m.extensions, 1);
        lemma_ext_encoded(fl, m.extensions, keys);
        assert(Self::decode(m.encode())->Ok_0 =~= m);
    }
}

impl NATSOperationBinding {
    /// Decodes this object; unrecognized keys are collected into
    /// `extensions` in source order.
    pub fn decode(v: &Value) -> (r: Result<NATSOperationBinding, DecodeError>)
        ensures
            match r {
                Ok(m) => NATSOperationBindingView::decode(v@) == Ok::<_, DecodeError>(m@),
                Err(e) => NATSOperationBindingView::decode(v@) == Err::<NATSOperationBindingView, _>(e),
            },
    {
        match v {
            Value::Object(entries) => {
                let queue = match get_opt_string(find_field(entries, "queue")) {
                    Ok(x) => x,
                    Err(e) => { return Err(e) },
                };
                let binding_version = match get_opt_string(find_field(entries, "bindingVersion")) {
                    Ok(x) => x,
                    Err(e) => { return Err(e) },
                };
                let known: [&str; 2] = [
                    "queue", "bindingVersion",
                ];
                let ks: &[&str] = known.as_slice();
                let extensions = collect_extensions(entries, ks);
                proof {
                    assert(key_views(ks@) =~= NATSOperationBindingView::known_keys());
                }
                Ok(
                    NATSOperationBinding {
                        queue,
                        binding_version,
                        extensions,
                    },
                )
            },
            _ => Err(DecodeError::StructuralMismatch),
        }
    }

    /// Encodes this object: declared fields, then extensions.
    pub fn encode(&self) -> (r: Value)
        ensures
            r@ == self@.encode(),
    {
        let ghost fl = self@.field_list();
        let mut out: Vec<(String, Value)> = Vec::new();
        proof {
            assert(fl.subrange(0, 0) =~= Seq::<(Seq<char>, Option<ValueView>)>::empty());
            assert(present_fields(fl.subrange(0, 0)) =~= Seq::<(Seq<char>, ValueView)>::empty());
            assert(fl.subrange(0, 1) =~= fl.subrange(0, 0).push(fl[0]));
            lemma_present_fields_snoc(fl.subrange(0, 0), fl[0]);
        }
        if let Some(x) = &self.queue {
            push_present(&mut out, "queue", Value::Str(x.clone()));
        }
        proof {
            assert(obj_view(out@) =~= present_fields(fl.subrange(0, 1)));
            assert(fl.subrange(0, 2) =~= fl.subrange(0, 1).push(fl[1]));
            lemma_present_fields_snoc(fl.subrange(0, 1), fl[1]);
        }
        if let Some(x) = &self.binding_version {
            push_present(&mut out, "bindingVersion", Value::Str(x.clone()));
        }
        proof {
            assert(obj_view(out@) =~= present_fields(fl.subrange(0, 2)));
            assert(fl.subrange(0, 2) =~= fl);
        }
        push_entries(&mut out, &self.extensions);
        Value::Object(out)
    }
}

/// This object must not contain any properties. Its name is reserved for
/// future use.
#[derive(Debug, PartialEq)]
pub struct JMSOperationBinding {}

/// Model of a [`JMSOperationBinding`].
#[verifier::ext_equal]
pub struct JMSOperationBindingView {}

impl View for JMSOperationBinding {
    type V = JMSOperationBindingView;

    open spec fn view(&self) -> JMSOperationBindingView {
        JMSOperationBindingView {  }
    }
}

impl JMSOperationBindingView {
    /// Any object decodes to this empty binding; its fields, if any,
    /// are not kept.
    pub open spec fn decode(v: ValueView) -> Result<JMSOperationBindingView, DecodeError> {
        match v {
            ValueView::Object(entries) => Ok(JMSOperationBindingView {  }),
            _ => Err(DecodeError::StructuralMismatch),
        }
    }

    /// The encoding: an empty object.
    pub open spec fn encode(self) -> ValueView {
        ValueView::Object(Seq::<(Seq<char>, ValueView)>::empty())
    }

    /// There is nothing to be malformed.
    pub open spec fn wf(self) -> bool {
        true
    }

    /// Decoding what this object encodes restores it.
    pub proof fn lemma_round_trip(m: JMSOperationBindingView)
        requires
            m.wf(),
        ensures
            Self::decode(m.encode()) == Ok::<_, DecodeError>(m),
    {
    }
}

impl JMSOperationBinding {
    /// Decodes this object, accepting any object shape.
    pub fn decode(v: &Value) -> (r: Result<JMSOperationBinding, DecodeError>)
        ensures
            match r {
                Ok(m) => JMSOperationBindingView::decode(v@) == Ok::<_, DecodeError>(m@),
                Err(e) => JMSOperationBindingView::decode(v@) == Err::<JMSOperationBindingView, _>(e),
            },
    {
        match v {
            Value::Object(_) => Ok(JMSOperationBinding {  }),
            _ => Err(DecodeError::StructuralMismatch),
        }
    }

    /// Encodes this object: always the empty object.
    pub fn encode(&self) -> (r: Value)
        ensures
            r@ == self@.encode(),
    {
        let out: Vec<(String, Value)> = Vec::new();
        proof {
            assert(obj_view(out@) =~= Seq::<(Seq<char>, ValueView)>::empty());
        }
        Value::Object(out)
    }
}

/// This object must not contain any properties. Its name is reserved for
/// future use.
#[derive(Debug, PartialEq)]
pub struct SNSOperationBinding {}

/// Model of a [`SNSOperationBinding`].
#[verifier::ext_equal]
pub struct SNSOperationBindingView {}

impl View for SNSOperationBinding {
    type V = SNSOperationBindingView;

    open spec fn view(&self) -> SNSOperationBindingView {
        SNSOperationBindingView {  }
    }
}

impl SNSOperationBindingView {
    /// Any object decodes to this empty binding; its fields, if any,
    /// are not kept.
    pub open spec fn decode(v: ValueView) -> Result<SNSOperationBindingView, DecodeError> {
        match v {
            ValueView::Object(entries) => Ok(SNSOperationBindingView {  }),
            _ => Err(DecodeError::StructuralMismatch),
        }
    }

    /// The encoding: an empty object.
    pub open spec fn encode(self) -> ValueView {
        ValueView::Object(Seq::<(Seq<char>, ValueView)>::empty())
    }

    /// There is nothing to be malformed.
    pub open spec fn wf(self) -> bool {
        true
    }

    /// Decoding what this object encodes restores it.
    pub proof fn lemma_round_trip(m: SNSOperationBindingView)
        requires
            m.wf(),
        ensures
            Self::decode(m.encode()) == Ok::<_, DecodeError>(m),
    {
    }
}

impl SNSOperationBinding {
    /// Decodes this object, accepting any object shape.
    pub fn decode(v: &Value) -> (r: Result<SNSOperationBinding, DecodeError>)
        ensures
            match r {
                Ok(m) => SNSOperationBindingView::decode(v@) == Ok::<_, DecodeError>(m@),
                Err(e) => SNSOperationBindingView::decode(v@) == Err::<SNSOperationBindingView, _>(e),
            },
    {
        match v {
            Value::Object(_) => Ok(SNSOperationBinding {  }),
            _ => Err(DecodeError::StructuralMismatch),
        }
    }

    /// Encodes this object: always the empty object.
    pub fn encode(&self) -> (r: Value)
        ensures
            r@ == self@.encode(),
    {
        let out: Vec<(String, Value)> = Vec::new();
        proof {
            assert(obj_view(out@) =~= Seq::<(Seq<char>, ValueView)>::empty());
        }
        Value::Object(out)
    }
}

/// This object must not contain any properties. Its name is reserved for
/// future use.
#[derive(Debug, PartialEq)]
pub struct SQSOperationBinding {}

/// Model of a [`SQSOperationBinding`].
#[verifier::ext_equal]
pub struct SQSOperationBindingView {}

impl View for SQSOperationBinding {
    type V = SQSOperationBindingView;

    open spec fn view(&self) -> SQSOperationBindingView {
        SQSOperationBindingView {  }
    }
}

impl SQSOperationBindingView {
    /// Any object decodes to this empty binding; its fields, if any,
    /// are not kept.
    pub open spec fn decode(v: ValueView) -> Result<SQSOperationBindingView, DecodeError> {
        match v {
            ValueView::Object(entries) => Ok(SQSOperationBindingView {  }),
            _ => Err(DecodeError::StructuralMismatch),
        }
    }

    /// The encoding: an empty object.
    pub open spec fn encode(self) -> ValueView {
        ValueView::Object(Seq::<(Seq<char>, ValueView)>::empty())
    }

    /// There is nothing to be malformed.
    pub open spec fn wf(self) -> bool {
        true
    }

    /// Decoding what this object encodes restores it.
    pub proof fn lemma_round_trip(m: SQSOperationBindingView)
        requires
            m.wf(),
        ensures
            Self::decode(m.encode()) == Ok::<_, DecodeError>(m),
    {
    }
}

impl SQSOperationBinding {
    /// Decodes this object, accepting any object shape.
    pub fn decode(v: &Value) -> (r: Result<SQSOperationBinding, DecodeError>)
        ensures
            match r {
                Ok(m) => SQSOperationBindingView::decode(v@) == Ok::<_, DecodeError>(m@),
                Err(e) => SQSOperationBindingView::decode(v@) == Err::<SQSOperationBindingView, _>(e),
            },
    {
        match v {
            Value::Object(_) => Ok(SQSOperationBinding {  }),
            _ => Err(DecodeError::StructuralMismatch),
        }
    }

    /// Encodes this object: always the empty object.
    pub fn encode(&self) -> (r: Value)
        ensures
            r@ == self@.encode(),
    {
        let out: Vec<(String, Value)> = Vec::new();
        proof {
            assert(obj_view(out@) =~= Seq::<(Seq<char>, ValueView)>::empty());
        }
        Value::Object(out)
    }
}

/// This object must not contain any properties. Its name is reserved for
/// future use.
#[derive(Debug, PartialEq)]
pub struct STOMPOperationBinding {}

/// Model of a [`STOMPOperationBinding`].
#[verifier::ext_equal]
pub struct STOMPOperationBindingView {}

impl View for STOMPOperationBinding {
    type V = STOMPOperationBindingView;

    open spec fn view(&self) -> STOMPOperationBindingView {
        STOMPOperationBindingView {  }
    }
}

impl STOMPOperationBindingView {
    /// Any object decodes to this empty binding; its fields, if any,
    /// are not kept.
    pub open spec fn decode(v: ValueView) -> Result<STOMPOperationBindingView, DecodeError> {
        match v {
            ValueView::Object(entries) => Ok(STOMPOperationBindingView {  }),
            _ => Err(DecodeError::StructuralMismatch),
        }
    }

    /// The encoding: an empty object.
    pub open spec fn encode(self) -> ValueView {
        ValueView::Object(Seq::<(Seq<char>, ValueView)>::empty())
    }

    /// There is nothing to be malformed.
    pub open spec fn wf(self) -> bool {
        true
    }

    /// Decoding what this object encodes restores it.
    pub proof fn lemma_round_trip(m: STOMPOperationBindingView)
        requires
            m.wf(),
        ensures
            Self::decode(m.encode()) == Ok::<_, DecodeError>(m),
    {
    }
}

impl STOMPOperationBinding {
    /// Decodes this object, accepting any object shape.
    pub fn decode(v: &Value) -> (r: Result<STOMPOperationBinding, DecodeError>)
        ensures
            match r {
                Ok(m) => STOMPOperationBindingView::decode(v@) == Ok::<_, DecodeError>(m@),
                Err(e) => STOMPOperationBindingView::decode(v@) == Err::<STOMPOperationBindingView, _>(e),
            },
    {
        match v {
            Value::Object(_) => Ok(STOMPOperationBinding {  }),
            _ => Err(DecodeError::StructuralMismatch),
        }
    }

    /// Encodes this object: always the empty object.
    pub fn encode(&self) -> (r: Value)
        ensures
            r@ == self@.encode(),
    {
        let out: Vec<(String, Value)> = Vec::new();
        proof {
            assert(obj_view(out@) =~= Seq::<(Seq<char>, ValueView)>::empty());
        }
        Value::Object(out)
    }
}

/// This object must not contain any properties. Its name is reserved for
/// future use.
#[derive(Debug, PartialEq)]
pub struct RedisOperationBinding {}

/// Model of a [`RedisOperationBinding`].
#[verifier::ext_equal]
pub struct RedisOperationBindingView {}

impl View for RedisOperationBinding {
    type V = RedisOperationBindingView;

    open spec fn view(&self) -> RedisOperationBindingView {
        RedisOperationBindingView {  }
    }
}

impl RedisOperationBindingView {
    /// Any object decodes to this empty binding; its fields, if any,
    /// are not kept.
    pub open spec fn decode(v: ValueView) -> Result<RedisOperationBindingView, DecodeError> {
        match v {
            ValueView::Object(entries) => Ok(RedisOperationBindingView {  }),
            _ => Err(DecodeError::StructuralMismatch),
        }
    }

    /// The encoding: an empty object.
    pub open spec fn encode(self) -> ValueView {
        ValueView::Object(Seq::<(Seq<char>, ValueView)>::empty())
    }

    /// There is nothing to be malformed.
    pub open spec fn wf(self) -> bool {
        true
    }

    /// Decoding what this object encodes restores it.
    pub proof fn lemma_round_trip(m: RedisOperationBindingView)
        requires
            m.wf(),
        ensures
            Self::decode(m.encode()) == Ok::<_, DecodeError>(m),
    {
    }
}

impl RedisOperationBinding {
    /// Decodes this object, accepting any object shape.
    pub fn decode(v: &Value) -> (r: Result<RedisOperationBinding, DecodeError>)
        ensures
            match r {
                Ok(m) => RedisOperationBindingView::decode(v@) == Ok::<_, DecodeError>(m@),
                Err(e) => RedisOperationBindingView::decode(v@) == Err::<RedisOperationBindingView, _>(e),
            },
    {
        match v {
            Value::Object(_) => Ok(RedisOperationBinding {  }),
            _ => Err(DecodeError::StructuralMismatch),
        }
    }

    /// Encodes this object: always the empty object.
    pub fn encode(&self) -> (r: Value)
        ensures
            r@ == self@.encode(),
    {
        let out: Vec<(String, Value)> = Vec::new();
        proof {
            assert(obj_view(out@) =~= Seq::<(Seq<char>, ValueView)>::empty());
        }
        Value::Object(out)
    }
}

/// This object must not contain any properties. Its name is reserved for
/// future use.
#[derive(Debug, PartialEq)]
pub struct MercureOperationBinding {}

/// Model of a [`MercureOperationBinding`].
#[verifier::ext_equal]
pub struct MercureOperationBindingView {}

impl View for MercureOperationBinding {
    type V = MercureOperationBindingView;

    open spec fn view(&self) -> MercureOperationBindingView {
        MercureOperationBindingView {  }
    }
}

impl MercureOperationBindingView {
    /// Any object decodes to this empty binding; its fields, if any,
    /// are not kept.
    pub open spec fn decode(v: ValueView) -> Result<MercureOperationBindingView, DecodeError> {
        match v {
            ValueView::Object(entries) => Ok(MercureOperationBindingView {  }),
            _ => Err(DecodeError::StructuralMismatch),
        }
    }

    /// The encoding: an empty object.
    pub open spec fn encode(self) -> ValueView {
        ValueView::Object(Seq::<(Seq<char>, ValueView)>::empty())
    }

    /// There is nothing to be malformed.
    pub open spec fn wf(self) -> bool {
        true
    }

    /// Decoding what this object encodes restores it.
    pub proof fn lemma_round_trip(m: MercureOperationBindingView)
        requires
            m.wf(),
        ensures
            Self::decode(m.encode()) == Ok::<_, DecodeError>(m),
    {
    }
}

impl MercureOperationBinding {
    /// Decodes this object, accepting any object shape.
    pub fn decode(v: &Value) -> (r: Result<MercureOperationBinding, DecodeError>)
        ensures
            match r {
                Ok(m) => MercureOperationBindingView::decode(v@) == Ok::<_, DecodeError>(m@),
                Err(e) => MercureOperationBindingView::decode(v@) == Err::<MercureOperationBindingView, _>(e),
            },
    {
        match v {
            Value::Object(_) => Ok(MercureOperationBinding {  }),
            _ => Err(DecodeError::StructuralMismatch),
        }
    }

    /// Encodes this object: always the empty object.
    pub fn encode(&self) -> (r: Value)
        ensures
            r@ == self@.encode(),
    {
        let out: Vec<(String, Value)> = Vec::new();
        proof {
            assert(obj_view(out@) =~= Seq::<(Seq<char>, ValueView)>::empty());
        }
        Value::Object(out)
    }
}

/// Protocol-specific definitions for an operation: one optional slot per
/// known protocol, plus the extensions for protocols outside the known
/// set.
#[derive(Debug, PartialEq)]
pub struct OperationBinding {
    /// Protocol-specific information for an HTTP operation.
    pub http: Option<HTTPOperationBinding>,
    /// Protocol-specific information for a WebSockets operation.
    pub ws: Option<WebSocketsOperationBinding>,
    /// Protocol-specific information for a Kafka operation.
    pub kafka: Option<KafkaOperationBinding>,
    /// Protocol-specific information for an Anypoint MQ operation.
    pub anypointmq: Option<AnyPointMQOperationBinding>,
    /// Protocol-specific information for an AMQP operation.
    pub amqp: Option<AMQPOperationBinding>,
    /// Protocol-specific information for an AMQP 1.0 operation.
    pub amqp1: Option<AMQP1OperationBinding>,
    /// Protocol-specific information for an MQTT operation.
    pub mqtt: Option<MQTTOperationBinding>,
    /// Protocol-specific information for an MQTT 5 operation.
    pub mqtt5: Option<MQTT5OperationBinding>,
    /// Protocol-specific information for a NATS operation.
    pub nats: Option<NATSOperationBinding>,
    /// Protocol-specific information for a JMS operation.
    pub jms: Option<JMSOperationBinding>,
    /// Protocol-specific information for an SNS operation.
    pub sns: Option<SNSOperationBinding>,
    /// Protocol-specific information for an SQS operation.
    pub sqs: Option<SQSOperationBinding>,
    /// Protocol-specific information for a STOMP operation.
    pub stomp: Option<STOMPOperationBinding>,
    /// Protocol-specific information for a Redis operation.
    pub redis: Option<RedisOperationBinding>,
    /// Protocol-specific information for a Mercure operation.
    pub mercure: Option<MercureOperationBinding>,
    /// Unrecognized sibling fields, preserved in source order.
    pub extensions: Vec<(String, Value)>,
}

/// Model of a [`OperationBinding`].
#[verifier::ext_equal]
pub struct OperationBindingView {
    pub http: Option<HTTPOperationBindingView>,
    pub ws: Option<WebSocketsOperationBindingView>,
    pub kafka: Option<KafkaOperationBindingView>,
    pub anypointmq: Option<AnyPointMQOperationBindingView>,
    pub amqp: Option<AMQPOperationBindingView>,
    pub amqp1: Option<AMQP1OperationBindingView>,
    pub mqtt: Option<MQTTOperationBindingView>,
    pub mqtt5: Option<MQTT5OperationBindingView>,
    pub nats: Option<NATSOperationBindingView>,
    pub jms: Option<JMSOperationBindingView>,
    pub sns: Option<SNSOperationBindingView>,
    pub sqs: Option<SQSOperationBindingView>,
    pub stomp: Option<STOMPOperationBindingView>,
    pub redis: Option<RedisOperationBindingView>,
    pub mercure: Option<MercureOperationBindingView>,
    pub extensions: Seq<(Seq<char>, ValueView)>,
}

impl View for OperationBinding {
    type V = OperationBindingView;

    open spec fn view(&self) -> OperationBindingView {
        OperationBindingView {
            http: match self.http {
                None => None,
                Some(x) => Some(x@),
            },
            ws: match self.ws {
                None => None,
                Some(x) => Some(x@),
            },
            kafka: match self.kafka {
                None => None,
                Some(x) => Some(x@),
            },
            anypointmq: match self.anypointmq {
                None => None,
                Some(x) => Some(x@),
            },
            amqp: match self.amqp {
                None => None,
                Some(x) => Some(x@),
            },
            amqp1: match self.amqp1 {
                None => None,
                Some(x) => Some(x@),
            },
            mqtt: match self.mqtt {
                None => None,
                Some(x) => Some(x@),
            },
            mqtt5: match self.mqtt5 {
                None => None,
                Some(x) => Some(x@),
            },
            nats: match self.nats {
                None => None,
                Some(x) => Some(x@),
            },
            jms: match self.jms {
                None => None,
                Some(x) => Some(x@),
            },
            sns: match self.sns {
                None => None,
                Some(x) => Some(x@),
            },
            sqs: match self.sqs {
                None => None,
                Some(x) => Some(x@),
            },
            stomp: match self.stomp {
                None => None,
                Some(x) => Some(x@),
            },
            redis: match self.redis {
                None => None,
                Some(x) => Some(x@),
            },
            mercure: match self.mercure {
                None => None,
                Some(x) => Some(x@),
            },
            extensions: obj_view(self.extensions@),
        }
    }
}

/// The declared keys are pairwise distinct.
pub proof fn lemma_operation_binding_keys_distinct()
    ensures
        forall|p: int, q: int|
            0 <= p < q < OperationBindingView::known_keys().len() ==> OperationBindingView::known_keys()[p]
                != OperationBindingView::known_keys()[q],
{
    reveal_strlit("http");
    reveal_strlit("ws");
    reveal_strlit("kafka");
    reveal_strlit("anypointmq");
    reveal_strlit("amqp");
    reveal_strlit("amqp1");
    reveal_strlit("mqtt");
    reveal_strlit("mqtt5");
    reveal_strlit("nats");
    reveal_strlit("jms");
    reveal_strlit("sns");
    reveal_strlit("sqs");
    reveal_strlit("stomp");
    reveal_strlit("redis");
    reveal_strlit("mercure");
    assert("http"@.len() == 4);
    assert("ws"@.len() == 2);
    assert("kafka"@.len() == 5);
    assert("anypointmq"@.len() == 10);
    assert("amqp"@.len() == 4);
    assert("amqp1"@.len() == 5);
    assert("mqtt"@.len() == 4);
    assert("mqtt5"@.len() == 5);
    assert("nats"@.len() == 4);
    assert("jms"@.len() == 3);
    assert("sns"@.len() == 3);
    assert("sqs"@.len() == 3);
    assert("stomp"@.len() == 5);
    assert("redis"@.len() == 5);
    assert("mercure"@.len() == 7);
    assert("http"@[0] == 'h');
    assert("amqp"@[0] == 'a');
    assert("mqtt"@[0] == 'm');
    assert("nats"@[0] == 'n');
    assert("kafka"@[0] == 'k');
    assert("amqp1"@[0] == 'a');
    assert("mqtt5"@[0] == 'm');
    assert("stomp"@[0] == 's');
    assert("redis"@[0] == 'r');
    assert("jms"@[0] == 'j');
    assert("sns"@[0] == 's');
    assert("sqs"@[0] == 's');
    assert("sns"@[1] == 'n');
    assert("sqs"@[1] == 'q');
}

/// The decoding of the `http` protocol slot.
#[verifier::opaque]
pub open spec fn dec_slot_http(entries: Seq<(Seq<char>, ValueView)>) -> Result<
    Option<HTTPOperationBindingView>,
    DecodeError,
> {
    match lookup(entries, "http"@) {
        None => Ok(None),
        Some(pv) => match HTTPOperationBindingView::decode(pv) {
            Ok(m) => Ok(Some(m)),
            Err(e) => Err(e),
        },
    }
}

/// Decodes the `http` protocol slot.
fn decode_slot_http(entries: &Vec<(String, Value)>) -> (r: Result<Option<HTTPOperationBinding>, DecodeError>)
    ensures
        match r {
            Ok(x) => dec_slot_http(obj_view(entries@)) == Ok::<_, DecodeError>(
                match x {
                    None => None,
                    Some(m) => Some(m@),
                },
            ),
            Err(e) => dec_slot_http(obj_view(entries@)) == Err::<Option<HTTPOperationBindingView>, _>(e),
        },
{
    proof {
        reveal(dec_slot_http);
    }
    match find_field(entries, "http") {
        None => Ok(None),
        Some(v) => match HTTPOperationBinding::decode(v) {
            Ok(m) => Ok(Some(m)),
            Err(e) => Err(e),
        },
    }
}

/// The decoding of the `ws` protocol slot.
#[verifier::opaque]
pub open spec fn dec_slot_ws(entries: Seq<(Seq<char>, ValueView)>) -> Result<
    Option<WebSocketsOperationBindingView>,
    DecodeError,
> {
    match lookup(entries, "ws"@) {
        None => Ok(None),
        Some(pv) => match WebSocketsOperationBindingView::decode(pv) {
            Ok(m) => Ok(Some(m)),
            Err(e) => Err(e),
        },
    }
}

/// Decodes the `ws` protocol slot.
fn decode_slot_ws(entries: &Vec<(String, Value)>) -> (r: Result<Option<WebSocketsOperationBinding>, DecodeError>)
    ensures
        match r {
            Ok(x) => dec_slot_ws(obj_view(entries@)) == Ok::<_, DecodeError>(
                match x {
                    None => None,
                    Some(m) => Some(m@),
                },
            ),
            Err(e) => dec_slot_ws(obj_view(entries@)) == Err::<Option<WebSocketsOperationBindingView>, _>(e),
        },
{
    proof {
        reveal(dec_slot_ws);
    }
    match find_field(entries, "ws") {
        None => Ok(None),
        Some(v) => match WebSocketsOperationBinding::decode(v) {
            Ok(m) => Ok(Some(m)),
            Err(e) => Err(e),
        },
    }
}

/// The decoding of the `kafka` protocol slot.
#[verifier::opaque]
pub open spec fn dec_slot_kafka(entries: Seq<(Seq<char>, ValueView)>) -> Result<
    Option<KafkaOperationBindingView>,
    DecodeError,
> {
    match lookup(entries, "kafka"@) {
        None => Ok(None),
        Some(pv) => match KafkaOperationBindingView::decode(pv) {
            Ok(m) => Ok(Some(m)),
            Err(e) => Err(e),
        },
    }
}

/// Decodes the `kafka` protocol slot.
fn decode_slot_kafka(entries: &Vec<(String, Value)>) -> (r: Result<Option<KafkaOperationBinding>, DecodeError>)
    ensures
        match r {
            Ok(x) => dec_slot_kafka(obj_view(entries@)) == Ok::<_, DecodeError>(
                match x {
                    None => None,
                    Some(m) => Some(m@),
                },
            ),
            Err(e) => dec_slot_kafka(obj_view(entries@)) == Err::<Option<KafkaOperationBindingView>, _>(e),
        },
{
    proof {
        reveal(dec_slot_kafka);
    }
    match find_field(entries, "kafka") {
        None => Ok(None),
        Some(v) => match KafkaOperationBinding::decode(v) {
            Ok(m) => Ok(Some(m)),
            Err(e) => Err(e),
        },
    }
}

/// The decoding of the `anypointmq` protocol slot.
#[verifier::opaque]
pub open spec fn dec_slot_anypointmq(entries: Seq<(Seq<char>, ValueView)>) -> Result<
    Option<AnyPointMQOperationBindingView>,
    DecodeError,
> {
    match lookup(entries, "anypointmq"@) {
        None => Ok(None),
        Some(pv) => match AnyPointMQOperationBindingView::decode(pv) {
            Ok(m) => Ok(Some(m)),
            Err(e) => Err(e),
        },
    }
}

/// Decodes the `anypointmq` protocol slot.
fn decode_slot_anypointmq(entries: &Vec<(String, Value)>) -> (r: Result<Option<AnyPointMQOperationBinding>, DecodeError>)
    ensures
        match r {
            Ok(x) => dec_slot_anypointmq(obj_view(entries@)) == Ok::<_, DecodeError>(
                match x {
                    None => None,
                    Some(m) => Some(m@),
                },
            ),
            Err(e) => dec_slot_anypointmq(obj_view(entries@)) == Err::<Option<AnyPointMQOperationBindingView>, _>(e),
        },
{
    proof {
        reveal(dec_slot_anypointmq);
    }
    match find_field(entries, "anypointmq") {
        None => Ok(None),
        Some(v) => match AnyPointMQOperationBinding::decode(v) {
            Ok(m) => Ok(Some(m)),
            Err(e) => Err(e),
        },
    }
}

/// The decoding of the `amqp` protocol slot.
#[verifier::opaque]
pub open spec fn dec_slot_amqp(entries: Seq<(Seq<char>, ValueView)>) -> Result<
    Option<AMQPOperationBindingView>,
    DecodeError,
> {
    match lookup(entries, "amqp"@) {
        None => Ok(None),
        Some(pv) => match AMQPOperationBindingView::decode(pv) {
            Ok(m) => Ok(Some(m)),
            Err(e) => Err(e),
        },
    }
}

/// Decodes the `amqp` protocol slot.
fn decode_slot_amqp(entries: &Vec<(String, Value)>) -> (r: Result<Option<AMQPOperationBinding>, DecodeError>)
    ensures
        match r {
            Ok(x) => dec_slot_amqp(obj_view(entries@)) == Ok::<_, DecodeError>(
                match x {
                    None => None,
                    Some(m) => Some(m@),
                },
            ),
            Err(e) => dec_slot_amqp(obj_view(entries@)) == Err::<Option<AMQPOperationBindingView>, _>(e),
        },
{
    proof {
        reveal(dec_slot_amqp);
    }
    match find_field(entries, "amqp") {
        None => Ok(None),
        Some(v) => match AMQPOperationBinding::decode(v) {
            Ok(m) => Ok(Some(m)),
            Err(e) => Err(e),
        },
    }
}

/// The decoding of the `amqp1` protocol slot.
#[verifier::opaque]
pub open spec fn dec_slot_amqp1(entries: Seq<(Seq<char>, ValueView)>) -> Result<
    Option<AMQP1OperationBindingView>,
    DecodeError,
> {
    match lookup(entries, "amqp1"@) {
        None => Ok(None),
        Some(pv) => match AMQP1OperationBindingView::decode(pv) {
            Ok(m) => Ok(Some(m)),
            Err(e) => Err(e),
        },
    }
}

/// Decodes the `amqp1` protocol slot.
fn decode_slot_amqp1(entries: &Vec<(String, Value)>) -> (r: Result<Option<AMQP1OperationBinding>, DecodeError>)
    ensures
        match r {
            Ok(x) => dec_slot_amqp1(obj_view(entries@)) == Ok::<_, DecodeError>(
                match x {
                    None => None,
                    Some(m) => Some(m@),
                },
            ),
            Err(e) => dec_slot_amqp1(obj_view(entries@)) == Err::<Option<AMQP1OperationBindingView>, _>(e),
        },
{
    proof {
        reveal(dec_slot_amqp1);
    }
    match find_field(entries, "amqp1") {
        None => Ok(None),
        Some(v) => match AMQP1OperationBinding::decode(v) {
            Ok(m) => Ok(Some(m)),
            Err(e) => Err(e),
        },
    }
}

/// The decoding of the `mqtt` protocol slot.
#[verifier::opaque]
pub open spec fn dec_slot_mqtt(entries: Seq<(Seq<char>, ValueView)>) -> Result<
    Option<MQTTOperationBindingView>,
    DecodeError,
> {
    match lookup(entries, "mqtt"@) {
        None => Ok(None),
        Some(pv) => match MQTTOperationBindingView::decode(pv) {
            Ok(m) => Ok(Some(m)),
            Err(e) => Err(e),
        },
    }
}

/// Decodes the `mqtt` protocol slot.
fn decode_slot_mqtt(entries: &Vec<(String, Value)>) -> (r: Result<Option<MQTTOperationBinding>, DecodeError>)
    ensures
        match r {
            Ok(x) => dec_slot_mqtt(obj_view(entries@)) == Ok::<_, DecodeError>(
                match x {
                    None => None,
                    Some(m) => Some(m@),
                },
            ),
            Err(e) => dec_slot_mqtt(obj_view(entries@)) == Err::<Option<MQTTOperationBindingView>, _>(e),
        },
{
    proof {
        reveal(dec_slot_mqtt);
    }
    match find_field(entries, "mqtt") {
        None => Ok(None),
        Some(v) => match MQTTOperationBinding::decode(v) {
            Ok(m) => Ok(Some(m)),
            Err(e) => Err(e),
        },
    }
}

/// The decoding of the `mqtt5` protocol slot.
#[verifier::opaque]
pub open spec fn dec_slot_mqtt5(entries: Seq<(Seq<char>, ValueView)>) -> Result<
    Option<MQTT5OperationBindingView>,
    DecodeError,
> {
    match lookup(entries, "mqtt5"@) {
        None => Ok(None),
        Some(pv) => match MQTT5OperationBindingView::decode(pv) {
            Ok(m) => Ok(Some(m)),
            Err(e) => Err(e),
        },
    }
}

/// Decodes the `mqtt5` protocol slot.
fn decode_slot_mqtt5(entries: &Vec<(String, Value)>) -> (r: Result<Option<MQTT5OperationBinding>, DecodeError>)
    ensures
        match r {
            Ok(x) => dec_slot_mqtt5(obj_view(entries@)) == Ok::<_, DecodeError>(
                match x {
                    None => None,
                    Some(m) => Some(m@),
                },
            ),
            Err(e) => dec_slot_mqtt5(obj_view(entries@)) == Err::<Option<MQTT5OperationBindingView>, _>(e),
        },
{
    proof {
        reveal(dec_slot_mqtt5);
    }
    match find_field(entries, "mqtt5") {
        None => Ok(None),
        Some(v) => match MQTT5OperationBinding::decode(v) {
            Ok(m) => Ok(Some(m)),
            Err(e) => Err(e),
        },
    }
}

/// The decoding of the `nats` protocol slot.
#[verifier::opaque]
pub open spec fn dec_slot_nats(entries: Seq<(Seq<char>, ValueView)>) -> Result<
    Option<NATSOperationBindingView>,
    DecodeError,
> {
    match lookup(entries, "nats"@) {
        None => Ok(None),
        Some(pv) => match NATSOperationBindingView::decode(pv) {
            Ok(m) => Ok(Some(m)),
            Err(e) => Err(e),
        },
    }
}

/// Decodes the `nats` protocol slot.
fn decode_slot_nats(entries: &Vec<(String, Value)>) -> (r: Result<Option<NATSOperationBinding>, DecodeError>)
    ensures
        match r {
            Ok(x) => dec_slot_nats(obj_view(entries@)) == Ok::<_, DecodeError>(
                match x {
                    None => None,
                    Some(m) => Some(m@),
                },
            ),
            Err(e) => dec_slot_nats(obj_view(entries@)) == Err::<Option<NATSOperationBindingView>, _>(e),
        },
{
    proof {
        reveal(dec_slot_nats);
    }
    match find_field(entries, "nats") {
        None => Ok(None),
        Some(v) => match NATSOperationBinding::decode(v) {
            Ok(m) => Ok(Some(m)),
            Err(e) => Err(e),
        },
    }
}

/// The decoding of the `jms` protocol slot.
#[verifier::opaque]
pub open spec fn dec_slot_jms(entries: Seq<(Seq<char>, ValueView)>) -> Result<
    Option<JMSOperationBindingView>,
    DecodeError,
> {
    match lookup(entries, "jms"@) {
        None => Ok(None),
        Some(pv) => match JMSOperationBindingView::decode(pv) {
            Ok(m) => Ok(Some(m)),
            Err(e) => Err(e),
        },
    }
}

/// Decodes the `jms` protocol slot.
fn decode_slot_jms(entries: &Vec<(String, Value)>) -> (r: Result<Option<JMSOperationBinding>, DecodeError>)
    ensures
        match r {
            Ok(x) => dec_slot_jms(obj_view(entries@)) == Ok::<_, DecodeError>(
                match x {
                    None => None,
                    Some(m) => Some(m@),
                },
            ),
            Err(e) => dec_slot_jms(obj_view(entries@)) == Err::<Option<JMSOperationBindingView>, _>(e),
        },
{
    proof {
        reveal(dec_slot_jms);
    }
    match find_field(entries, "jms") {
        None => Ok(None),
        Some(v) => match JMSOperationBinding::decode(v) {
            Ok(m) => Ok(Some(m)),
            Err(e) => Err(e),
        },
    }
}

/// The decoding of the `sns` protocol slot.
#[verifier::opaque]
pub open spec fn dec_slot_sns(entries: Seq<(Seq<char>, ValueView)>) -> Result<
    Option<SNSOperationBindingView>,
    DecodeError,
> {
    match lookup(entries, "sns"@) {
        None => Ok(None),
        Some(pv) => match SNSOperationBindingView::decode(pv) {
            Ok(m) => Ok(Some(m)),
            Err(e) => Err(e),
        },
    }
}

/// Decodes the `sns` protocol slot.
fn decode_slot_sns(entries: &Vec<(String, Value)>) -> (r: Result<Option<SNSOperationBinding>, DecodeError>)
    ensures
        match r {
            Ok(x) => dec_slot_sns(obj_view(entries@)) == Ok::<_, DecodeError>(
                match x {
                    None => None,
                    Some(m) => Some(m@),
                },
            ),
            Err(e) => dec_slot_sns(obj_view(entries@)) == Err::<Option<SNSOperationBindingView>, _>(e),
        },
{
    proof {
        reveal(dec_slot_sns);
    }
    match find_field(entries, "sns") {
        None => Ok(None),
        Some(v) => match SNSOperationBinding::decode(v) {
            Ok(m) => Ok(Some(m)),
            Err(e) => Err(e),
        },
    }
}

/// The decoding of the `sqs` protocol slot.
#[verifier::opaque]
pub open spec fn dec_slot_sqs(entries: Seq<(Seq<char>, ValueView)>) -> Result<
    Option<SQSOperationBindingView>,
    DecodeError,
> {
    match lookup(entries, "sqs"@) {
        None => Ok(None),
        Some(pv) => match SQSOperationBindingView::decode(pv) {
            Ok(m) => Ok(Some(m)),
            Err(e) => Err(e),
        },
    }
}

/// Decodes the `sqs` protocol slot.
fn decode_slot_sqs(entries: &Vec<(String, Value)>) -> (r: Result<Option<SQSOperationBinding>, DecodeError>)
    ensures
        match r {
            Ok(x) => dec_slot_sqs(obj_view(entries@)) == Ok::<_, DecodeError>(
                match x {
                    None => None,
                    Some(m) => Some(m@),
                },
            ),
            Err(e) => dec_slot_sqs(obj_view(entries@)) == Err::<Option<SQSOperationBindingView>, _>(e),
        },
{
    proof {
        reveal(dec_slot_sqs);
    }
    match find_field(entries, "sqs") {
        None => Ok(None),
        Some(v) => match SQSOperationBinding::decode(v) {
            Ok(m) => Ok(Some(m)),
            Err(e) => Err(e),
        },
    }
}

/// The decoding of the `stomp` protocol slot.
#[verifier::opaque]
pub open spec fn dec_slot_stomp(entries: Seq<(Seq<char>, ValueView)>) -> Result<
    Option<STOMPOperationBindingView>,
    DecodeError,
> {
    match lookup(entries, "stomp"@) {
        None => Ok(None),
        Some(pv) => match STOMPOperationBindingView::decode(pv) {
            Ok(m) => Ok(Some(m)),
            Err(e) => Err(e),
        },
    }
}

/// Decodes the `stomp` protocol slot.
fn decode_slot_stomp(entries: &Vec<(String, Value)>) -> (r: Result<Option<STOMPOperationBinding>, DecodeError>)
    ensures
        match r {
            Ok(x) => dec_slot_stomp(obj_view(entries@)) == Ok::<_, DecodeError>(
                match x {
                    None => None,
                    Some(m) => Some(m@),
                },
            ),
            Err(e) => dec_slot_stomp(obj_view(entries@)) == Err::<Option<STOMPOperationBindingView>, _>(e),
        },
{
    proof {
        reveal(dec_slot_stomp);
    }
    match find_field(entries, "stomp") {
        None => Ok(None),
        Some(v) => match STOMPOperationBinding::decode(v) {
            Ok(m) => Ok(Some(m)),
            Err(e) => Err(e),
        },
    }
}

/// The decoding of the `redis` protocol slot.
#[verifier::opaque]
pub open spec fn dec_slot_redis(entries: Seq<(Seq<char>, ValueView)>) -> Result<
    Option<RedisOperationBindingView>,
    DecodeError,
> {
    match lookup(entries, "redis"@) {
        None => Ok(None),
        Some(pv) => match RedisOperationBindingView::decode(pv) {
            Ok(m) => Ok(Some(m)),
            Err(e) => Err(e),
        },
    }
}

/// Decodes the `redis` protocol slot.
fn decode_slot_redis(entries: &Vec<(String, Value)>) -> (r: Result<Option<RedisOperationBinding>, DecodeError>)
    ensures
        match r {
            Ok(x) => dec_slot_redis(obj_view(entries@)) == Ok::<_, DecodeError>(
                match x {
                    None => None,
                    Some(m) => Some(m@),
                },
            ),
            Err(e) => dec_slot_redis(obj_view(entries@)) == Err::<Option<RedisOperationBindingView>, _>(e),
        },
{
    proof {
        reveal(dec_slot_redis);
    }
    match find_field(entries, "redis") {
        None => Ok(None),
        Some(v) => match RedisOperationBinding::decode(v) {
            Ok(m) => Ok(Some(m)),
            Err(e) => Err(e),
        },
    }
}

/// The decoding of the `mercure` protocol slot.
#[verifier::opaque]
pub open spec fn dec_slot_mercure(entries: Seq<(Seq<char>, ValueView)>) -> Result<
    Option<MercureOperationBindingView>,
    DecodeError,
> {
    match lookup(entries, "mercure"@) {
        None => Ok(None),
        Some(pv) => match MercureOperationBindingView::decode(pv) {
            Ok(m) => Ok(Some(m)),
            Err(e) => Err(e),
        },
    }
}

/// Decodes the `mercure` protocol slot.
fn decode_slot_mercure(entries: &Vec<(String, Value)>) -> (r: Result<Option<MercureOperationBinding>, DecodeError>)
    ensures
        match r {
            Ok(x) => dec_slot_mercure(obj_view(entries@)) == Ok::<_, DecodeError>(
                match x {
                    None => None,
                    Some(m) => Some(m@),
                },
            ),
            Err(e) => dec_slot_mercure(obj_view(entries@)) == Err::<Option<MercureOperationBindingView>, _>(e),
        },
{
    proof {
        reveal(dec_slot_mercure);
    }
    match find_field(entries, "mercure") {
        None => Ok(None),
        Some(v) => match MercureOperationBinding::decode(v) {
            Ok(m) => Ok(Some(m)),
            Err(e) => Err(e),
        },
    }
}

impl OperationBindingView {
    /// The declared wire keys.
    pub open spec fn known_keys() -> Seq<Seq<char>> {
        seq!["http"@, "ws"@, "kafka"@, "anypointmq"@, "amqp"@, "amqp1"@, "mqtt"@, "mqtt5"@, "nats"@, "jms"@, "sns"@, "sqs"@, "stomp"@, "redis"@, "mercure"@]
    }

    /// Declared fields in output order; absent options and empty
    /// sequences are omitted.
    pub open spec fn field_list(self) -> Seq<(Seq<char>, Option<ValueView>)> {
        seq![
            ("http"@, match self.http {
                None => None,
                Some(m) => Some(m.encode()),
            }),
            ("ws"@, match self.ws {
                None => None,
                Some(m) => Some(m.encode()),
            }),
            ("kafka"@, match self.kafka {
                None => None,
                Some(m) => Some(m.encode()),
            }),
            ("anypointmq"@, match self.anypointmq {
                None => None,
                Some(m) => Some(m.encode()),
            }),
            ("amqp"@, match self.amqp {
                None => None,
                Some(m) => Some(m.encode()),
            }),
            ("amqp1"@, match self.amqp1 {
                None => None,
                Some(m) => Some(m.encode()),
            }),
            ("mqtt"@, match self.mqtt {
                None => None,
                Some(m) => Some(m.encode()),
            }),
            ("mqtt5"@, match self.mqtt5 {
                None => None,
                Some(m) => Some(m.encode()),
            }),
            ("nats"@, match self.nats {
                None => None,
                Some(m) => Some(m.encode()),
            }),
            ("jms"@, match self.jms {
                None => None,
                Some(m) => Some(m.encode()),
            }),
            ("sns"@, match self.sns {
                None => None,
                Some(m) => Some(m.encode()),
            }),
            ("sqs"@, match self.sqs {
                None => None,
                Some(m) => Some(m.encode()),
            }),
            ("stomp"@, match self.stomp {
                None => None,
                Some(m) => Some(m.encode()),
            }),
            ("redis"@, match self.redis {
                None => None,
                Some(m) => Some(m.encode()),
            }),
            ("mercure"@, match self.mercure {
                None => None,
                Some(m) => Some(m.encode()),
            }),
        ]
    }

    /// No extension key shadows a declared field, and every nested
    /// entity is well formed.
    pub open spec fn wf(self) -> bool {
        &&& forall|j: int|
            0 <= j < self.extensions.len() ==> !Self::known_keys().contains(
                (#[trigger] self.extensions[j]).0,
            )
        &&& match self.http {
            None => true,
            Some(m) => m.wf(),
        }
        &&& match self.ws {
            None => true,
            Some(m) => m.wf(),
        }
        &&& match self.kafka {
            None => true,
            Some(m) => m.wf(),
        }
        &&& match self.anypointmq {
            None => true,
            Some(m) => m.wf(),
        }
        &&& match self.amqp {
            None => true,
            Some(m) => m.wf(),
        }
        &&& match self.amqp1 {
            None => true,
            Some(m) => m.wf(),
        }
        &&& match self.mqtt {
            None => true,
            Some(m) => m.wf(),
        }
        &&& match self.mqtt5 {
            None => true,
            Some(m) => m.wf(),
        }
        &&& match self.nats {
            None => true,
            Some(m) => m.wf(),
        }
        &&& match self.jms {
            None => true,
            Some(m) => m.wf(),
        }
        &&& match self.sns {
            None => true,
            Some(m) => m.wf(),
        }
        &&& match self.sqs {
            None => true,
            Some(m) => m.wf(),
        }
        &&& match self.stomp {
            None => true,
            Some(m) => m.wf(),
        }
        &&& match self.redis {
            None => true,
            Some(m) => m.wf(),
        }
        &&& match self.mercure {
            None => true,
            Some(m) => m.wf(),
        }
    }

    /// The encoding: declared fields first, then the extensions.
    pub open spec fn encode(self) -> ValueView {
        ValueView::Object(present_fields(self.field_list()) + self.extensions)
    }

    /// The decoding of a structural value as this object.
    pub open spec fn decode(v: ValueView) -> Result<Self, DecodeError> {
        match v {
            ValueView::Object(entries) => {
                let http = dec_slot_http(entries);
                let ws = dec_slot_ws(entries);
                let kafka = dec_slot_kafka(entries);
                let anypointmq = dec_slot_anypointmq(entries);
                let amqp = dec_slot_amqp(entries);
                let amqp1 = dec_slot_amqp1(entries);
                let mqtt = dec_slot_mqtt(entries);
                let mqtt5 = dec_slot_mqtt5(entries);
                let nats = dec_slot_nats(entries);
                let jms = dec_slot_jms(entries);
                let sns = dec_slot_sns(entries);
                let sqs = dec_slot_sqs(entries);
                let stomp = dec_slot_stomp(entries);
                let redis = dec_slot_redis(entries);
                let mercure = dec_slot_mercure(entries);
                if http is Err {
                    Err(http->Err_0)
                } else if ws is Err {
                    Err(ws->Err_0)
                } else if kafka is Err {
                    Err(kafka->Err_0)
                } else if anypointmq is Err {
                    Err(anypointmq->Err_0)
                } else if amqp is Err {
                    Err(amqp->Err_0)
                } else if amqp1 is Err {
                    Err(amqp1->Err_0)
                } else if mqtt is Err {
                    Err(mqtt->Err_0)
                } else if mqtt5 is Err {
                    Err(mqtt5->Err_0)
                } else if nats is Err {
                    Err(nats->Err_0)
                } else if jms is Err {
                    Err(jms->Err_0)
                } else if sns is Err {
                    Err(sns->Err_0)
                } else if sqs is Err {
                    Err(sqs->Err_0)
                } else if stomp is Err {
                    Err(stomp->Err_0)
                } else if redis is Err {
                    Err(redis->Err_0)
                } else if mercure is Err {
                    Err(mercure->Err_0)
                } else {
                    Ok(
                        OperationBindingView {
                            http: http->Ok_0,
                            ws: ws->Ok_0,
                            kafka: kafka->Ok_0,
                            anypointmq: anypointmq->Ok_0,
                            amqp: amqp->Ok_0,
                            amqp1: amqp1->Ok_0,
                            mqtt: mqtt->Ok_0,
                            mqtt5: mqtt5->Ok_0,
                            nats: nats->Ok_0,
                            jms: jms->Ok_0,
                            sns: sns->Ok_0,
                            sqs: sqs->Ok_0,
                            stomp: stomp->Ok_0,
                            redis: redis->Ok_0,
                            mercure: mercure->Ok_0,
                            extensions: ext_of(entries, Self::known_keys()),
                        },
                    )
                }
            },
            _ => Err(DecodeError::StructuralMismatch),
        }
    }

    /// Decoding what a well-formed value encodes restores it exactly,
    /// extensions included.
    #[verifier::rlimit(100)]
    pub proof fn lemma_round_trip(m: OperationBindingView)
        requires
            m.wf(),
        ensures
            Self::decode(m.encode()) == Ok::<_, DecodeError>(m),
    {
        reveal(dec_slot_http);
        reveal(dec_slot_ws);
        reveal(dec_slot_kafka);
        reveal(dec_slot_anypointmq);
        reveal(dec_slot_amqp);
        reveal(dec_slot_amqp1);
        reveal(dec_slot_mqtt);
        reveal(dec_slot_mqtt5);
        reveal(dec_slot_nats);
        reveal(dec_slot_jms);
        reveal(dec_slot_sns);
        reveal(dec_slot_sqs);
        reveal(dec_slot_stomp);
        reveal(dec_slot_redis);
        reveal(dec_slot_mercure);
        let fl = m.field_list();
        let keys = OperationBindingView::known_keys();
        lemma_operation_binding_keys_distinct();
        assert(forall|p: int| 0 <= p < fl.len() ==> (#[trigger] fl[p]).0 == keys[p]);
        assert(distinct_keys(fl));
        assert(forall|k: Seq<char>| has_field_key(fl, k) ==> keys.contains(k));
        assert(forall|j: int|
            0 <= j < m.extensions.len() ==> !has_field_key(fl, (#[trigger] m.extensions[j]).0));
        lemma_lookup_encoded(fl, m.extensions, 0);
        lemma_lookup_encoded(fl, m.extensions, 1);
        lemma_lookup_encoded(fl, m.extensions, 2);
        lemma_lookup_encoded(fl, m.extensions, 3);
        lemma_lookup_encoded(fl, m.extensions, 4);
        lemma_lookup_encoded(fl, m.extensions, 5);
        lemma_lookup_encoded(fl, m.extensions, 6);
        lemma_lookup_encoded(fl, m.extensions, 7);
        lemma_lookup_encoded(fl, m.extensions, 8);
        lemma_lookup_encoded(fl, m.extensions, 9);
        lemma_lookup_encoded(fl, m.extensions, 10);
        lemma_lookup_encoded(fl, m.extensions, 11);
        lemma_lookup_encoded(fl, m.extensions, 12);
        lemma_lookup_encoded(fl, m.extensions, 13);
        lemma_lookup_encoded(fl, m.extensions, 14);
        lemma_ext_encoded(fl, m.extensions, keys);
        match m.http {
            None => {},
            Some(x) => {
                HTTPOperationBindingView::lemma_round_trip(x);
            },
        }
        match m.ws {
            None => {},
            Some(x) => {
                WebSocketsOperationBindingView::lemma_round_trip(x);
            },
        }
        match m.kafka {
            None => {},
            Some(x) => {
                KafkaOperationBindingView::lemma_round_trip(x);
            },
        }
        match m.anypointmq {
            None => {},
            Some(x) => {
                AnyPointMQOperationBindingView::lemma_round_trip(x);
            },
        }
        match m.amqp {
            None => {},
            Some(x) => {
                AMQPOperationBindingView::lemma_round_trip(x);
            },
        }
        match m.amqp1 {
            None => {},
            Some(x) => {
                AMQP1OperationBindingView::lemma_round_trip(x);
            },
        }
        match m.mqtt {
            None => {},
            Some(x) => {
                MQTTOperationBindingView::lemma_round_trip(x);
            },
        }
        match m.mqtt5 {
            None => {},
            Some(x) => {
                MQTT5OperationBindingView::lemma_round_trip(x);
            },
        }
        match m.nats {
            None => {},
            Some(x) => {
                NATSOperationBindingView::lemma_round_trip(x);
            },
        }
        match m.jms {
            None => {},
            Some(x) => {
                JMSOperationBindingView::lemma_round_trip(x);
            },
        }
        match m.sns {
            None => {},
            Some(x) => {
                SNSOperationBindingView::lemma_round_trip(x);
            },
        }
        match m.sqs {
            None => {},
            Some(x) => {
                SQSOperationBindingView::lemma_round_trip(x);
            },
        }
        match m.stomp {
            None => {},
            Some(x) => {
                STOMPOperationBindingView::lemma_round_trip(x);
            },
        }
        match m.redis {
            None => {},
            Some(x) => {
                RedisOperationBindingView::lemma_round_trip(x);
            },
        }
        match m.mercure {
            None => {},
            Some(x) => {
                MercureOperationBindingView::lemma_round_trip(x);
            },
        }
        assert(Self::decode(m.encode())->Ok_0 =~= m);
    }
}

impl OperationBinding {
    /// Decodes this object; unrecognized keys are collected into
    /// `extensions` in source order.
    #[verifier::rlimit(100)]
    pub fn decode(v: &Value) -> (r: Result<OperationBinding, DecodeError>)
        ensures
            match r {
                Ok(m) => OperationBindingView::decode(v@) == Ok::<_, DecodeError>(m@),
                Err(e) => OperationBindingView::decode(v@) == Err::<OperationBindingView, _>(e),
            },
    {
        match v {
            Value::Object(entries) => {
                let http = match decode_slot_http(entries) {
                    Ok(x) => x,
                    Err(e) => { return Err(e) },
                };
                let ws = match decode_slot_ws(entries) {
                    Ok(x) => x,
                    Err(e) => { return Err(e) },
                };
                let kafka = match decode_slot_kafka(entries) {
                    Ok(x) => x,
                    Err(e) => { return Err(e) },
                };
                let anypointmq = match decode_slot_anypointmq(entries) {
                    Ok(x) => x,
                    Err(e) => { return Err(e) },
                };
                let amqp = match decode_slot_amqp(entries) {
                    Ok(x) => x,
                    Err(e) => { return Err(e) },
                };
                let amqp1 = match decode_slot_amqp1(entries) {
                    Ok(x) => x,
                    Err(e) => { return Err(e) },
                };
                let mqtt = match decode_slot_mqtt(entries) {
                    Ok(x) => x,
                    Err(e) => { return Err(e) },
                };
                let mqtt5 = match decode_slot_mqtt5(entries) {
                    Ok(x) => x,
                    Err(e) => { return Err(e) },
                };
                let nats = match decode_slot_nats(entries) {
                    Ok(x) => x,
                    Err(e) => { return Err(e) },
                };
                let jms = match decode_slot_jms(entries) {
                    Ok(x) => x,
                    Err(e) => { return Err(e) },
                };
                let sns = match decode_slot_sns(entries) {
                    Ok(x) => x,
                    Err(e) => { return Err(e) },
                };
                let sqs = match decode_slot_sqs(entries) {
                    Ok(x) => x,
                    Err(e) => { return Err(e) },
                };
                let stomp = match decode_slot_stomp(entries) {
                    Ok(x) => x,
                    Err(e) => { return Err(e) },
                };
                let redis = match decode_slot_redis(entries) {
                    Ok(x) => x,
                    Err(e) => { return Err(e) },
                };
                let mercure = match decode_slot_mercure(entries) {
                    Ok(x) => x,
                    Err(e) => { return Err(e) },
                };
                let known: [&str; 15] = [
                    "http", "ws", "kafka", "anypointmq", "amqp", "amqp1", "mqtt", "mqtt5", "nats", "jms", "sns", "sqs", "stomp", "redis", "mercure",
                ];
                let ks: &[&str] = known.as_slice();
                let extensions = collect_extensions(entries, ks);
                proof {
                    assert(key_views(ks@) =~= OperationBindingView::known_keys());
                }
                Ok(
                    OperationBinding {
                        http,
                        ws,
                        kafka,
                        anypointmq,
                        amqp,
                        amqp1,
                        mqtt,
                        mqtt5,
                        nats,
                        jms,
                        sns,
                        sqs,
                        stomp,
                        redis,
                        mercure,
                        extensions,
                    },
                )
            },
            _ => Err(DecodeError::StructuralMismatch),
        }
    }

    /// Emits the first declared slots onto the output object.
    #[verifier::rlimit(100)]
    fn encode_slots_low(&self, out: &mut Vec<(String, Value)>)
        requires
            obj_view(old(out)@) == Seq::<(Seq<char>, ValueView)>::empty(),
        ensures
            obj_view(final(out)@) == present_fields(self@.field_list().subrange(0, 7)),
    {
        let ghost fl = self@.field_list();
        proof {
            assert(fl.subrange(0, 0) =~= Seq::<(Seq<char>, Option<ValueView>)>::empty());
            assert(present_fields(fl.subrange(0, 0)) =~= Seq::<(Seq<char>, ValueView)>::empty());
            assert(fl.subrange(0, 1) =~= fl.subrange(0, 0).push(fl[0]));
            lemma_present_fields_snoc(fl.subrange(0, 0), fl[0]);
        }
        if let Some(m) = &self.http {
            let ev = m.encode();
            push_present(out, "http", ev);
        }
        proof {
            assert(obj_view(out@) =~= present_fields(fl.subrange(0, 1)));
            assert(fl.subrange(0, 2) =~= fl.subrange(0, 1).push(fl[1]));
            lemma_present_fields_snoc(fl.subrange(0, 1), fl[1]);
        }
        if let Some(m) = &self.ws {
            let ev = m.encode();
            push_present(out, "ws", ev);
        }
        proof {
            assert(obj_view(out@) =~= present_fields(fl.subrange(0, 2)));
            assert(fl.subrange(0, 3) =~= fl.subrange(0, 2).push(fl[2]));
            lemma_present_fields_snoc(fl.subrange(0, 2), fl[2]);
        }
        if let Some(m) = &self.kafka {
            let ev = m.encode();
            push_present(out, "kafka", ev);
        }
        proof {
            assert(obj_view(out@) =~= present_fields(fl.subrange(0, 3)));
            assert(fl.subrange(0, 4) =~= fl.subrange(0, 3).push(fl[3]));
            lemma_present_fields_snoc(fl.subrange(0, 3), fl[3]);
        }
        if let Some(m) = &self.anypointmq {
            let ev = m.encode();
            push_present(out, "anypointmq", ev);
        }
        proof {
            assert(obj_view(out@) =~= present_fields(fl.subrange(0, 4)));
            assert(fl.subrange(0, 5) =~= fl.subrange(0, 4).push(fl[4]));
            lemma_present_fields_snoc(fl.subrange(0, 4), fl[4]);
        }
        if let Some(m) = &self.amqp {
            let ev = m.encode();
            push_present(out, "amqp", ev);
        }
        proof {
            assert(obj_view(out@) =~= present_fields(fl.subrange(0, 5)));
            assert(fl.subrange(0, 6) =~= fl.subrange(0, 5).push(fl[5]));
            lemma_present_fields_snoc(fl.subrange(0, 5), fl[5]);
        }
        if let Some(m) = &self.amqp1 {
            let ev = m.encode();
            push_present(out, "amqp1", ev);
        }
        proof {
            assert(obj_view(out@) =~= present_fields(fl.subrange(0, 6)));
            assert(fl.subrange(0, 7) =~= fl.subrange(0, 6).push(fl[6]));
            lemma_present_fields_snoc(fl.subrange(0, 6), fl[6]);
        }
        if let Some(m) = &self.mqtt {
            let ev = m.encode();
            push_present(out, "mqtt", ev);
        }
        proof {
            assert(obj_view(out@) =~= present_fields(fl.subrange(0, 7)));
        }
    }

    /// Emits the remaining declared slots onto the output object.
    #[verifier::rlimit(100)]
    fn encode_slots_high(&self, out: &mut Vec<(String, Value)>)
        requires
            obj_view(old(out)@) == present_fields(self@.field_list().subrange(0, 7)),
        ensures
            obj_view(final(out)@) == present_fields(self@.field_list()),
    {
        let ghost fl = self@.field_list();
        proof {
            assert(fl.subrange(0, 8) =~= fl.subrange(0, 7).push(fl[7]));
            lemma_present_fields_snoc(fl.subrange(0, 7), fl[7]);
        }
        if let Some(m) = &self.mqtt5 {
            let ev = m.encode();
            push_present(out, "mqtt5", ev);
        }
        proof {
            assert(obj_view(out@) =~= present_fields(fl.subrange(0, 8)));
            assert(fl.subrange(0, 9) =~= fl.subrange(0, 8).push(fl[8]));
            lemma_present_fields_snoc(fl.subrange(0, 8), fl[8]);
        }
        if let Some(m) = &self.nats {
            let ev = m.encode();
            push_present(out, "nats", ev);
        }
        proof {
            assert(obj_view(out@) =~= present_fields(fl.subrange(0, 9)));
            assert(fl.subrange(0, 10) =~= fl.subrange(0, 9).push(fl[9]));
            lemma_present_fields_snoc(fl.subrange(0, 9), fl[9]);
        }
        if let Some(m) = &self.jms {
            let ev = m.encode();
            push_present(out, "jms", ev);
        }
        proof {
            assert(obj_view(out@) =~= present_fields(fl.subrange(0, 10)));
            assert(fl.subrange(0, 11) =~= fl.subrange(0, 10).push(fl[10]));
            lemma_present_fields_snoc(fl.subrange(0, 10), fl[10]);
        }
        if let Some(m) = &self.sns {
            let ev = m.encode();
            push_present(out, "sns", ev);
        }
        proof {
            assert(obj_view(out@) =~= present_fields(fl.subrange(0, 11)));
            assert(fl.subrange(0, 12) =~= fl.subrange(0, 11).push(fl[11]));
            lemma_present_fields_snoc(fl.subrange(0, 11), fl[11]);
        }
        if let Some(m) = &self.sqs {
            let ev = m.encode();
            push_present(out, "sqs", ev);
        }
        proof {
            assert(obj_view(out@) =~= present_fields(fl.subrange(0, 12)));
            assert(fl.subrange(0, 13) =~= fl.subrange(0, 12).push(fl[12]));
            lemma_present_fields_snoc(fl.subrange(0, 12), fl[12]);
        }
        if let Some(m) = &self.stomp {
            let ev = m.encode();
            push_present(out, "stomp", ev);
        }
        proof {
            assert(obj_view(out@) =~= present_fields(fl.subrange(0, 13)));
            assert(fl.subrange(0, 14) =~= fl.subrange(0, 13).push(fl[13]));
            lemma_present_fields_snoc(fl.subrange(0, 13), fl[13]);
        }
        if let Some(m) = &self.redis {
            let ev = m.encode();
            push_present(out, "redis", ev);
        }
        proof {
            assert(obj_view(out@) =~= present_fields(fl.subrange(0, 14)));
            assert(fl.subrange(0, 15) =~= fl.subrange(0, 14).push(fl[14]));
            lemma_present_fields_snoc(fl.subrange(0, 14), fl[14]);
        }
        if let Some(m) = &self.mercure {
            let ev = m.encode();
            push_present(out, "mercure", ev);
        }
        proof {
            assert(obj_view(out@) =~= present_fields(fl.subrange(0, 15)));
            assert(fl.subrange(0, 15) =~= fl);
        }
    }

    /// Encodes this object: declared slots, then extensions.
    pub fn encode(&self) -> (r: Value)
        ensures
            r@ == self@.encode(),
    {
        let mut out: Vec<(String, Value)> = Vec::new();
        proof {
            assert(obj_view(out@) =~= Seq::<(Seq<char>, ValueView)>::empty());
        }
        self.encode_slots_low(&mut out);
        self.encode_slots_high(&mut out);
        push_entries(&mut out, &self.extensions);
        Value::Object(out)
    }
}

/// A bindings object whose every key names an unrecognized protocol
/// decodes successfully, keeps those entries as extensions in order, and
/// reproduces them verbatim on encode.
#[verifier::rlimit(100)]
pub proof fn lemma_operation_binding_forward_compat(entries: Seq<(Seq<char>, ValueView)>)
    requires
        forall|j: int|
            0 <= j < entries.len() ==> !OperationBindingView::known_keys().contains(
                (#[trigger] entries[j]).0,
            ),
    ensures
        OperationBindingView::decode(ValueView::Object(entries)) is Ok,
        OperationBindingView::decode(ValueView::Object(entries))->Ok_0.extensions == entries,
        OperationBindingView::decode(ValueView::Object(entries))->Ok_0.encode() == ValueView::Object(
            entries,
        ),
{
    reveal(dec_slot_http);
    reveal(dec_slot_ws);
    reveal(dec_slot_kafka);
    reveal(dec_slot_anypointmq);
    reveal(dec_slot_amqp);
    reveal(dec_slot_amqp1);
    reveal(dec_slot_mqtt);
    reveal(dec_slot_mqtt5);
    reveal(dec_slot_nats);
    reveal(dec_slot_jms);
    reveal(dec_slot_sns);
    reveal(dec_slot_sqs);
    reveal(dec_slot_stomp);
    reveal(dec_slot_redis);
    reveal(dec_slot_mercure);
    let keys = OperationBindingView::known_keys();
    assert(forall|j: int|
        0 <= j < entries.len() ==> (#[trigger] entries[j]).0 != "http"@) by {
        assert(keys[0] == "http"@);
    }
    crate::value::lemma_lookup_absent(entries, "http"@);
    assert(forall|j: int|
        0 <= j < entries.len() ==> (#[trigger] entries[j]).0 != "ws"@) by {
        assert(keys[1] == "ws"@);
    }
    crate::value::lemma_lookup_absent(entries, "ws"@);
    assert(forall|j: int|
        0 <= j < entries.len() ==> (#[trigger] entries[j]).0 != "kafka"@) by {
        assert(keys[2] == "kafka"@);
    }
    crate::value::lemma_lookup_absent(entries, "kafka"@);
    assert(forall|j: int|
        0 <= j < entries.len() ==> (#[trigger] entries[j]).0 != "anypointmq"@) by {
        assert(keys[3] == "anypointmq"@);
    }
    crate::value::lemma_lookup_absent(entries, "anypointmq"@);
    assert(forall|j: int|
        0 <= j < entries.len() ==> (#[trigger] entries[j]).0 != "amqp"@) by {
        assert(keys[4] == "amqp"@);
    }
    crate::value::lemma_lookup_absent(entries, "amqp"@);
    assert(forall|j: int|
        0 <= j < entries.len() ==> (#[trigger] entries[j]).0 != "amqp1"@) by {
        assert(keys[5] == "amqp1"@);
    }
    crate::value::lemma_lookup_absent(entries, "amqp1"@);
    assert(forall|j: int|
        0 <= j < entries.len() ==> (#[trigger] entries[j]).0 != "mqtt"@) by {
        assert(keys[6] == "mqtt"@);
    }
    crate::value::lemma_lookup_absent(entries, "mqtt"@);
    assert(forall|j: int|
        0 <= j < entries.len() ==> (#[trigger] entries[j]).0 != "mqtt5"@) by {
        assert(keys[7] == "mqtt5"@);
    }
    crate::value::lemma_lookup_absent(entries, "mqtt5"@);
    assert(forall|j: int|
        0 <= j < entries.len() ==> (#[trigger] entries[j]).0 != "nats"@) by {
        assert(keys[8] == "nats"@);
    }
    crate::value::lemma_lookup_absent(entries, "nats"@);
    assert(forall|j: int|
        0 <= j < entries.len() ==> (#[trigger] entries[j]).0 != "jms"@) by {
        assert(keys[9] == "jms"@);
    }
    crate::value::lemma_lookup_absent(entries, "jms"@);
    assert(forall|j: int|
        0 <= j < entries.len() ==> (#[trigger] entries[j]).0 != "sns"@) by {
        assert(keys[10] == "sns"@);
    }
    crate::value::lemma_lookup_absent(entries, "sns"@);
    assert(forall|j: int|
        0 <= j < entries.len() ==> (#[trigger] entries[j]).0 != "sqs"@) by {
        assert(keys[11] == "sqs"@);
    }
    crate::value::lemma_lookup_absent(entries, "sqs"@);
    assert(forall|j: int|
        0 <= j < entries.len() ==> (#[trigger] entries[j]).0 != "stomp"@) by {
        assert(keys[12] == "stomp"@);
    }
    crate::value::lemma_lookup_absent(entries, "stomp"@);
    assert(forall|j: int|
        0 <= j < entries.len() ==> (#[trigger] entries[j]).0 != "redis"@) by {
        assert(keys[13] == "redis"@);
    }
    crate::value::lemma_lookup_absent(entries, "redis"@);
    assert(forall|j: int|
        0 <= j < entries.len() ==> (#[trigger] entries[j]).0 != "mercure"@) by {
        assert(keys[14] == "mercure"@);
    }
    crate::value::lemma_lookup_absent(entries, "mercure"@);
    crate::value::lemma_ext_of_none_known(entries, keys);
    let m = OperationBindingView::decode(ValueView::Object(entries))->Ok_0;
    let fl = m.field_list();
    assert(forall|i: int| 0 <= i < fl.len() ==> (#[trigger] fl[i]).1 is None);
    crate::value::lemma_present_fields_all_none(fl);
    assert(present_fields(fl) + m.extensions =~= entries);
}

/// The decoding of a reference-or-operation binding: the reference shape is tried
/// first, always; only a value that does not match it is read inline.
#[verifier::opaque]
pub open spec fn dec_ref_or_operation_binding(v: ValueView) -> Result<RefOrView<OperationBindingView>, DecodeError> {
    match ref_shape(v) {
        Some(loc) => Ok(RefOrView::Ref(loc)),
        None => match OperationBindingView::decode(v) {
            Ok(m) => Ok(RefOrView::Val(m)),
            Err(e) => Err(e),
        },
    }
}

/// The encoding of a reference-or-operation binding: the reference object, or the
/// inline object.
pub open spec fn enc_ref_or_operation_binding(r: RefOrView<OperationBindingView>) -> ValueView {
    match r {
        RefOrView::Ref(loc) => enc_ref(loc),
        RefOrView::Val(m) => m.encode(),
    }
}

/// A reference is well formed outright; an inline value must be well formed
/// and must not encode to the reference shape (such a value would decode as
/// a reference, by the fixed priority).
pub open spec fn wf_ref_or_operation_binding(r: RefOrView<OperationBindingView>) -> bool {
    match r {
        RefOrView::Ref(_) => true,
        RefOrView::Val(m) => m.wf() && ref_shape(m.encode()) is None,
    }
}

/// Decoding what a well-formed reference-or-operation binding encodes restores it.
pub proof fn lemma_ref_or_operation_binding_round_trip(r: RefOrView<OperationBindingView>)
    requires
        wf_ref_or_operation_binding(r),
    ensures
        dec_ref_or_operation_binding(enc_ref_or_operation_binding(r)) == Ok::<_, DecodeError>(r),
{
    reveal(dec_ref_or_operation_binding);
    match r {
        RefOrView::Ref(loc) => {
            lemma_ref_shape_enc(loc);
        },
        RefOrView::Val(m) => {
            OperationBindingView::lemma_round_trip(m);
        },
    }
}

/// Decodes a reference-or-operation binding: the reference shape is tried first,
/// always.
pub fn decode_ref_or_operation_binding(v: &Value) -> (r: Result<RefOr<OperationBinding>, DecodeError>)
    ensures
        match r {
            Ok(x) => dec_ref_or_operation_binding(v@) == Ok::<_, DecodeError>(x@),
            Err(e) => dec_ref_or_operation_binding(v@) == Err::<RefOrView<OperationBindingView>, _>(e),
        },
{
    proof {
        reveal(dec_ref_or_operation_binding);
    }
    match as_reference(v) {
        Some(rf) => Ok(RefOr::Ref(rf)),
        None => match OperationBinding::decode(v) {
            Ok(m) => Ok(RefOr::T(m)),
            Err(e) => Err(e),
        },
    }
}

/// Encodes a reference-or-operation binding.
pub fn encode_ref_or_operation_binding(r: &RefOr<OperationBinding>) -> (res: Value)
    ensures
        res@ == enc_ref_or_operation_binding(r@),
{
    match r {
        RefOr::Ref(rf) => encode_reference(rf),
        RefOr::T(m) => m.encode(),
    }
}

/// Model of a named operation binding mapping, entry by entry.
pub open spec fn operation_binding_map_view(m: Seq<(String, RefOr<OperationBinding>)>) -> Seq<(Seq<char>, RefOrView<OperationBindingView>)>
    decreases m.len(),
{
    if m.len() == 0 {
        Seq::empty()
    } else {
        seq![(m[0].0@, m[0].1@)] + operation_binding_map_view(m.subrange(1, m.len() as int))
    }
}

/// `operation_binding_map_view` maps the entry sequence pointwise.
pub broadcast proof fn lemma_operation_binding_map_view(m: Seq<(String, RefOr<OperationBinding>)>)
    ensures
        (#[trigger] operation_binding_map_view(m)).len() == m.len(),
        forall|i: int|
            0 <= i < m.len() ==> operation_binding_map_view(m)[i] == (m[i].0@, m[i].1@),
    decreases m.len(),
{
    if m.len() > 0 {
        lemma_operation_binding_map_view(m.subrange(1, m.len() as int));
    }
}

/// The encoding of a named operation binding mapping, entry by entry.
pub open spec fn enc_operation_binding_map(m: Seq<(Seq<char>, RefOrView<OperationBindingView>)>) -> Seq<(Seq<char>, ValueView)>
    decreases m.len(),
{
    if m.len() == 0 {
        Seq::empty()
    } else {
        seq![(m[0].0, enc_ref_or_operation_binding(m[0].1))] + enc_operation_binding_map(m.subrange(1, m.len() as int))
    }
}

/// The decoding of a named operation binding mapping, entry by entry.
#[verifier::opaque]
pub open spec fn dec_operation_binding_map_entries(entries: Seq<(Seq<char>, ValueView)>) -> Result<
    Seq<(Seq<char>, RefOrView<OperationBindingView>)>,
    DecodeError,
>
    decreases entries.len(),
{
    if entries.len() == 0 {
        Ok(Seq::empty())
    } else {
        let head = dec_ref_or_operation_binding(entries[0].1);
        let rest = dec_operation_binding_map_entries(entries.subrange(1, entries.len() as int));
        if head is Err {
            Err(head->Err_0)
        } else if rest is Err {
            Err(rest->Err_0)
        } else {
            Ok(seq![(entries[0].0, head->Ok_0)] + rest->Ok_0)
        }
    }
}

/// Every entry of the mapping is well formed.
pub open spec fn wf_operation_binding_map(m: Seq<(Seq<char>, RefOrView<OperationBindingView>)>) -> bool
    decreases m.len(),
{
    m.len() == 0 || (wf_ref_or_operation_binding(m[0].1) && wf_operation_binding_map(m.subrange(1, m.len() as int)))
}

/// Decoding an encoded operation binding mapping restores it.
pub proof fn lemma_operation_binding_map_round_trip(m: Seq<(Seq<char>, RefOrView<OperationBindingView>)>)
    requires
        wf_operation_binding_map(m),
    ensures
        dec_operation_binding_map_entries(enc_operation_binding_map(m)) == Ok::<_, DecodeError>(m),
    decreases m.len(),
{
    reveal(dec_operation_binding_map_entries);
    if m.len() > 0 {
        let rest = m.subrange(1, m.len() as int);
        lemma_ref_or_operation_binding_round_trip(m[0].1);
        lemma_operation_binding_map_round_trip(rest);
        let whole = enc_operation_binding_map(m);
        assert(whole[0] == (m[0].0, enc_ref_or_operation_binding(m[0].1)));
        assert(whole.subrange(1, whole.len() as int) =~= enc_operation_binding_map(rest));
        assert(dec_operation_binding_map_entries(whole)->Ok_0 =~= m);
    } else {
        assert(m =~= Seq::<(Seq<char>, RefOrView<OperationBindingView>)>::empty());
        assert(enc_operation_binding_map(m) =~= Seq::<(Seq<char>, ValueView)>::empty());
        assert(dec_operation_binding_map_entries(enc_operation_binding_map(m))->Ok_0 =~= m);
    }
}

/// Encodes a named operation binding mapping, entry by entry.
pub fn encode_operation_binding_map_entries(m: &Vec<(String, RefOr<OperationBinding>)>) -> (res: Vec<(String, Value)>)
    ensures
        obj_view(res@) == enc_operation_binding_map(operation_binding_map_view(m@)),
{
    let ghost mv = operation_binding_map_view(m@);
    proof {
        lemma_operation_binding_map_view(m@);
    }
    let n = m.len();
    let mut out: Vec<(String, Value)> = Vec::new();
    let mut i: usize = 0;
    proof {
        assert(mv.subrange(0, mv.len() as int) =~= mv);
        assert(obj_view(out@) + enc_operation_binding_map(mv) =~= enc_operation_binding_map(mv));
    }
    while i < n
        invariant
            n == m@.len(),
            0 <= i <= n,
            mv == operation_binding_map_view(m@),
            mv.len() == n,
            forall|j: int| 0 <= j < n ==> operation_binding_map_view(m@)[j] == (m@[j].0@, m@[j].1@),
            enc_operation_binding_map(mv) == obj_view(out@) + enc_operation_binding_map(mv.subrange(i as int, n as int)),
        decreases n - i,
    {
        let ghost prev = out@;
        let k = m[i].0.clone();
        let ev = encode_ref_or_operation_binding(&m[i].1);
        out.push((k, ev));
        proof {
            let tail = mv.subrange(i as int, n as int);
            assert(tail[0] == mv[i as int]);
            assert(tail.subrange(1, tail.len() as int) =~= mv.subrange(i as int + 1, n as int));
            lemma_obj_view(out@);
            lemma_obj_view(prev);
            assert(obj_view(out@) =~= obj_view(prev).push((mv[i as int].0, enc_ref_or_operation_binding(mv[i as int].1))));
            assert(obj_view(prev) + (seq![(mv[i as int].0, enc_ref_or_operation_binding(mv[i as int].1))] + enc_operation_binding_map(
                mv.subrange(i as int + 1, n as int),
            )) =~= obj_view(out@) + enc_operation_binding_map(mv.subrange(i as int + 1, n as int)));
        }
        i += 1;
    }
    proof {
        assert(mv.subrange(n as int, n as int) =~= Seq::<(Seq<char>, RefOrView<OperationBindingView>)>::empty());
        assert(enc_operation_binding_map(mv.subrange(n as int, n as int)) =~= Seq::<(Seq<char>, ValueView)>::empty());
        assert(obj_view(out@) + Seq::<(Seq<char>, ValueView)>::empty() =~= obj_view(out@));
    }
    out
}

/// Decodes the entries of a named operation binding mapping.
pub fn decode_operation_binding_map_entries(entries: &Vec<(String, Value)>) -> (r: Result<Vec<(String, RefOr<OperationBinding>)>, DecodeError>)
    ensures
        match r {
            Ok(x) => dec_operation_binding_map_entries(obj_view(entries@)) == Ok::<_, DecodeError>(operation_binding_map_view(x@)),
            Err(e) => dec_operation_binding_map_entries(obj_view(entries@)) == Err::<Seq<(Seq<char>, RefOrView<OperationBindingView>)>, _>(e),
        },
{
    proof {
        reveal(dec_operation_binding_map_entries);
    }
    let ghost ov = obj_view(entries@);
    proof {
        lemma_obj_view(entries@);
    }
    let n = entries.len();
    let mut out: Vec<(String, RefOr<OperationBinding>)> = Vec::new();
    let mut i: usize = 0;
    proof {
        assert(ov.subrange(0, ov.len() as int) =~= ov);
        assert(operation_binding_map_view(out@) =~= Seq::<(Seq<char>, RefOrView<OperationBindingView>)>::empty());
        lemma_operation_binding_map_view(out@);
    }
    while i < n
        invariant
            n == entries@.len(),
            0 <= i <= n,
            ov == obj_view(entries@),
            ov.len() == n,
            forall|j: int|
                0 <= j < n ==> ov[j] == (entries@[j].0@, crate::value::value_view(
                    entries@[j].1,
                )),
            dec_operation_binding_map_entries(ov) == (match dec_operation_binding_map_entries(ov.subrange(i as int, n as int)) {
                Ok(t) => Ok::<_, DecodeError>(operation_binding_map_view(out@) + t),
                Err(e) => Err(e),
            }),
        decreases n - i,
    {
        let ghost prev = out@;
        let ghost tail = ov.subrange(i as int, n as int);
        proof {
            reveal(dec_operation_binding_map_entries);
            assert(tail[0] == ov[i as int]);
            assert(tail.subrange(1, tail.len() as int) =~= ov.subrange(i as int + 1, n as int));
        }
        let k = entries[i].0.clone();
        match decode_ref_or_operation_binding(&entries[i].1) {
            Ok(x) => {
                out.push((k, x));
                proof {
                    reveal(dec_operation_binding_map_entries);
                    lemma_operation_binding_map_view(out@);
                    lemma_operation_binding_map_view(prev);
                    assert(operation_binding_map_view(out@) =~= operation_binding_map_view(prev).push((ov[i as int].0, x@)));
                    assert(operation_binding_map_view(prev) + (seq![(ov[i as int].0, x@)] + dec_operation_binding_map_entries(
                        ov.subrange(i as int + 1, n as int),
                    )->Ok_0) =~= operation_binding_map_view(out@) + dec_operation_binding_map_entries(
                        ov.subrange(i as int + 1, n as int),
                    )->Ok_0);
                }
            },
            Err(e) => {
                return Err(e);
            },
        }
        i += 1;
    }
    proof {
        reveal(dec_operation_binding_map_entries);
        assert(ov.subrange(n as int, n as int) =~= Seq::<(Seq<char>, ValueView)>::empty());
        assert(operation_binding_map_view(out@) + Seq::<(Seq<char>, RefOrView<OperationBindingView>)>::empty() =~= operation_binding_map_view(out@));
    }
    Ok(out)
}

} // verus!
