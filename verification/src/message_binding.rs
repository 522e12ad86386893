//! Protocol-specific definitions for a message, dispatched by protocol
//! name; unrecognized protocols land in the extension bag.

#![allow(unused_imports)]

use vstd::prelude::*;

use crate::fields::dec_opt_bool;
use crate::fields::dec_opt_i32;
use crate::fields::dec_opt_string;
use crate::fields::dec_req_string;
use crate::fields::dec_vec_string;
use crate::fields::enc_opt_bool;
use crate::fields::enc_opt_i32;
use crate::fields::enc_opt_string;
use crate::fields::enc_string_list;
use crate::fields::encode_string_list;
use crate::fields::get_opt_bool;
use crate::fields::get_opt_i32;
use crate::fields::get_opt_string;
use crate::fields::get_req_string;
use crate::fields::get_vec_string;
use crate::fields::lemma_string_list_round_trip;
use crate::fields::view_opt_string;
use crate::fields::view_vec_string;
use crate::reference::Ref;
use crate::reference::RefOr;
use crate::reference::RefOrView;
use crate::reference::as_reference;
use crate::reference::enc_ref;
use crate::reference::encode_reference;
use crate::reference::lemma_ref_shape_enc;
use crate::reference::ref_shape;
use crate::schema::Schema;
use crate::schema::SchemaView;
use crate::schema::lemma_schema_round_trip;
use crate::schema::schema_view;
use crate::value::lemma_list_view;
use crate::value::lemma_obj_view;
use crate::value::list_view;
use crate::value::DecodeError;
use crate::value::Value;
use crate::value::ValueView;
use crate::value::collect_extensions;
use crate::value::distinct_keys;
use crate::value::ext_of;
use crate::value::find_field;
use crate::value::has_field_key;
use crate::value::key_views;
use crate::value::lemma_ext_encoded;
use crate::value::lemma_lookup_encoded;
use crate::value::lemma_present_fields_snoc;
use crate::value::lookup;
use crate::value::obj_view;
use crate::value::present_fields;
use crate::value::push_entries;
use crate::value::push_present;

verus! {

/// Information about the message representation in HTTP.
#[derive(Debug, PartialEq)]
pub struct HTTPMessageBinding {
    /// A schema containing the definitions for HTTP-specific headers.
    pub headers: Option<Schema>,
    /// The version of this binding. If omitted, "latest" must be
    /// assumed.
    pub binding_version: Option<String>,
    /// Unrecognized sibling fields, preserved in source order.
    pub extensions: Vec<(String, Value)>,
}

/// Model of a [`HTTPMessageBinding`].
#[verifier::ext_equal]
pub struct HTTPMessageBindingView {
    pub headers: Option<SchemaView>,
    pub binding_version: Option<Seq<char>>,
    pub extensions: Seq<(Seq<char>, ValueView)>,
}

impl View for HTTPMessageBinding {
    type V = HTTPMessageBindingView;

    open spec fn view(&self) -> HTTPMessageBindingView {
        HTTPMessageBindingView {
            headers: match self.headers {
                None => None,
                Some(x) => Some(schema_view(x)),
            },
            binding_version: view_opt_string(self.binding_version),
            extensions: obj_view(self.extensions@),
        }
    }
}

/// The declared keys are pairwise distinct.
pub proof fn lemma_http_message_binding_keys_distinct()
    ensures
        forall|p: int, q: int|
            0 <= p < q < HTTPMessageBindingView::known_keys().len() ==> HTTPMessageBindingView::known_keys()[p]
                != HTTPMessageBindingView::known_keys()[q],
{
    reveal_strlit("headers");
    reveal_strlit("bindingVersion");
    assert("headers"@.len() == 7);
    assert("bindingVersion"@.len() == 14);
}

impl HTTPMessageBindingView {
    /// The declared wire keys.
    pub open spec fn known_keys() -> Seq<Seq<char>> {
        seq!["headers"@, "bindingVersion"@]
    }

    /// Declared fields in output order; absent options and empty
    /// sequences are omitted.
    pub open spec fn field_list(self) -> Seq<(Seq<char>, Option<ValueView>)> {
        seq![
            ("headers"@, match self.headers {
                None => None,
                Some(m) => Some(m.encode()),
            }),
            ("bindingVersion"@, enc_opt_string(self.binding_version)),
        ]
    }

    /// No extension key shadows a declared field, and every nested
    /// entity is well formed.
    pub open spec fn wf(self) -> bool {
        &&& forall|j: int|
            0 <= j < self.extensions.len() ==> !Self::known_keys().contains(
                (#[trigger] self.extensions[j]).0,
            )
        &&& match self.headers {
            None => true,
            Some(m) => m.wf(),
        }
    }

    /// The encoding: declared fields first, then the extensions.
    pub open spec fn encode(self) -> ValueView {
        ValueView::Object(present_fields(self.field_list()) + self.extensions)
    }

    /// The decoding of a structural value as this object.
    pub open spec fn decode(v: ValueView) -> Result<Self, DecodeError> {
        match v {
            ValueView::Object(entries) => {
                let headers = match lookup(entries, "headers"@) {
                    None => Ok(None),
                    Some(pv) => match SchemaView::decode(pv) {
                        Ok(m) => Ok(Some(m)),
                        Err(e) => Err(e),
                    },
                };
                let binding_version = dec_opt_string(lookup(entries, "bindingVersion"@));
                if headers is Err {
                    Err(headers->Err_0)
                } else if binding_version is Err {
                    Err(binding_version->Err_0)
                } else {
                    Ok(
                        HTTPMessageBindingView {
                            headers: headers->Ok_0,
                            binding_version: binding_version->Ok_0,
                            extensions: ext_of(entries, Self::known_keys()),
                        },
                    )
                }
            },
            _ => Err(DecodeError::StructuralMismatch),
        }
    }

    /// Decoding what a well-formed value encodes restores it exactly,
    /// extensions included.
    pub proof fn lemma_round_trip(m: HTTPMessageBindingView)
        requires
            m.wf(),
        ensures
            Self::decode(m.encode()) == Ok::<_, DecodeError>(m),
    {
        let fl = m.field_list();
        let keys = HTTPMessageBindingView::known_keys();
        lemma_http_message_binding_keys_distinct();
        assert(forall|p: int| 0 <= p < fl.len() ==> (#[trigger] fl[p]).0 == keys[p]);
        assert(distinct_keys(fl));
        assert(forall|k: Seq<char>| has_field_key(fl, k) ==> keys.contains(k));
        assert(forall|j: int|
            0 <= j < m.extensions.len() ==> !has_field_key(fl, (#[trigger] m.extensions[j]).0));
        lemma_lookup_encoded(fl, m.extensions, 0);
        lemma_lookup_encoded(fl, m.extensions, 1);
        lemma_ext_encoded(fl, m.extensions, keys);
        match m.headers {
            None => {},
            Some(x) => {
                lemma_schema_round_trip(x);
            },
        }
        assert(Self::decode(m.encode())->Ok_0 =~= m);
    }
}

impl HTTPMessageBinding {
    /// Decodes this object; unrecognized keys are collected into
    /// `extensions` in source order.
    pub fn decode(v: &Value) -> (r: Result<HTTPMessageBinding, DecodeError>)
        ensures
            match r {
                Ok(m) => HTTPMessageBindingView::decode(v@) == Ok::<_, DecodeError>(m@),
                Err(e) => HTTPMessageBindingView::decode(v@) == Err::<HTTPMessageBindingView, _>(e),
            },
    {
        match v {
            Value::Object(entries) => {
                let headers = match find_field(entries, "headers") {
                    None => None,
                    Some(x) => match Schema::decode(x) {
                        Ok(m) => Some(m),
                        Err(e) => { return Err(e) },
                    },
                };
                let binding_version = match get_opt_string(find_field(entries, "bindingVersion")) {
                    Ok(x) => x,
                    Err(e) => { return Err(e) },
                };
                let known: [&str; 2] = [
                    "headers", "bindingVersion",
                ];
                let ks: &[&str] = known.as_slice();
                let extensions = collect_extensions(entries, ks);
                proof {
                    assert(key_views(ks@) =~= HTTPMessageBindingView::known_keys());
                }
                Ok(
                    HTTPMessageBinding {
                        headers,
                        binding_version,
                        extensions,
                    },
                )
            },
            _ => Err(DecodeError::StructuralMismatch),
        }
    }

    /// Encodes this object: declared fields, then extensions.
    pub fn encode(&self) -> (r: Value)
        ensures
            r@ == self@.encode(),
    {
        let ghost fl = self@.field_list();
        let mut out: Vec<(String, Value)> = Vec::new();
        proof {
            assert(fl.subrange(0, 0) =~= Seq::<(Seq<char>, Option<ValueView>)>::empty());
            assert(present_fields(fl.subrange(0, 0)) =~= Seq::<(Seq<char>, ValueView)>::empty());
            assert(fl.subrange(0, 1) =~= fl.subrange(0, 0).push(fl[0]));
            lemma_present_fields_snoc(fl.subrange(0, 0), fl[0]);
        }
        if let Some(m) = &self.headers {
            let ev = m.encode();
            push_present(&mut out, "headers", ev);
        }
        proof {
            assert(obj_view(out@) =~= present_fields(fl.subrange(0, 1)));
            assert(fl.subrange(0, 2) =~= fl.subrange(0, 1).push(fl[1]));
            lemma_present_fields_snoc(fl.subrange(0, 1), fl[1]);
        }
        if let Some(x) = &self.binding_version {
            push_present(&mut out, "bindingVersion", Value::Str(x.clone()));
        }
        proof {
            assert(obj_view(out@) =~= present_fields(fl.subrange(0, 2)));
            assert(fl.subrange(0, 2) =~= fl);
        }
        push_entries(&mut out, &self.extensions);
        Value::Object(out)
    }
}

/// Information about the message representation over a WebSockets
/// connection, whose characteristics come from the HTTP handshake.
#[derive(Debug, PartialEq)]
pub struct WebSocketMessageBinding {
    /// The HTTP method to use when establishing the connection. Its
    /// value must be either `GET` or `POST`.
    pub method: Option<String>,
    /// A schema containing the definitions for each query parameter.
    pub query: Option<Schema>,
    /// A schema containing the definitions of the HTTP headers to use
    /// when establishing the connection.
    pub headers: Option<Schema>,
    /// The version of this binding. If omitted, "latest" must be
    /// assumed.
    pub binding_version: Option<String>,
    /// Unrecognized sibling fields, preserved in source order.
    pub extensions: Vec<(String, Value)>,
}

/// Model of a [`WebSocketMessageBinding`].
#[verifier::ext_equal]
pub struct WebSocketMessageBindingView {
    pub method: Option<Seq<char>>,
    pub query: Option<SchemaView>,
    pub headers: Option<SchemaView>,
    pub binding_version: Option<Seq<char>>,
    pub extensions: Seq<(Seq<char>, ValueView)>,
}

impl View for WebSocketMessageBinding {
    type V = WebSocketMessageBindingView;

    open spec fn view(&self) -> WebSocketMessageBindingView {
        WebSocketMessageBindingView {
            method: view_opt_string(self.method),
            query: match self.query {
                None => None,
                Some(x) => Some(schema_view(x)),
            },
            headers: match self.headers {
                None => None,
                Some(x) => Some(schema_view(x)),
            },
            binding_version: view_opt_string(self.binding_version),
            extensions: obj_view(self.extensions@),
        }
    }
}

/// The declared keys are pairwise distinct.
pub proof fn lemma_web_socket_message_binding_keys_distinct()
    ensures
        forall|p: int, q: int|
            0 <= p < q < WebSocketMessageBindingView::known_keys().len() ==> WebSocketMessageBindingView::known_keys()[p]
                != WebSocketMessageBindingView::known_keys()[q],
{
    reveal_strlit("method");
    reveal_strlit("query");
    reveal_strlit("headers");
    reveal_strlit("bindingVersion");
    assert("method"@.len() == 6);
    assert("query"@.len() == 5);
    assert("headers"@.len() == 7);
    assert("bindingVersion"@.len() == 14);
}

impl WebSocketMessageBindingView {
    /// The declared wire keys.
    pub open spec fn known_keys() -> Seq<Seq<char>> {
        seq!["method"@, "query"@, "headers"@, "bindingVersion"@]
    }

    /// Declared fields in output order; absent options and empty
    /// sequences are omitted.
    pub open spec fn field_list(self) -> Seq<(Seq<char>, Option<ValueView>)> {
        seq![
            ("method"@, enc_opt_string(self.method)),
            ("query"@, match self.query {
                None => None,
                Some(m) => Some(m.encode()),
            }),
            ("headers"@, match self.headers {
                None => None,
                Some(m) => Some(m.encode()),
            }),
            ("bindingVersion"@, enc_opt_string(self.binding_version)),
        ]
    }

    /// No extension key shadows a declared field, and every nested
    /// entity is well formed.
    pub open spec fn wf(self) -> bool {
        &&& forall|j: int|
            0 <= j < self.extensions.len() ==> !Self::known_keys().contains(
                (#[trigger] self.extensions[j]).0,
            )
        &&& match self.query {
            None => true,
            Some(m) => m.wf(),
        }
        &&& match self.headers {
            None => true,
            Some(m) => m.wf(),
        }
    }

    /// The encoding: declared fields first, then the extensions.
    pub open spec fn encode(self) -> ValueView {
        ValueView::Object(present_fields(self.field_list()) + self.extensions)
    }

    /// The decoding of a structural value as this object.
    pub open spec fn decode(v: ValueView) -> Result<Self, DecodeError> {
        match v {
            ValueView::Object(entries) => {
                let method = dec_opt_string(lookup(entries, "method"@));
                let query = match lookup(entries, "query"@) {
                    None => Ok(None),
                    Some(pv) => match SchemaView::decode(pv) {
                        Ok(m) => Ok(Some(m)),
                        Err(e) => Err(e),
                    },
                };
                let headers = match lookup(entries, "headers"@) {
                    None => Ok(None),
                    Some(pv) => match SchemaView::decode(pv) {
                        Ok(m) => Ok(Some(m)),
                        Err(e) => Err(e),
                    },
                };
                let binding_version = dec_opt_string(lookup(entries, "bindingVersion"@));
                if method is Err {
                    Err(method->Err_0)
                } else if query is Err {
                    Err(query->Err_0)
                } else if headers is Err {
                    Err(headers->Err_0)
                } else if binding_version is Err {
                    Err(binding_version->Err_0)
                } else {
                    Ok(
                        WebSocketMessageBindingView {
                            method: method->Ok_0,
                            query: query->Ok_0,
                            headers: headers->Ok_0,
                            binding_version: binding_version->Ok_0,
                            extensions: ext_of(entries, Self::known_keys()),
                        },
                    )
                }
            },
            _ => Err(DecodeError::StructuralMismatch),
        }
    }

    /// Decoding what a well-formed value encodes restores it exactly,
    /// extensions included.
    #[verifier::rlimit(100)]
    pub proof fn lemma_round_trip(m: WebSocketMessageBindingView)
        requires
            m.wf(),
        ensures
            Self::decode(m.encode()) == Ok::<_, DecodeError>(m),
    {
        let fl = m.field_list();
        let keys = WebSocketMessageBindingView::known_keys();
        lemma_web_socket_message_binding_keys_distinct();
        assert(forall|p: int| 0 <= p < fl.len() ==> (#[trigger] fl[p]).0 == keys[p]);
        assert(distinct_keys(fl));
        assert(forall|k: Seq<char>| has_field_key(fl, k) ==> keys.contains(k));
        assert(forall|j: int|
            0 <= j < m.extensions.len() ==> !has_field_key(fl, (#[trigger] m.extensions[j]).0));
        lemma_lookup_encoded(fl, m.extensions, 0);
        lemma_lookup_encoded(fl, m.extensions, 1);
        lemma_lookup_encoded(fl, m.extensions, 2);
        lemma_lookup_encoded(fl, m.extensions, 3);
        lemma_ext_encoded(fl, m.extensions, keys);
        match m.query {
            None => {},
            Some(x) => {
                lemma_schema_round_trip(x);
            },
        }
        match m.headers {
            None => {},
            Some(x) => {
                lemma_schema_round_trip(x);
            },
        }
        assert(Self::decode(m.encode())->Ok_0 =~= m);
    }
}

impl WebSocketMessageBinding {
    /// Decodes this object; unrecognized keys are collected into
    /// `extensions` in source order.
    #[verifier::rlimit(100)]
    pub fn decode(v: &Value) -> (r: Result<WebSocketMessageBinding, DecodeError>)
        ensures
            match r {
                Ok(m) => WebSocketMessageBindingView::decode(v@) == Ok::<_, DecodeError>(m@),
                Err(e) => WebSocketMessageBindingView::decode(v@) == Err::<WebSocketMessageBindingView, _>(e),
            },
    {
        match v {
            Value::Object(entries) => {
                let method = match get_opt_string(find_field(entries, "method")) {
                    Ok(x) => x,
                    Err(e) => { return Err(e) },
                };
                let query = match find_field(entries, "query") {
                    None => None,
                    Some(x) => match Schema::decode(x) {
                        Ok(m) => Some(m),
                        Err(e) => { return Err(e) },
                    },
                };
                let headers = match find_field(entries, "headers") {
                    None => None,
                    Some(x) => match Schema::decode(x) {
                        Ok(m) => Some(m),
                        Err(e) => { return Err(e) },
                    },
                };
                let binding_version = match get_opt_string(find_field(entries, "bindingVersion")) {
                    Ok(x) => x,
                    Err(e) => { return Err(e) },
                };
                let known: [&str; 4] = [
                    "method", "query", "headers", "bindingVersion",
                ];
                let ks: &[&str] = known.as_slice();
                let extensions = collect_extensions(entries, ks);
                proof {
                    assert(key_views(ks@) =~= WebSocketMessageBindingView::known_keys());
                }
                Ok(
                    WebSocketMessageBinding {
                        method,
                        query,
                        headers,
                        binding_version,
                        extensions,
                    },
                )
            },
            _ => Err(DecodeError::StructuralMismatch),
        }
    }

    /// Encodes this object: declared fields, then extensions.
    #[verifier::rlimit(100)]
    pub fn encode(&self) -> (r: Value)
        ensures
            r@ == self@.encode(),
    {
        let ghost fl = self@.field_list();
        let mut out: Vec<(String, Value)> = Vec::new();
        proof {
            assert(fl.subrange(0, 0) =~= Seq::<(Seq<char>, Option<ValueView>)>::empty());
            assert(present_fields(fl.subrange(0, 0)) =~= Seq::<(Seq<char>, ValueView)>::empty());
            assert(fl.subrange(0, 1) =~= fl.subrange(0, 0).push(fl[0]));
            lemma_present_fields_snoc(fl.subrange(0, 0), fl[0]);
        }
        if let Some(x) = &self.method {
            push_present(&mut out, "method", Value::Str(x.clone()));
        }
        proof {
            assert(obj_view(out@) =~= present_fields(fl.subrange(0, 1)));
            assert(fl.subrange(0, 2) =~= fl.subrange(0, 1).push(fl[1]));
            lemma_present_fields_snoc(fl.subrange(0, 1), fl[1]);
        }
        if let Some(m) = &self.query {
            let ev = m.encode();
            push_present(&mut out, "query", ev);
        }
        proof {
            assert(obj_view(out@) =~= present_fields(fl.subrange(0, 2)));
            assert(fl.subrange(0, 3) =~= fl.subrange(0, 2).push(fl[2]));
            lemma_present_fields_snoc(fl.subrange(0, 2), fl[2]);
        }
        if let Some(m) = &self.headers {
            let ev = m.encode();
            push_present(&mut out, "headers", ev);
        }
        proof {
            assert(obj_view(out@) =~= present_fields(fl.subrange(0, 3)));
            assert(fl.subrange(0, 4) =~= fl.subrange(0, 3).push(fl[3]));
            lemma_present_fields_snoc(fl.subrange(0, 3), fl[3]);
        }
        if let Some(x) = &self.binding_version {
            push_present(&mut out, "bindingVersion", Value::Str(x.clone()));
        }
        proof {
            assert(obj_view(out@) =~= present_fields(fl.subrange(0, 4)));
            assert(fl.subrange(0, 4) =~= fl);
        }
        push_entries(&mut out, &self.extensions);
        Value::Object(out)
    }
}

/// Information about the message representation in Kafka.
#[derive(Debug, PartialEq)]
pub struct KafkaMessageBinding {
    /// The message key.
    pub key: Option<Schema>,
    /// The version of this binding. If omitted, "latest" must be
    /// assumed.
    pub binding_version: Option<String>,
    /// Unrecognized sibling fields, preserved in source order.
    pub extensions: Vec<(String, Value)>,
}

/// Model of a [`KafkaMessageBinding`].
#[verifier::ext_equal]
pub struct KafkaMessageBindingView {
    pub key: Option<SchemaView>,
    pub binding_version: Option<Seq<char>>,
    pub extensions: Seq<(Seq<char>, ValueView)>,
}

impl View for KafkaMessageBinding {
    type V = KafkaMessageBindingView;

    open spec fn view(&self) -> KafkaMessageBindingView {
        KafkaMessageBindingView {
            key: match self.key {
                None => None,
                Some(x) => Some(schema_view(x)),
            },
            binding_version: view_opt_string(self.binding_version),
            extensions: obj_view(self.extensions@),
        }
    }
}

/// The declared keys are pairwise distinct.
pub proof fn lemma_kafka_message_binding_keys_distinct()
    ensures
        forall|p: int, q: int|
            0 <= p < q < KafkaMessageBindingView::known_keys().len() ==> KafkaMessageBindingView::known_keys()[p]
                != KafkaMessageBindingView::known_keys()[q],
{
    reveal_strlit("key");
    reveal_strlit("bindingVersion");
    assert("key"@.len() == 3);
    assert("bindingVersion"@.len() == 14);
}

impl KafkaMessageBindingView {
    /// The declared wire keys.
    pub open spec fn known_keys() -> Seq<Seq<char>> {
        seq!["key"@, "bindingVersion"@]
    }

    /// Declared fields in output order; absent options and empty
    /// sequences are omitted.
    pub open spec fn field_list(self) -> Seq<(Seq<char>, Option<ValueView>)> {
        seq![
            ("key"@, match self.key {
                None => None,
                Some(m) => Some(m.encode()),
            }),
            ("bindingVersion"@, enc_opt_string(self.binding_version)),
        ]
    }

    /// No extension key shadows a declared field, and every nested
    /// entity is well formed.
    pub open spec fn wf(self) -> bool {
        &&& forall|j: int|
            0 <= j < self.extensions.len() ==> !Self::known_keys().contains(
                (#[trigger] self.extensions[j]).0,
            )
        &&& match self.key {
            None => true,
            Some(m) => m.wf(),
        }
    }

    /// The encoding: declared fields first, then the extensions.
    pub open spec fn encode(self) -> ValueView {
        ValueView::Object(present_fields(self.field_list()) + self.extensions)
    }

    /// The decoding of a structural value as this object.
    pub open spec fn decode(v: ValueView) -> Result<Self, DecodeError> {
        match v {
            ValueView::Object(entries) => {
                let key = match lookup(entries, "key"@) {
                    None => Ok(None),
                    Some(pv) => match SchemaView::decode(pv) {
                        Ok(m) => Ok(Some(m)),
                        Err(e) => Err(e),
                    },
                };
                let binding_version = dec_opt_string(lookup(entries, "bindingVersion"@));
                if key is Err {
                    Err(key->Err_0)
                } else if binding_version is Err {
                    Err(binding_version->Err_0)
                } else {
                    Ok(
                        KafkaMessageBindingView {
                            key: key->Ok_0,
                            binding_version: binding_version->Ok_0,
                            extensions: ext_of(entries, Self::known_keys()),
                        },
                    )
                }
            },
            _ => Err(DecodeError::StructuralMismatch),
        }
    }

    /// Decoding what a well-formed value encodes restores it exactly,
    /// extensions included.
    pub proof fn lemma_round_trip(m: KafkaMessageBindingView)
        requires
            m.wf(),
        ensures
            Self::decode(m.encode()) == Ok::<_, DecodeError>(m),
    {
        let fl = m.field_list();
        let keys = KafkaMessageBindingView::known_keys();
        lemma_kafka_message_binding_keys_distinct();
        assert(forall|p: int| 0 <= p < fl.len() ==> (#[trigger] fl[p]).0 == keys[p]);
        assert(distinct_keys(fl));
        assert(forall|k: Seq<char>| has_field_key(fl, k) ==> keys.contains(k));
        assert(forall|j: int|
            0 <= j < m.extensions.len() ==> !has_field_key(fl, (#[trigger] m.extensions[j]).0));
        lemma_lookup_encoded(fl, m.extensions, 0);
        lemma_lookup_encoded(fl, m.extensions, 1);
        lemma_ext_encoded(fl, m.extensions, keys);
        match m.key {
            None => {},
            Some(x) => {
                lemma_schema_round_trip(x);
            },
        }
        assert(Self::decode(m.encode())->Ok_0 =~= m);
    }
}

impl KafkaMessageBinding {
    /// Decodes this object; unrecognized keys are collected into
    /// `extensions` in source order.
    pub fn decode(v: &Value) -> (r: Result<KafkaMessageBinding, DecodeError>)
        ensures
            match r {
                Ok(m) => KafkaMessageBindingView::decode(v@) == Ok::<_, DecodeError>(m@),
                Err(e) => KafkaMessageBindingView::decode(v@) == Err::<KafkaMessageBindingView, _>(e),
            },
    {
        match v {
            Value::Object(entries) => {
                let key = match find_field(entries, "key") {
                    None => None,
                    Some(x) => match Schema::decode(x) {
                        Ok(m) => Some(m),
                        Err(e) => { return Err(e) },
                    },
                };
                let binding_version = match get_opt_string(find_field(entries, "bindingVersion")) {
                    Ok(x) => x,
                    Err(e) => { return Err(e) },
                };
                let known: [&str; 2] = [
                    "key", "bindingVersion",
                ];
                let ks: &[&str] = known.as_slice();
                let extensions = collect_extensions(entries, ks);
                proof {
                    assert(key_views(ks@) =~= KafkaMessageBindingView::known_keys());
                }
                Ok(
                    KafkaMessageBinding {
                        key,
                        binding_version,
                        extensions,
                    },
                )
            },
            _ => Err(DecodeError::StructuralMismatch),
        }
    }

    /// Encodes this object: declared fields, then extensions.
    pub fn encode(&self) -> (r: Value)
        ensures
            r@ == self@.encode(),
    {
        let ghost fl = self@.field_list();
        let mut out: Vec<(String, Value)> = Vec::new();
        proof {
            assert(fl.subrange(0, 0) =~= Seq::<(Seq<char>, Option<ValueView>)>::empty());
            assert(present_fields(fl.subrange(0, 0)) =~= Seq::<(Seq<char>, ValueView)>::empty());
            assert(fl.subrange(0, 1) =~= fl.subrange(0, 0).push(fl[0]));
            lemma_present_fields_snoc(fl.subrange(0, 0), fl[0]);
        }
        if let Some(m) = &self.key {
            let ev = m.encode();
            push_present(&mut out, "key", ev);
        }
        proof {
            assert(obj_view(out@) =~= present_fields(fl.subrange(0, 1)));
            assert(fl.subrange(0, 2) =~= fl.subrange(0, 1).push(fl[1]));
            lemma_present_fields_snoc(fl.subrange(0, 1), fl[1]);
        }
        if let Some(x) = &self.binding_version {
            push_present(&mut out, "bindingVersion", Value::Str(x.clone()));
        }
        proof {
            assert(obj_view(out@) =~= present_fields(fl.subrange(0, 2)));
            assert(fl.subrange(0, 2) =~= fl);
        }
        push_entries(&mut out, &self.extensions);
        Value::Object(out)
    }
}

/// Information about the message representation in AMQP.
#[derive(Debug, PartialEq)]
pub struct AMQPMessageBinding {
    /// A MIME encoding for the message content.
    pub content_encoding: Option<String>,
    /// Application-specific message type.
    pub message_type: Option<String>,
    /// The version of this binding. If omitted, "latest" must be
    /// assumed.
    pub binding_version: Option<String>,
    /// Unrecognized sibling fields, preserved in source order.
    pub extensions: Vec<(String, Value)>,
}

/// Model of a [`AMQPMessageBinding`].
#[verifier::ext_equal]
pub struct AMQPMessageBindingView {
    pub content_encoding: Option<Seq<char>>,
    pub message_type: Option<Seq<char>>,
    pub binding_version: Option<Seq<char>>,
    pub extensions: Seq<(Seq<char>, ValueView)>,
}

impl View for AMQPMessageBinding {
    type V = AMQPMessageBindingView;

    open spec fn view(&self) -> AMQPMessageBindingView {
        AMQPMessageBindingView {
            content_encoding: view_opt_string(self.content_encoding),
            message_type: view_opt_string(self.message_type),
            binding_version: view_opt_string(self.binding_version),
            extensions: obj_view(self.extensions@),
        }
    }
}

/// The declared keys are pairwise distinct.
pub proof fn lemma_amqp_message_binding_keys_distinct()
    ensures
        forall|p: int, q: int|
            0 <= p < q < AMQPMessageBindingView::known_keys().len() ==> AMQPMessageBindingView::known_keys()[p]
                != AMQPMessageBindingView::known_keys()[q],
{
    reveal_strlit("contentEncoding");
    reveal_strlit("messageType");
    reveal_strlit("bindingVersion");
    assert("contentEncoding"@.len() == 15);
    assert("messageType"@.len() == 11);
    assert("bindingVersion"@.len() == 14);
}

impl AMQPMessageBindingView {
    /// The declared wire keys.
    pub open spec fn known_keys() -> Seq<Seq<char>> {
        seq!["contentEncoding"@, "messageType"@, "bindingVersion"@]
    }

    /// Declared fields in output order; absent options and empty
    /// sequences are omitted.
    pub open spec fn field_list(self) -> Seq<(Seq<char>, Option<ValueView>)> {
        seq![
            ("contentEncoding"@, enc_opt_string(self.content_encoding)),
            ("messageType"@, enc_opt_string(self.message_type)),
            ("bindingVersion"@, enc_opt_string(self.binding_version)),
        ]
    }

    /// No extension key shadows a declared field, and every nested
    /// entity is well formed.
    pub open spec fn wf(self) -> bool {
        &&& forall|j: int|
            0 <= j < self.extensions.len() ==> !Self::known_keys().contains(
                (#[trigger] self.extensions[j]).0,
            )
    }

    /// The encoding: declared fields first, then the extensions.
    pub open spec fn encode(self) -> ValueView {
        ValueView::Object(present_fields(self.field_list()) + self.extensions)
    }

    /// The decoding of a structural value as this object.
    pub open spec fn decode(v: ValueView) -> Result<Self, DecodeError> {
        match v {
            ValueView::Object(entries) => {
                let content_encoding = dec_opt_string(lookup(entries, "contentEncoding"@));
                let message_type = dec_opt_string(lookup(entries, "messageType"@));
                let binding_version = dec_opt_string(lookup(entries, "bindingVersion"@));
                if content_encoding is Err {
                    Err(content_encoding->Err_0)
                } else if message_type is Err {
                    Err(message_type->Err_0)
                } else if binding_version is Err {
                    Err(binding_version->Err_0)
                } else {
                    Ok(
                        AMQPMessageBindingView {
                            content_encoding: content_encoding->Ok_0,
                            message_type: message_type->Ok_0,
                            binding_version: binding_version->Ok_0,
                            extensions: ext_of(entries, Self::known_keys()),
                        },
                    )
                }
            },
            _ => Err(DecodeError::StructuralMismatch),
        }
    }

    /// Decoding what a well-formed value encodes restores it exactly,
    /// extensions included.
    pub proof fn lemma_round_trip(m: AMQPMessageBindingView)
        requires
            m.wf(),
        ensures
            Self::decode(m.encode()) == Ok::<_, DecodeError>(m),
    {
        let fl = m.field_list();
        let keys = AMQPMessageBindingView::known_keys();
        lemma_amqp_message_binding_keys_distinct();
        assert(forall|p: int| 0 <= p < fl.len() ==> (#[trigger] fl[p]).0 == keys[p]);
        assert(distinct_keys(fl));
        assert(forall|k: Seq<char>| has_field_key(fl, k) ==> keys.contains(k));
        assert(forall|j: int|
            0 <= j < m.extensions.len() ==> !has_field_key(fl, (#[trigger] m.extensions[j]).0));
        lemma_lookup_encoded(fl, m.extensions, 0);
        lemma_lookup_encoded(fl, m.extensions, 1);
        lemma_lookup_encoded(fl, m.extensions, 2);
        lemma_ext_encoded(fl, m.extensions, keys);
        assert(Self::decode(m.encode())->Ok_0 =~= m);
    }
}

impl AMQPMessageBinding {
    /// Decodes this object; unrecognized keys are collected into
    /// `extensions` in source order.
    pub fn decode(v: &Value) -> (r: Result<AMQPMessageBinding, DecodeError>)
        ensures
            match r {
                Ok(m) => AMQPMessageBindingView::decode(v@) == Ok::<_, DecodeError>(m@),
                Err(e) => AMQPMessageBindingView::decode(v@) == Err::<AMQPMessageBindingView, _>(e),
            },
    {
        match v {
            Value::Object(entries) => {
                let content_encoding = match get_opt_string(find_field(entries, "contentEncoding")) {
                    Ok(x) => x,
                    Err(e) => { return Err(e) },
                };
                let message_type = match get_opt_string(find_field(entries, "messageType")) {
                    Ok(x) => x,
                    Err(e) => { return Err(e) },
                };
                let binding_version = match get_opt_string(find_field(entries, "bindingVersion")) {
                    Ok(x) => x,
                    Err(e) => { return Err(e) },
                };
                let known: [&str; 3] = [
                    "contentEncoding", "messageType", "bindingVersion",
                ];
                let ks: &[&str] = known.as_slice();
                let extensions = collect_extensions(entries, ks);
                proof {
                    assert(key_views(ks@) =~= AMQPMessageBindingView::known_keys());
                }
                Ok(
                    AMQPMessageBinding {
                        content_encoding,
                        message_type,
                        binding_version,
                        extensions,
                    },
                )
            },
            _ => Err(DecodeError::StructuralMismatch),
        }
    }

    /// Encodes this object: declared fields, then extensions.
    pub fn encode(&self) -> (r: Value)
        ensures
            r@ == self@.encode(),
    {
        let ghost fl = self@.field_list();
        let mut out: Vec<(String, Value)> = Vec::new();
        proof {
            assert(fl.subrange(0, 0) =~= Seq::<(Seq<char>, Option<ValueView>)>::empty());
            assert(present_fields(fl.subrange(0, 0)) =~= Seq::<(Seq<char>, ValueView)>::empty());
            assert(fl.subrange(0, 1) =~= fl.subrange(0, 0).push(fl[0]));
            lemma_present_fields_snoc(fl.subrange(0, 0), fl[0]);
        }
        if let Some(x) = &self.content_encoding {
            push_present(&mut out, "contentEncoding", Value::Str(x.clone()));
        }
        proof {
            assert(obj_view(out@) =~= present_fields(fl.subrange(0, 1)));
            assert(fl.subrange(0, 2) =~= fl.subrange(0, 1).push(fl[1]));
            lemma_present_fields_snoc(fl.subrange(0, 1), fl[1]);
        }
        if let Some(x) = &self.message_type {
            push_present(&mut out, "messageType", Value::Str(x.clone()));
        }
        proof {
            assert(obj_view(out@) =~= present_fields(fl.subrange(0, 2)));
            assert(fl.subrange(0, 3) =~= fl.subrange(0, 2).push(fl[2]));
            lemma_present_fields_snoc(fl.subrange(0, 2), fl[2]);
        }
        if let Some(x) = &self.binding_version {
            push_present(&mut out, "bindingVersion", Value::Str(x.clone()));
        }
        proof {
            assert(obj_view(out@) =~= present_fields(fl.subrange(0, 3)));
            assert(fl.subrange(0, 3) =~= fl);
        }
        push_entries(&mut out, &self.extensions);
        Value::Object(out)
    }
}

/// This object must not contain any properties. Its name is reserved for
/// future use.
#[derive(Debug, PartialEq)]
pub struct AMQP1MessageBinding {}

/// Model of a [`AMQP1MessageBinding`].
#[verifier::ext_equal]
pub struct AMQP1MessageBindingView {}

impl View for AMQP1MessageBinding {
    type V = AMQP1MessageBindingView;

    open spec fn view(&self) -> AMQP1MessageBindingView {
        AMQP1MessageBindingView {  }
    }
}

impl AMQP1MessageBindingView {
    /// Any object decodes to this empty binding; its fields, if any,
    /// are not kept.
    pub open spec fn decode(v: ValueView) -> Result<AMQP1MessageBindingView, DecodeError> {
        match v {
            ValueView::Object(entries) => Ok(AMQP1MessageBindingView {  }),
            _ => Err(DecodeError::StructuralMismatch),
        }
    }

    /// The encoding: an empty object.
    pub open spec fn encode(self) -> ValueView {
        ValueView::Object(Seq::<(Seq<char>, ValueView)>::empty())
    }

    /// There is nothing to be malformed.
    pub open spec fn wf(self) -> bool {
        true
    }

    /// Decoding what this object encodes restores it.
    pub proof fn lemma_round_trip(m: AMQP1MessageBindingView)
        requires
            m.wf(),
        ensures
            Self::decode(m.encode()) == Ok::<_, DecodeError>(m),
    {
    }
}

impl AMQP1MessageBinding {
    /// Decodes this object, accepting any object shape.
    pub fn decode(v: &Value) -> (r: Result<AMQP1MessageBinding, DecodeError>)
        ensures
            match r {
                Ok(m) => AMQP1MessageBindingView::decode(v@) == Ok::<_, DecodeError>(m@),
                Err(e) => AMQP1MessageBindingView::decode(v@) == Err::<AMQP1MessageBindingView, _>(e),
            },
    {
        match v {
            Value::Object(_) => Ok(AMQP1MessageBinding {  }),
            _ => Err(DecodeError::StructuralMismatch),
        }
    }

    /// Encodes this object: always the empty object.
    pub fn encode(&self) -> (r: Value)
        ensures
            r@ == self@.encode(),
    {
        let out: Vec<(String, Value)> = Vec::new();
        proof {
            assert(obj_view(out@) =~= Seq::<(Seq<char>, ValueView)>::empty());
        }
        Value::Object(out)
    }
}

/// Information about the message representation in MQTT.
#[derive(Debug, PartialEq)]
pub struct MQTTMessageBinding {
    /// The version of this binding. If omitted, "latest" must be
    /// assumed.
    pub binding_version: Option<String>,
    /// Unrecognized sibling fields, preserved in source order.
    pub extensions: Vec<(String, Value)>,
}

/// Model of a [`MQTTMessageBinding`].
#[verifier::ext_equal]
pub struct MQTTMessageBindingView {
    pub binding_version: Option<Seq<char>>,
    pub extensions: Seq<(Seq<char>, ValueView)>,
}

impl View for MQTTMessageBinding {
    type V = MQTTMessageBindingView;

    open spec fn view(&self) -> MQTTMessageBindingView {
        MQTTMessageBindingView {
            binding_version: view_opt_string(self.binding_version),
            extensions: obj_view(self.extensions@),
        }
    }
}

/// The declared keys are pairwise distinct.
pub proof fn lemma_mqtt_message_binding_keys_distinct()
    ensures
        forall|p: int, q: int|
            0 <= p < q < MQTTMessageBindingView::known_keys().len() ==> MQTTMessageBindingView::known_keys()[p]
                != MQTTMessageBindingView::known_keys()[q],
{
    reveal_strlit("bindingVersion");
    assert("bindingVersion"@.len() == 14);
}

impl MQTTMessageBindingView {
    /// The declared wire keys.
    pub open spec fn known_keys() -> Seq<Seq<char>> {
        seq!["bindingVersion"@]
    }

    /// Declared fields in output order; absent options and empty
    /// sequences are omitted.
    pub open spec fn field_list(self) -> Seq<(Seq<char>, Option<ValueView>)> {
        seq![
            ("bindingVersion"@, enc_opt_string(self.binding_version)),
        ]
    }

    /// No extension key shadows a declared field, and every nested
    /// entity is well formed.
    pub open spec fn wf(self) -> bool {
        &&& forall|j: int|
            0 <= j < self.extensions.len() ==> !Self::known_keys().contains(
                (#[trigger] self.extensions[j]).0,
            )
    }

    /// The encoding: declared fields first, then the extensions.
    pub open spec fn encode(self) -> ValueView {
        ValueView::Object(present_fields(self.field_list()) + self.extensions)
    }

    /// The decoding of a structural value as this object.
    pub open spec fn decode(v: ValueView) -> Result<Self, DecodeError> {
        match v {
            ValueView::Object(entries) => {
                let binding_version = dec_opt_string(lookup(entries, "bindingVersion"@));
                if binding_version is Err {
                    Err(binding_version->Err_0)
                } else {
                    Ok(
                        MQTTMessageBindingView {
                            binding_version: binding_version->Ok_0,
                            extensions: ext_of(entries, Self::known_keys()),
                        },
                    )
                }
            },
            _ => Err(DecodeError::StructuralMismatch),
        }
    }

    /// Decoding what a well-formed value encodes restores it exactly,
    /// extensions included.
    pub proof fn lemma_round_trip(m: MQTTMessageBindingView)
        requires
            m.wf(),
        ensures
            Self::decode(m.encode()) == Ok::<_, DecodeError>(m),
    {
        let fl = m.field_list();
        let keys = MQTTMessageBindingView::known_keys();
        lemma_mqtt_message_binding_keys_distinct();
        assert(forall|p: int| 0 <= p < fl.len() ==> (#[trigger] fl[p]).0 == keys[p]);
        assert(distinct_keys(fl));
        assert(forall|k: Seq<char>| has_field_key(fl, k) ==> keys.contains(k));
        assert(forall|j: int|
            0 <= j < m.extensions.len() ==> !has_field_key(fl, (#[trigger] m.extensions[j]).0));
        lemma_lookup_encoded(fl, m.extensions, 0);
        lemma_ext_encoded(fl, m.extensions, keys);
        assert(Self::decode(m.encode())->Ok_0 =~= m);
    }
}

impl MQTTMessageBinding {
    /// Decodes this object; unrecognized keys are collected into
    /// `extensions` in source order.
    pub fn decode(v: &Value) -> (r: Result<MQTTMessageBinding, DecodeError>)
        ensures
            match r {
                Ok(m) => MQTTMessageBindingView::decode(v@) == Ok::<_, DecodeError>(m@),
                Err(e) => MQTTMessageBindingView::decode(v@) == Err::<MQTTMessageBindingView, _>(e),
            },
    {
        match v {
            Value::Object(entries) => {
                let binding_version = match get_opt_string(find_field(entries, "bindingVersion")) {
                    Ok(x) => x,
                    Err(e) => { return Err(e) },
                };
                let known: [&str; 1] = [
                    "bindingVersion",
                ];
                let ks: &[&str] = known.as_slice();
                let extensions = collect_extensions(entries, ks);
                proof {
                    assert(key_views(ks@) =~= MQTTMessageBindingView::known_keys());
                }
                Ok(
                    MQTTMessageBinding {
                        binding_version,
                        extensions,
                    },
                )
            },
            _ => Err(DecodeError::StructuralMismatch),
        }
    }

    /// Encodes this object: declared fields, then extensions.
    pub fn encode(&self) -> (r: Value)
        ensures
            r@ == self@.encode(),
    {
        let ghost fl = self@.field_list();
        let mut out: Vec<(String, Value)> = Vec::new();
        proof {
            assert(fl.subrange(0, 0) =~= Seq::<(Seq<char>, Option<ValueView>)>::empty());
            assert(present_fields(fl.subrange(0, 0)) =~= Seq::<(Seq<char>, ValueView)>::empty());
            assert(fl.subrange(0, 1) =~= fl.subrange(0, 0).push(fl[0]));
            lemma_present_fields_snoc(fl.subrange(0, 0), fl[0]);
        }
        if let Some(x) = &self.binding_version {
            push_present(&mut out, "bindingVersion", Value::Str(x.clone()));
        }
        proof {
            assert(obj_view(out@) =~= present_fields(fl.subrange(0, 1)));
            assert(fl.subrange(0, 1) =~= fl);
        }
        push_entries(&mut out, &self.extensions);
        Value::Object(out)
    }
}

/// This object must not contain any properties. Its name is reserved for
/// future use.
#[derive(Debug, PartialEq)]
pub struct MQTT5MessageBinding {}

/// Model of a [`MQTT5MessageBinding`].
#[verifier::ext_equal]
pub struct MQTT5MessageBindingView {}

impl View for MQTT5MessageBinding {
    type V = MQTT5MessageBindingView;

    open spec fn view(&self) -> MQTT5MessageBindingView {
        MQTT5MessageBindingView {  }
    }
}

impl MQTT5MessageBindingView {
    /// Any object decodes to this empty binding; its fields, if any,
    /// are not kept.
    pub open spec fn decode(v: ValueView) -> Result<MQTT5MessageBindingView, DecodeError> {
        match v {
            ValueView::Object(entries) => Ok(MQTT5MessageBindingView {  }),
            _ => Err(DecodeError::StructuralMismatch),
        }
    }

    /// The encoding: an empty object.
    pub open spec fn encode(self) -> ValueView {
        ValueView::Object(Seq::<(Seq<char>, ValueView)>::empty())
    }

    /// There is nothing to be malformed.
    pub open spec fn wf(self) -> bool {
        true
    }

    /// Decoding what this object encodes restores it.
    pub proof fn lemma_round_trip(m: MQTT5MessageBindingView)
        requires
            m.wf(),
        ensures
            Self::decode(m.encode()) == Ok::<_, DecodeError>(m),
    {
    }
}

impl MQTT5MessageBinding {
    /// Decodes this object, accepting any object shape.
    pub fn decode(v: &Value) -> (r: Result<MQTT5MessageBinding, DecodeError>)
        ensures
            match r {
                Ok(m) => MQTT5MessageBindingView::decode(v@) == Ok::<_, DecodeError>(m@),
                Err(e) => MQTT5MessageBindingView::decode(v@) == Err::<MQTT5MessageBindingView, _>(e),
            },
    {
        match v {
            Value::Object(_) => Ok(MQTT5MessageBinding {  }),
            _ => Err(DecodeError::StructuralMismatch),
        }
    }

    /// Encodes this object: always the empty object.
    pub fn encode(&self) -> (r: Value)
        ensures
            r@ == self@.encode(),
    {
        let out: Vec<(String, Value)> = Vec::new();
        proof {
            assert(obj_view(out@) =~= Seq::<(Seq<char>, ValueView)>::empty());
        }
        Value::Object(out)
    }
}

/// This object must not contain any properties. Its name is reserved for
/// future use.
#[derive(Debug, PartialEq)]
pub struct NATSMessageBinding {}

/// Model of a [`NATSMessageBinding`].
#[verifier::ext_equal]
pub struct NATSMessageBindingView {}

impl View for NATSMessageBinding {
    type V = NATSMessageBindingView;

    open spec fn view(&self) -> NATSMessageBindingView {
        NATSMessageBindingView {  }
    }
}

impl NATSMessageBindingView {
    /// Any object decodes to this empty binding; its fields, if any,
    /// are not kept.
    pub open spec fn decode(v: ValueView) -> Result<NATSMessageBindingView, DecodeError> {
        match v {
            ValueView::Object(entries) => Ok(NATSMessageBindingView {  }),
            _ => Err(DecodeError::StructuralMismatch),
        }
    }

    /// The encoding: an empty object.
    pub open spec fn encode(self) -> ValueView {
        ValueView::Object(Seq::<(Seq<char>, ValueView)>::empty())
    }

    /// There is nothing to be malformed.
    pub open spec fn wf(self) -> bool {
        true
    }

    /// Decoding what this object encodes restores it.
    pub proof fn lemma_round_trip(m: NATSMessageBindingView)
        requires
            m.wf(),
        ensures
            Self::decode(m.encode()) == Ok::<_, DecodeError>(m),
    {
    }
}

impl NATSMessageBinding {
    /// Decodes this object, accepting any object shape.
    pub fn decode(v: &Value) -> (r: Result<NATSMessageBinding, DecodeError>)
        ensures
            match r {
                Ok(m) => NATSMessageBindingView::decode(v@) == Ok::<_, DecodeError>(m@),
                Err(e) => NATSMessageBindingView::decode(v@) == Err::<NATSMessageBindingView, _>(e),
            },
    {
        match v {
            Value::Object(_) => Ok(NATSMessageBinding {  }),
            _ => Err(DecodeError::StructuralMismatch),
        }
    }

    /// Encodes this object: always the empty object.
    pub fn encode(&self) -> (r: Value)
        ensures
            r@ == self@.encode(),
    {
        let out: Vec<(String, Value)> = Vec::new();
        proof {
            assert(obj_view(out@) =~= Seq::<(Seq<char>, ValueView)>::empty());
        }
        Value::Object(out)
    }
}

/// This object must not contain any properties. Its name is reserved for
/// future use.
#[derive(Debug, PartialEq)]
pub struct JMSMessageBinding {}

/// Model of a [`JMSMessageBinding`].
#[verifier::ext_equal]
pub struct JMSMessageBindingView {}

impl View for JMSMessageBinding {
    type V = JMSMessageBindingView;

    open spec fn view(&self) -> JMSMessageBindingView {
        JMSMessageBindingView {  }
    }
}

impl JMSMessageBindingView {
    /// Any object decodes to this empty binding; its fields, if any,
    /// are not kept.
    pub open spec fn decode(v: ValueView) -> Result<JMSMessageBindingView, DecodeError> {
        match v {
            ValueView::Object(entries) => Ok(JMSMessageBindingView {  }),
            _ => Err(DecodeError::StructuralMismatch),
        }
    }

    /// The encoding: an empty object.
    pub open spec fn encode(self) -> ValueView {
        ValueView::Object(Seq::<(Seq<char>, ValueView)>::empty())
    }

    /// There is nothing to be malformed.
    pub open spec fn wf(self) -> bool {
        true
    }

    /// Decoding what this object encodes restores it.
    pub proof fn lemma_round_trip(m: JMSMessageBindingView)
        requires
            m.wf(),
        ensures
            Self::decode(m.encode()) == Ok::<_, DecodeError>(m),
    {
    }
}

impl JMSMessageBinding {
    /// Decodes this object, accepting any object shape.
    pub fn decode(v: &Value) -> (r: Result<JMSMessageBinding, DecodeError>)
        ensures
            match r {
                Ok(m) => JMSMessageBindingView::decode(v@) == Ok::<_, DecodeError>(m@),
                Err(e) => JMSMessageBindingView::decode(v@) == Err::<JMSMessageBindingView, _>(e),
            },
    {
        match v {
            Value::Object(_) => Ok(JMSMessageBinding {  }),
            _ => Err(DecodeError::StructuralMismatch),
        }
    }

    /// Encodes this object: always the empty object.
    pub fn encode(&self) -> (r: Value)
        ensures
            r@ == self@.encode(),
    {
        let out: Vec<(String, Value)> = Vec::new();
        proof {
            assert(obj_view(out@) =~= Seq::<(Seq<char>, ValueView)>::empty());
        }
        Value::Object(out)
    }
}

/// This object must not contain any properties. Its name is reserved for
/// future use.
#[derive(Debug, PartialEq)]
pub struct SNSMessageBinding {}

/// Model of a [`SNSMessageBinding`].
#[verifier::ext_equal]
pub struct SNSMessageBindingView {}

impl View for SNSMessageBinding {
    type V = SNSMessageBindingView;

    open spec fn view(&self) -> SNSMessageBindingView {
        SNSMessageBindingView {  }
    }
}

impl SNSMessageBindingView {
    /// Any object decodes to this empty binding; its fields, if any,
    /// are not kept.
    pub open spec fn decode(v: ValueView) -> Result<SNSMessageBindingView, DecodeError> {
        match v {
            ValueView::Object(entries) => Ok(SNSMessageBindingView {  }),
            _ => Err(DecodeError::StructuralMismatch),
        }
    }

    /// The encoding: an empty object.
    pub open spec fn encode(self) -> ValueView {
        ValueView::Object(Seq::<(Seq<char>, ValueView)>::empty())
    }

    /// There is nothing to be malformed.
    pub open spec fn wf(self) -> bool {
        true
    }

    /// Decoding what this object encodes restores it.
    pub proof fn lemma_round_trip(m: SNSMessageBindingView)
        requires
            m.wf(),
        ensures
            Self::decode(m.encode()) == Ok::<_, DecodeError>(m),
    {
    }
}

impl SNSMessageBinding {
    /// Decodes this object, accepting any object shape.
    pub fn decode(v: &Value) -> (r: Result<SNSMessageBinding, DecodeError>)
        ensures
            match r {
                Ok(m) => SNSMessageBindingView::decode(v@) == Ok::<_, DecodeError>(m@),
                Err(e) => SNSMessageBindingView::decode(v@) == Err::<SNSMessageBindingView, _>(e),
            },
    {
        match v {
            Value::Object(_) => Ok(SNSMessageBinding {  }),
            _ => Err(DecodeError::StructuralMismatch),
        }
    }

    /// Encodes this object: always the empty object.
    pub fn encode(&self) -> (r: Value)
        ensures
            r@ == self@.encode(),
    {
        let out: Vec<(String, Value)> = Vec::new();
        proof {
            assert(obj_view(out@) =~= Seq::<(Seq<char>, ValueView)>::empty());
        }
        Value::Object(out)
    }
}

/// This object must not contain any properties. Its name is reserved for
/// future use.
#[derive(Debug, PartialEq)]
pub struct SQSMessageBinding {}

/// Model of a [`SQSMessageBinding`].
#[verifier::ext_equal]
pub struct SQSMessageBindingView {}

impl View for SQSMessageBinding {
    type V = SQSMessageBindingView;

    open spec fn view(&self) -> SQSMessageBindingView {
        SQSMessageBindingView {  }
    }
}

impl SQSMessageBindingView {
    /// Any object decodes to this empty binding; its fields, if any,
    /// are not kept.
    pub open spec fn decode(v: ValueView) -> Result<SQSMessageBindingView, DecodeError> {
        match v {
            ValueView::Object(entries) => Ok(SQSMessageBindingView {  }),
            _ => Err(DecodeError::StructuralMismatch),
        }
    }

    /// The encoding: an empty object.
    pub open spec fn encode(self) -> ValueView {
        ValueView::Object(Seq::<(Seq<char>, ValueView)>::empty())
    }

    /// There is nothing to be malformed.
    pub open spec fn wf(self) -> bool {
        true
    }

    /// Decoding what this object encodes restores it.
    pub proof fn lemma_round_trip(m: SQSMessageBindingView)
        requires
            m.wf(),
        ensures
            Self::decode(m.encode()) == Ok::<_, DecodeError>(m),
    {
    }
}

impl SQSMessageBinding {
    /// Decodes this object, accepting any object shape.
    pub fn decode(v: &Value) -> (r: Result<SQSMessageBinding, DecodeError>)
        ensures
            match r {
                Ok(m) => SQSMessageBindingView::decode(v@) == Ok::<_, DecodeError>(m@),
                Err(e) => SQSMessageBindingView::decode(v@) == Err::<SQSMessageBindingView, _>(e),
            },
    {
        match v {
            Value::Object(_) => Ok(SQSMessageBinding {  }),
            _ => Err(DecodeError::StructuralMismatch),
        }
    }

    /// Encodes this object: always the empty object.
    pub fn encode(&self) -> (r: Value)
        ensures
            r@ == self@.encode(),
    {
        let out: Vec<(String, Value)> = Vec::new();
        proof {
            assert(obj_view(out@) =~= Seq::<(Seq<char>, ValueView)>::empty());
        }
        Value::Object(out)
    }
}

/// This object must not contain any properties. Its name is reserved for
/// future use.
#[derive(Debug, PartialEq)]
pub struct STOMPMessageBinding {}

/// Model of a [`STOMPMessageBinding`].
#[verifier::ext_equal]
pub struct STOMPMessageBindingView {}

impl View for STOMPMessageBinding {
    type V = STOMPMessageBindingView;

    open spec fn view(&self) -> STOMPMessageBindingView {
        STOMPMessageBindingView {  }
    }
}

impl STOMPMessageBindingView {
    /// Any object decodes to this empty binding; its fields, if any,
    /// are not kept.
    pub open spec fn decode(v: ValueView) -> Result<STOMPMessageBindingView, DecodeError> {
        match v {
            ValueView::Object(entries) => Ok(STOMPMessageBindingView {  }),
            _ => Err(DecodeError::StructuralMismatch),
        }
    }

    /// The encoding: an empty object.
    pub open spec fn encode(self) -> ValueView {
        ValueView::Object(Seq::<(Seq<char>, ValueView)>::empty())
    }

    /// There is nothing to be malformed.
    pub open spec fn wf(self) -> bool {
        true
    }

    /// Decoding what this object encodes restores it.
    pub proof fn lemma_round_trip(m: STOMPMessageBindingView)
        requires
            m.wf(),
        ensures
            Self::decode(m.encode()) == Ok::<_, DecodeError>(m),
    {
    }
}

impl STOMPMessageBinding {
    /// Decodes this object, accepting any object shape.
    pub fn decode(v: &Value) -> (r: Result<STOMPMessageBinding, DecodeError>)
        ensures
            match r {
                Ok(m) => STOMPMessageBindingView::decode(v@) == Ok::<_, DecodeError>(m@),
                Err(e) => STOMPMessageBindingView::decode(v@) == Err::<STOMPMessageBindingView, _>(e),
            },
    {
        match v {
            Value::Object(_) => Ok(STOMPMessageBinding {  }),
            _ => Err(DecodeError::StructuralMismatch),
        }
    }

    /// Encodes this object: always the empty object.
    pub fn encode(&self) -> (r: Value)
        ensures
            r@ == self@.encode(),
    {
        let out: Vec<(String, Value)> = Vec::new();
        proof {
            assert(obj_view(out@) =~= Seq::<(Seq<char>, ValueView)>::empty());
        }
        Value::Object(out)
    }
}

/// This object must not contain any properties. Its name is reserved for
/// future use.
#[derive(Debug, PartialEq)]
pub struct RedisMessageBinding {}

/// Model of a [`RedisMessageBinding`].
#[verifier::ext_equal]
pub struct RedisMessageBindingView {}

impl View for RedisMessageBinding {
    type V = RedisMessageBindingView;

    open spec fn view(&self) -> RedisMessageBindingView {
        RedisMessageBindingView {  }
    }
}

impl RedisMessageBindingView {
    /// Any object decodes to this empty binding; its fields, if any,
    /// are not kept.
    pub open spec fn decode(v: ValueView) -> Result<RedisMessageBindingView, DecodeError> {
        match v {
            ValueView::Object(entries) => Ok(RedisMessageBindingView {  }),
            _ => Err(DecodeError::StructuralMismatch),
        }
    }

    /// The encoding: an empty object.
    pub open spec fn encode(self) -> ValueView {
        ValueView::Object(Seq::<(Seq<char>, ValueView)>::empty())
    }

    /// There is nothing to be malformed.
    pub open spec fn wf(self) -> bool {
        true
    }

    /// Decoding what this object encodes restores it.
    pub proof fn lemma_round_trip(m: RedisMessageBindingView)
        requires
            m.wf(),
        ensures
            Self::decode(m.encode()) == Ok::<_, DecodeError>(m),
    {
    }
}

impl RedisMessageBinding {
    /// Decodes this object, accepting any object shape.
    pub fn decode(v: &Value) -> (r: Result<RedisMessageBinding, DecodeError>)
        ensures
            match r {
                Ok(m) => RedisMessageBindingView::decode(v@) == Ok::<_, DecodeError>(m@),
                Err(e) => RedisMessageBindingView::decode(v@) == Err::<RedisMessageBindingView, _>(e),
            },
    {
        match v {
            Value::Object(_) => Ok(RedisMessageBinding {  }),
            _ => Err(DecodeError::StructuralMismatch),
        }
    }

    /// Encodes this object: always the empty object.
    pub fn encode(&self) -> (r: Value)
        ensures
            r@ == self@.encode(),
    {
        let out: Vec<(String, Value)> = Vec::new();
        proof {
            assert(obj_view(out@) =~= Seq::<(Seq<char>, ValueView)>::empty());
        }
        Value::Object(out)
    }
}

/// This object must not contain any properties. Its name is reserved for
/// future use.
#[derive(Debug, PartialEq)]
pub struct MercureMessageBinding {}

/// Model of a [`MercureMessageBinding`].
#[verifier::ext_equal]
pub struct MercureMessageBindingView {}

impl View for MercureMessageBinding {
    type V = MercureMessageBindingView;

    open spec fn view(&self) -> MercureMessageBindingView {
        MercureMessageBindingView {  }
    }
}

impl MercureMessageBindingView {
    /// Any object decodes to this empty binding; its fields, if any,
    /// are not kept.
    pub open spec fn decode(v: ValueView) -> Result<MercureMessageBindingView, DecodeError> {
        match v {
            ValueView::Object(entries) => Ok(MercureMessageBindingView {  }),
            _ => Err(DecodeError::StructuralMismatch),
        }
    }

    /// The encoding: an empty object.
    pub open spec fn encode(self) -> ValueView {
        ValueView::Object(Seq::<(Seq<char>, ValueView)>::empty())
    }

    /// There is nothing to be malformed.
    pub open spec fn wf(self) -> bool {
        true
    }

    /// Decoding what this object encodes restores it.
    pub proof fn lemma_round_trip(m: MercureMessageBindingView)
        requires
            m.wf(),
        ensures
            Self::decode(m.encode()) == Ok::<_, DecodeError>(m),
    {
    }
}

impl MercureMessageBinding {
    /// Decodes this object, accepting any object shape.
    pub fn decode(v: &Value) -> (r: Result<MercureMessageBinding, DecodeError>)
        ensures
            match r {
                Ok(m) => MercureMessageBindingView::decode(v@) == Ok::<_, DecodeError>(m@),
                Err(e) => MercureMessageBindingView::decode(v@) == Err::<MercureMessageBindingView, _>(e),
            },
    {
        match v {
            Value::Object(_) => Ok(MercureMessageBinding {  }),
            _ => Err(DecodeError::StructuralMismatch),
        }
    }

    /// Encodes this object: always the empty object.
    pub fn encode(&self) -> (r: Value)
        ensures
            r@ == self@.encode(),
    {
        let out: Vec<(String, Value)> = Vec::new();
        proof {
            assert(obj_view(out@) =~= Seq::<(Seq<char>, ValueView)>::empty());
        }
        Value::Object(out)
    }
}

/// Information about the message representation in IBM MQ.
#[derive(Debug, PartialEq)]
pub struct IBMMQMessageBinding {
    /// The type of the message.
    pub typ: Option<String>,
    /// Unrecognized sibling fields, preserved in source order.
    pub extensions: Vec<(String, Value)>,
}

/// Model of a [`IBMMQMessageBinding`].
#[verifier::ext_equal]
pub struct IBMMQMessageBindingView {
    pub typ: Option<Seq<char>>,
    pub extensions: Seq<(Seq<char>, ValueView)>,
}

impl View for IBMMQMessageBinding {
    type V = IBMMQMessageBindingView;

    open spec fn view(&self) -> IBMMQMessageBindingView {
        IBMMQMessageBindingView {
            typ: view_opt_string(self.typ),
            extensions: obj_view(self.extensions@),
        }
    }
}

/// The declared keys are pairwise distinct.
pub proof fn lemma_ibmmq_message_binding_keys_distinct()
    ensures
        forall|p: int, q: int|
            0 <= p < q < IBMMQMessageBindingView::known_keys().len() ==> IBMMQMessageBindingView::known_keys()[p]
                != IBMMQMessageBindingView::known_keys()[q],
{
    reveal_strlit("type");
    assert("type"@.len() == 4);
}

impl IBMMQMessageBindingView {
    /// The declared wire keys.
    pub open spec fn known_keys() -> Seq<Seq<char>> {
        seq!["type"@]
    }

    /// Declared fields in output order; absent options and empty
    /// sequences are omitted.
    pub open spec fn field_list(self) -> Seq<(Seq<char>, Option<ValueView>)> {
        seq![
            ("type"@, enc_opt_string(self.typ)),
        ]
    }

    /// No extension key shadows a declared field, and every nested
    /// entity is well formed.
    pub open spec fn wf(self) -> bool {
        &&& forall|j: int|
            0 <= j < self.extensions.len() ==> !Self::known_keys().contains(
                (#[trigger] self.extensions[j]).0,
            )
    }

    /// The encoding: declared fields first, then the extensions.
    pub open spec fn encode(self) -> ValueView {
        ValueView::Object(present_fields(self.field_list()) + self.extensions)
    }

    /// The decoding of a structural value as this object.
    pub open spec fn decode(v: ValueView) -> Result<Self, DecodeError> {
        match v {
            ValueView::Object(entries) => {
                let typ = dec_opt_string(lookup(entries, "type"@));
                if typ is Err {
                    Err(typ->Err_0)
                } else {
                    Ok(
                        IBMMQMessageBindingView {
                            typ: typ->Ok_0,
                            extensions: ext_of(entries, Self::known_keys()),
                        },
                    )
                }
            },
            _ => Err(DecodeError::StructuralMismatch),
        }
    }

    /// Decoding what a well-formed value encodes restores it exactly,
    /// extensions included.
    pub proof fn lemma_round_trip(m: IBMMQMessageBindingView)
        requires
            m.wf(),
        ensures
            Self::decode(m.encode()) == Ok::<_, DecodeError>(m),
    {
        let fl = m.field_list();
        let keys = IBMMQMessageBindingView::known_keys();
        lemma_ibmmq_message_binding_keys_distinct();
        assert(forall|p: int| 0 <= p < fl.len() ==> (#[trigger] fl[p]).0 == keys[p]);
        assert(distinct_keys(fl));
        assert(forall|k: Seq<char>| has_field_key(fl, k) ==> keys.contains(k));
        assert(forall|j: int|
            0 <= j < m.extensions.len() ==> !has_field_key(fl, (#[trigger] m.extensions[j]).0));
        lemma_lookup_encoded(fl, m.extensions, 0);
        lemma_ext_encoded(fl, m.extensions, keys);
        assert(Self::decode(m.encode())->Ok_0 =~= m);
    }
}

impl IBMMQMessageBinding {
    /// Decodes this object; unrecognized keys are collected into
    /// `extensions` in source order.
    pub fn decode(v: &Value) -> (r: Result<IBMMQMessageBinding, DecodeError>)
        ensures
            match r {
                Ok(m) => IBMMQMessageBindingView::decode(v@) == Ok::<_, DecodeError>(m@),
                Err(e) => IBMMQMessageBindingView::decode(v@) == Err::<IBMMQMessageBindingView, _>(e),
            },
    {
        match v {
            Value::Object(entries) => {
                let typ = match get_opt_string(find_field(entries, "type")) {
                    Ok(x) => x,
                    Err(e) => { return Err(e) },
                };
                let known: [&str; 1] = [
                    "type",
                ];
                let ks: &[&str] = known.as_slice();
                let extensions = collect_extensions(entries, ks);
                proof {
                    assert(key_views(ks@) =~= IBMMQMessageBindingView::known_keys());
                }
                Ok(
                    IBMMQMessageBinding {
                        typ,
                        extensions,
                    },
                )
            },
            _ => Err(DecodeError::StructuralMismatch),
        }
    }

    /// Encodes this object: declared fields, then extensions.
    pub fn encode(&self) -> (r: Value)
        ensures
            r@ == self@.encode(),
    {
        let ghost fl = self@.field_list();
        let mut out: Vec<(String, Value)> = Vec::new();
        proof {
            assert(fl.subrange(0, 0) =~= Seq::<(Seq<char>, Option<ValueView>)>::empty());
            assert(present_fields(fl.subrange(0, 0)) =~= Seq::<(Seq<char>, ValueView)>::empty());
            assert(fl.subrange(0, 1) =~= fl.subrange(0, 0).push(fl[0]));
            lemma_present_fields_snoc(fl.subrange(0, 0), fl[0]);
        }
        if let Some(x) = &self.typ {
            push_present(&mut out, "type", Value::Str(x.clone()));
        }
        proof {
            assert(obj_view(out@) =~= present_fields(fl.subrange(0, 1)));
            assert(fl.subrange(0, 1) =~= fl);
        }
        push_entries(&mut out, &self.extensions);
        Value::Object(out)
    }
}

/// Protocol-specific definitions for a message: one optional slot per
/// known protocol, plus the extensions for protocols outside the known
/// set.
#[derive(Debug, PartialEq)]
pub struct MessageBinding {
    /// Protocol-specific information for an HTTP message, that is, a
    /// request or a response.
    pub http: Option<HTTPMessageBinding>,
    /// Protocol-specific information for a WebSockets message.
    pub ws: Option<WebSocketMessageBinding>,
    /// Protocol-specific information for a Kafka message.
    pub kafka: Option<KafkaMessageBinding>,
    /// Protocol-specific information for an AMQP 0-9-1 message.
    pub amqp: Option<AMQPMessageBinding>,
    /// Protocol-specific information for an AMQP 1.0 message.
    pub qmqp1: Option<AMQP1MessageBinding>,
    /// Protocol-specific information for an MQTT message.
    pub mqtt: Option<MQTTMessageBinding>,
    /// Protocol-specific information for an MQTT 5 message.
    pub mqtt5: Option<MQTT5MessageBinding>,
    /// Protocol-specific information for a NATS message.
    pub nats: Option<NATSMessageBinding>,
    /// Protocol-specific information for a JMS message.
    pub jms: Option<JMSMessageBinding>,
    /// Protocol-specific information for an SNS message.
    pub sns: Option<SNSMessageBinding>,
    /// Protocol-specific information for an SQS message.
    pub sqs: Option<SQSMessageBinding>,
    /// Protocol-specific information for a STOMP message.
    pub stomp: Option<STOMPMessageBinding>,
    /// Protocol-specific information for a Redis message.
    pub redis: Option<RedisMessageBinding>,
    /// Protocol-specific information for a Mercure message.
    pub mercure: Option<MercureMessageBinding>,
    /// Protocol-specific information for an IBM MQ message.
    pub ibmmq: Option<IBMMQMessageBinding>,
    /// Unrecognized sibling fields, preserved in source order.
    pub extensions: Vec<(String, Value)>,
}

/// Model of a [`MessageBinding`].
#[verifier::ext_equal]
pub struct MessageBindingView {
    pub http: Option<HTTPMessageBindingView>,
    pub ws: Option<WebSocketMessageBindingView>,
    pub kafka: Option<KafkaMessageBindingView>,
    pub amqp: Option<AMQPMessageBindingView>,
    pub qmqp1: Option<AMQP1MessageBindingView>,
    pub mqtt: Option<MQTTMessageBindingView>,
    pub mqtt5: Option<MQTT5MessageBindingView>,
    pub nats: Option<NATSMessageBindingView>,
    pub jms: Option<JMSMessageBindingView>,
    pub sns: Option<SNSMessageBindingView>,
    pub sqs: Option<SQSMessageBindingView>,
    pub stomp: Option<STOMPMessageBindingView>,
    pub redis: Option<RedisMessageBindingView>,
    pub mercure: Option<MercureMessageBindingView>,
    pub ibmmq: Option<IBMMQMessageBindingView>,
    pub extensions: Seq<(Seq<char>, ValueView)>,
}

impl View for MessageBinding {
    type V = MessageBindingView;

    open spec fn view(&self) -> MessageBindingView {
        MessageBindingView {
            http: match self.http {
                None => None,
                Some(x) => Some(x@),
            },
            ws: match self.ws {
                None => None,
                Some(x) => Some(x@),
            },
            kafka: match self.kafka {
                None => None,
                Some(x) => Some(x@),
            },
            amqp: match self.amqp {
                None => None,
                Some(x) => Some(x@),
            },
            qmqp1: match self.qmqp1 {
                None => None,
                Some(x) => Some(x@),
            },
            mqtt: match self.mqtt {
                None => None,
                Some(x) => Some(x@),
            },
            mqtt5: match self.mqtt5 {
                None => None,
                Some(x) => Some(x@),
            },
            nats: match self.nats {
                None => None,
                Some(x) => Some(x@),
            },
            jms: match self.jms {
                None => None,
                Some(x) => Some(x@),
            },
            sns: match self.sns {
                None => None,
                Some(x) => Some(x@),
            },
            sqs: match self.sqs {
                None => None,
                Some(x) => Some(x@),
            },
            stomp: match self.stomp {
                None => None,
                Some(x) => Some(x@),
            },
            redis: match self.redis {
                None => None,
                Some(x) => Some(x@),
            },
            mercure: match self.mercure {
                None => None,
                Some(x) => Some(x@),
            },
            ibmmq: match self.ibmmq {
                None => None,
                Some(x) => Some(x@),
            },
            extensions: obj_view(self.extensions@),
        }
    }
}

/// The declared keys are pairwise distinct.
pub proof fn lemma_message_binding_keys_distinct()
    ensures
        forall|p: int, q: int|
            0 <= p < q < MessageBindingView::known_keys().len() ==> MessageBindingView::known_keys()[p]
                != MessageBindingView::known_keys()[q],
{
    reveal_strlit("http");
    reveal_strlit("ws");
    reveal_strlit("kafka");
    reveal_strlit("amqp");
    reveal_strlit("qmqp1");
    reveal_strlit("mqtt");
    reveal_strlit("mqtt5");
    reveal_strlit("nats");
    reveal_strlit("jms");
    reveal_strlit("sns");
    reveal_strlit("sqs");
    reveal_strlit("stomp");
    reveal_strlit("redis");
    reveal_strlit("mercure");
    reveal_strlit("ibmmq");
    assert("http"@.len() == 4);
    assert("ws"@.len() == 2);
    assert("kafka"@.len() == 5);
    assert("amqp"@.len() == 4);
    assert("qmqp1"@.len() == 5);
    assert("mqtt"@.len() == 4);
    assert("mqtt5"@.len() == 5);
    assert("nats"@.len() == 4);
    assert("jms"@.len() == 3);
    assert("sns"@.len() == 3);
    assert("sqs"@.len() == 3);
    assert("stomp"@.len() == 5);
    assert("redis"@.len() == 5);
    assert("mercure"@.len() == 7);
    assert("ibmmq"@.len() == 5);
    assert("http"@[0] == 'h');
    assert("amqp"@[0] == 'a');
    assert("mqtt"@[0] == 'm');
    assert("nats"@[0] == 'n');
    assert("kafka"@[0] == 'k');
    assert("qmqp1"@[0] == 'q');
    assert("mqtt5"@[0] == 'm');
    assert("stomp"@[0] == 's');
    assert("redis"@[0] == 'r');
    assert("ibmmq"@[0] == 'i');
    assert("jms"@[0] == 'j');
    assert("sns"@[0] == 's');
    assert("sqs"@[0] == 's');
    assert("sns"@[1] == 'n');
    assert("sqs"@[1] == 'q');
}

/// The decoding of the `http` protocol slot.
#[verifier::opaque]
pub open spec fn dec_slot_http(entries: Seq<(Seq<char>, ValueView)>) -> Result<
    Option<HTTPMessageBindingView>,
    DecodeError,
> {
    match lookup(entries, "http"@) {
        None => Ok(None),
        Some(pv) => match HTTPMessageBindingView::decode(pv) {
            Ok(m) => Ok(Some(m)),
            Err(e) => Err(e),
        },
    }
}

/// Decodes the `http` protocol slot.
fn decode_slot_http(entries: &Vec<(String, Value)>) -> (r: Result<Option<HTTPMessageBinding>, DecodeError>)
    ensures
        match r {
            Ok(x) => dec_slot_http(obj_view(entries@)) == Ok::<_, DecodeError>(
                match x {
                    None => None,
                    Some(m) => Some(m@),
                },
            ),
            Err(e) => dec_slot_http(obj_view(entries@)) == Err::<Option<HTTPMessageBindingView>, _>(e),
        },
{
    proof {
        reveal(dec_slot_http);
    }
    match find_field(entries, "http") {
        None => Ok(None),
        Some(v) => match HTTPMessageBinding::decode(v) {
            Ok(m) => Ok(Some(m)),
            Err(e) => Err(e),
        },
    }
}

/// The decoding of the `ws` protocol slot.
#[verifier::opaque]
pub open spec fn dec_slot_ws(entries: Seq<(Seq<char>, ValueView)>) -> Result<
    Option<WebSocketMessageBindingView>,
    DecodeError,
> {
    match lookup(entries, "ws"@) {
        None => Ok(None),
        Some(pv) => match WebSocketMessageBindingView::decode(pv) {
            Ok(m) => Ok(Some(m)),
            Err(e) => Err(e),
        },
    }
}

/// Decodes the `ws` protocol slot.
fn decode_slot_ws(entries: &Vec<(String, Value)>) -> (r: Result<Option<WebSocketMessageBinding>, DecodeError>)
    ensures
        match r {
            Ok(x) => dec_slot_ws(obj_view(entries@)) == Ok::<_, DecodeError>(
                match x {
                    None => None,
                    Some(m) => Some(m@),
                },
            ),
            Err(e) => dec_slot_ws(obj_view(entries@)) == Err::<Option<WebSocketMessageBindingView>, _>(e),
        },
{
    proof {
        reveal(dec_slot_ws);
    }
    match find_field(entries, "ws") {
        None => Ok(None),
        Some(v) => match WebSocketMessageBinding::decode(v) {
            Ok(m) => Ok(Some(m)),
            Err(e) => Err(e),
        },
    }
}

/// The decoding of the `kafka` protocol slot.
#[verifier::opaque]
pub open spec fn dec_slot_kafka(entries: Seq<(Seq<char>, ValueView)>) -> Result<
    Option<KafkaMessageBindingView>,
    DecodeError,
> {
    match lookup(entries, "kafka"@) {
        None => Ok(None),
        Some(pv) => match KafkaMessageBindingView::decode(pv) {
            Ok(m) => Ok(Some(m)),
            Err(e) => Err(e),
        },
    }
}

/// Decodes the `kafka` protocol slot.
fn decode_slot_kafka(entries: &Vec<(String, Value)>) -> (r: Result<Option<KafkaMessageBinding>, DecodeError>)
    ensures
        match r {
            Ok(x) => dec_slot_kafka(obj_view(entries@)) == Ok::<_, DecodeError>(
                match x {
                    None => None,
                    Some(m) => Some(m@),
                },
            ),
            Err(e) => dec_slot_kafka(obj_view(entries@)) == Err::<Option<KafkaMessageBindingView>, _>(e),
        },
{
    proof {
        reveal(dec_slot_kafka);
    }
    match find_field(entries, "kafka") {
        None => Ok(None),
        Some(v) => match KafkaMessageBinding::decode(v) {
            Ok(m) => Ok(Some(m)),
            Err(e) => Err(e),
        },
    }
}

/// The decoding of the `amqp` protocol slot.
#[verifier::opaque]
pub open spec fn dec_slot_amqp(entries: Seq<(Seq<char>, ValueView)>) -> Result<
    Option<AMQPMessageBindingView>,
    DecodeError,
> {
    match lookup(entries, "amqp"@) {
        None => Ok(None),
        Some(pv) => match AMQPMessageBindingView::decode(pv) {
            Ok(m) => Ok(Some(m)),
            Err(e) => Err(e),
        },
    }
}

/// Decodes the `amqp` protocol slot.
fn decode_slot_amqp(entries: &Vec<(String, Value)>) -> (r: Result<Option<AMQPMessageBinding>, DecodeError>)
    ensures
        match r {
            Ok(x) => dec_slot_amqp(obj_view(entries@)) == Ok::<_, DecodeError>(
                match x {
                    None => None,
                    Some(m) => Some(m@),
                },
            ),
            Err(e) => dec_slot_amqp(obj_view(entries@)) == Err::<Option<AMQPMessageBindingView>, _>(e),
        },
{
    proof {
        reveal(dec_slot_amqp);
    }
    match find_field(entries, "amqp") {
        None => Ok(None),
        Some(v) => match AMQPMessageBinding::decode(v) {
            Ok(m) => Ok(Some(m)),
            Err(e) => Err(e),
        },
    }
}

/// The decoding of the `qmqp1` protocol slot.
#[verifier::opaque]
pub open spec fn dec_slot_qmqp1(entries: Seq<(Seq<char>, ValueView)>) -> Result<
    Option<AMQP1MessageBindingView>,
    DecodeError,
> {
    match lookup(entries, "qmqp1"@) {
        None => Ok(None),
        Some(pv) => match AMQP1MessageBindingView::decode(pv) {
            Ok(m) => Ok(Some(m)),
            Err(e) => Err(e),
        },
    }
}

/// Decodes the `qmqp1` protocol slot.
fn decode_slot_qmqp1(entries: &Vec<(String, Value)>) -> (r: Result<Option<AMQP1MessageBinding>, DecodeError>)
    ensures
        match r {
            Ok(x) => dec_slot_qmqp1(obj_view(entries@)) == Ok::<_, DecodeError>(
                match x {
                    None => None,
                    Some(m) => Some(m@),
                },
            ),
            Err(e) => dec_slot_qmqp1(obj_view(entries@)) == Err::<Option<AMQP1MessageBindingView>, _>(e),
        },
{
    proof {
        reveal(dec_slot_qmqp1);
    }
    match find_field(entries, "qmqp1") {
        None => Ok(None),
        Some(v) => match AMQP1MessageBinding::decode(v) {
            Ok(m) => Ok(Some(m)),
            Err(e) => Err(e),
        },
    }
}

/// The decoding of the `mqtt` protocol slot.
#[verifier::opaque]
pub open spec fn dec_slot_mqtt(entries: Seq<(Seq<char>, ValueView)>) -> Result<
    Option<MQTTMessageBindingView>,
    DecodeError,
> {
    match lookup(entries, "mqtt"@) {
        None => Ok(None),
        Some(pv) => match MQTTMessageBindingView::decode(pv) {
            Ok(m) => Ok(Some(m)),
            Err(e) => Err(e),
        },
    }
}

/// Decodes the `mqtt` protocol slot.
fn decode_slot_mqtt(entries: &Vec<(String, Value)>) -> (r: Result<Option<MQTTMessageBinding>, DecodeError>)
    ensures
        match r {
            Ok(x) => dec_slot_mqtt(obj_view(entries@)) == Ok::<_, DecodeError>(
                match x {
                    None => None,
                    Some(m) => Some(m@),
                },
            ),
            Err(e) => dec_slot_mqtt(obj_view(entries@)) == Err::<Option<MQTTMessageBindingView>, _>(e),
        },
{
    proof {
        reveal(dec_slot_mqtt);
    }
    match find_field(entries, "mqtt") {
        None => Ok(None),
        Some(v) => match MQTTMessageBinding::decode(v) {
            Ok(m) => Ok(Some(m)),
            Err(e) => Err(e),
        },
    }
}

/// The decoding of the `mqtt5` protocol slot.
#[verifier::opaque]
pub open spec fn dec_slot_mqtt5(entries: Seq<(Seq<char>, ValueView)>) -> Result<
    Option<MQTT5MessageBindingView>,
    DecodeError,
> {
    match lookup(entries, "mqtt5"@) {
        None => Ok(None),
        Some(pv) => match MQTT5MessageBindingView::decode(pv) {
            Ok(m) => Ok(Some(m)),
            Err(e) => Err(e),
        },
    }
}

/// Decodes the `mqtt5` protocol slot.
fn decode_slot_mqtt5(entries: &Vec<(String, Value)>) -> (r: Result<Option<MQTT5MessageBinding>, DecodeError>)
    ensures
        match r {
            Ok(x) => dec_slot_mqtt5(obj_view(entries@)) == Ok::<_, DecodeError>(
                match x {
                    None => None,
                    Some(m) => Some(m@),
                },
            ),
            Err(e) => dec_slot_mqtt5(obj_view(entries@)) == Err::<Option<MQTT5MessageBindingView>, _>(e),
        },
{
    proof {
        reveal(dec_slot_mqtt5);
    }
    match find_field(entries, "mqtt5") {
        None => Ok(None),
        Some(v) => match MQTT5MessageBinding::decode(v) {
            Ok(m) => Ok(Some(m)),
            Err(e) => Err(e),
        },
    }
}

/// The decoding of the `nats` protocol slot.
#[verifier::opaque]
pub open spec fn dec_slot_nats(entries: Seq<(Seq<char>, ValueView)>) -> Result<
    Option<NATSMessageBindingView>,
    DecodeError,
> {
    match lookup(entries, "nats"@) {
        None => Ok(None),
        Some(pv) => match NATSMessageBindingView::decode(pv) {
            Ok(m) => Ok(Some(m)),
            Err(e) => Err(e),
        },
    }
}

/// Decodes the `nats` protocol slot.
fn decode_slot_nats(entries: &Vec<(String, Value)>) -> (r: Result<Option<NATSMessageBinding>, DecodeError>)
    ensures
        match r {
            Ok(x) => dec_slot_nats(obj_view(entries@)) == Ok::<_, DecodeError>(
                match x {
                    None => None,
                    Some(m) => Some(m@),
                },
            ),
            Err(e) => dec_slot_nats(obj_view(entries@)) == Err::<Option<NATSMessageBindingView>, _>(e),
        },
{
    proof {
        reveal(dec_slot_nats);
    }
    match find_field(entries, "nats") {
        None => Ok(None),
        Some(v) => match NATSMessageBinding::decode(v) {
            Ok(m) => Ok(Some(m)),
            Err(e) => Err(e),
        },
    }
}

/// The decoding of the `jms` protocol slot.
#[verifier::opaque]
pub open spec fn dec_slot_jms(entries: Seq<(Seq<char>, ValueView)>) -> Result<
    Option<JMSMessageBindingView>,
    DecodeError,
> {
    match lookup(entries, "jms"@) {
        None => Ok(None),
        Some(pv) => match JMSMessageBindingView::decode(pv) {
            Ok(m) => Ok(Some(m)),
            Err(e) => Err(e),
        },
    }
}

/// Decodes the `jms` protocol slot.
fn decode_slot_jms(entries: &Vec<(String, Value)>) -> (r: Result<Option<JMSMessageBinding>, DecodeError>)
    ensures
        match r {
            Ok(x) => dec_slot_jms(obj_view(entries@)) == Ok::<_, DecodeError>(
                match x {
                    None => None,
                    Some(m) => Some(m@),
                },
            ),
            Err(e) => dec_slot_jms(obj_view(entries@)) == Err::<Option<JMSMessageBindingView>, _>(e),
        },
{
    proof {
        reveal(dec_slot_jms);
    }
    match find_field(entries, "jms") {
        None => Ok(None),
        Some(v) => match JMSMessageBinding::decode(v) {
            Ok(m) => Ok(Some(m)),
            Err(e) => Err(e),
        },
    }
}

/// The decoding of the `sns` protocol slot.
#[verifier::opaque]
pub open spec fn dec_slot_sns(entries: Seq<(Seq<char>, ValueView)>) -> Result<
    Option<SNSMessageBindingView>,
    DecodeError,
> {
    match lookup(entries, "sns"@) {
        None => Ok(None),
        Some(pv) => match SNSMessageBindingView::decode(pv) {
            Ok(m) => Ok(Some(m)),
            Err(e) => Err(e),
        },
    }
}

/// Decodes the `sns` protocol slot.
fn decode_slot_sns(entries: &Vec<(String, Value)>) -> (r: Result<Option<SNSMessageBinding>, DecodeError>)
    ensures
        match r {
            Ok(x) => dec_slot_sns(obj_view(entries@)) == Ok::<_, DecodeError>(
                match x {
                    None => None,
                    Some(m) => Some(m@),
                },
            ),
            Err(e) => dec_slot_sns(obj_view(entries@)) == Err::<Option<SNSMessageBindingView>, _>(e),
        },
{
    proof {
        reveal(dec_slot_sns);
    }
    match find_field(entries, "sns") {
        None => Ok(None),
        Some(v) => match SNSMessageBinding::decode(v) {
            Ok(m) => Ok(Some(m)),
            Err(e) => Err(e),
        },
    }
}

/// The decoding of the `sqs` protocol slot.
#[verifier::opaque]
pub open spec fn dec_slot_sqs(entries: Seq<(Seq<char>, ValueView)>) -> Result<
    Option<SQSMessageBindingView>,
    DecodeError,
> {
    match lookup(entries, "sqs"@) {
        None => Ok(None),
        Some(pv) => match SQSMessageBindingView::decode(pv) {
            Ok(m) => Ok(Some(m)),
            Err(e) => Err(e),
        },
    }
}

/// Decodes the `sqs` protocol slot.
fn decode_slot_sqs(entries: &Vec<(String, Value)>) -> (r: Result<Option<SQSMessageBinding>, DecodeError>)
    ensures
        match r {
            Ok(x) => dec_slot_sqs(obj_view(entries@)) == Ok::<_, DecodeError>(
                match x {
                    None => None,
                    Some(m) => Some(m@),
                },
            ),
            Err(e) => dec_slot_sqs(obj_view(entries@)) == Err::<Option<SQSMessageBindingView>, _>(e),
        },
{
    proof {
        reveal(dec_slot_sqs);
    }
    match find_field(entries, "sqs") {
        None => Ok(None),
        Some(v) => match SQSMessageBinding::decode(v) {
            Ok(m) => Ok(Some(m)),
            Err(e) => Err(e),
        },
    }
}

/// The decoding of the `stomp` protocol slot.
#[verifier::opaque]
pub open spec fn dec_slot_stomp(entries: Seq<(Seq<char>, ValueView)>) -> Result<
    Option<STOMPMessageBindingView>,
    DecodeError,
> {
    match lookup(entries, "stomp"@) {
        None => Ok(None),
        Some(pv) => match STOMPMessageBindingView::decode(pv) {
            Ok(m) => Ok(Some(m)),
            Err(e) => Err(e),
        },
    }
}

/// Decodes the `stomp` protocol slot.
fn decode_slot_stomp(entries: &Vec<(String, Value)>) -> (r: Result<Option<STOMPMessageBinding>, DecodeError>)
    ensures
        match r {
            Ok(x) => dec_slot_stomp(obj_view(entries@)) == Ok::<_, DecodeError>(
                match x {
                    None => None,
                    Some(m) => Some(m@),
                },
            ),
            Err(e) => dec_slot_stomp(obj_view(entries@)) == Err::<Option<STOMPMessageBindingView>, _>(e),
        },
{
    proof {
        reveal(dec_slot_stomp);
    }
    match find_field(entries, "stomp") {
        None => Ok(None),
        Some(v) => match STOMPMessageBinding::decode(v) {
            Ok(m) => Ok(Some(m)),
            Err(e) => Err(e),
        },
    }
}

/// The decoding of the `redis` protocol slot.
#[verifier::opaque]
pub open spec fn dec_slot_redis(entries: Seq<(Seq<char>, ValueView)>) -> Result<
    Option<RedisMessageBindingView>,
    DecodeError,
> {
    match lookup(entries, "redis"@) {
        None => Ok(None),
        Some(pv) => match RedisMessageBindingView::decode(pv) {
            Ok(m) => Ok(Some(m)),
            Err(e) => Err(e),
        },
    }
}

/// Decodes the `redis` protocol slot.
fn decode_slot_redis(entries: &Vec<(String, Value)>) -> (r: Result<Option<RedisMessageBinding>, DecodeError>)
    ensures
        match r {
            Ok(x) => dec_slot_redis(obj_view(entries@)) == Ok::<_, DecodeError>(
                match x {
                    None => None,
                    Some(m) => Some(m@),
                },
            ),
            Err(e) => dec_slot_redis(obj_view(entries@)) == Err::<Option<RedisMessageBindingView>, _>(e),
        },
{
    proof {
        reveal(dec_slot_redis);
    }
    match find_field(entries, "redis") {
        None => Ok(None),
        Some(v) => match RedisMessageBinding::decode(v) {
            Ok(m) => Ok(Some(m)),
            Err(e) => Err(e),
        },
    }
}

/// The decoding of the `mercure` protocol slot.
#[verifier::opaque]
pub open spec fn dec_slot_mercure(entries: Seq<(Seq<char>, ValueView)>) -> Result<
    Option<MercureMessageBindingView>,
    DecodeError,
> {
    match lookup(entries, "mercure"@) {
        None => Ok(None),
        Some(pv) => match MercureMessageBindingView::decode(pv) {
            Ok(m) => Ok(Some(m)),
            Err(e) => Err(e),
        },
    }
}

/// Decodes the `mercure` protocol slot.
fn decode_slot_mercure(entries: &Vec<(String, Value)>) -> (r: Result<Option<MercureMessageBinding>, DecodeError>)
    ensures
        match r {
            Ok(x) => dec_slot_mercure(obj_view(entries@)) == Ok::<_, DecodeError>(
                match x {
                    None => None,
                    Some(m) => Some(m@),
                },
            ),
            Err(e) => dec_slot_mercure(obj_view(entries@)) == Err::<Option<MercureMessageBindingView>, _>(e),
        },
{
    proof {
        reveal(dec_slot_mercure);
    }
    match find_field(entries, "mercure") {
        None => Ok(None),
        Some(v) => match MercureMessageBinding::decode(v) {
            Ok(m) => Ok(Some(m)),
            Err(e) => Err(e),
        },
    }
}

/// The decoding of the `ibmmq` protocol slot.
#[verifier::opaque]
pub open spec fn dec_slot_ibmmq(entries: Seq<(Seq<char>, ValueView)>) -> Result<
    Option<IBMMQMessageBindingView>,
    DecodeError,
> {
    match lookup(entries, "ibmmq"@) {
        None => Ok(None),
        Some(pv) => match IBMMQMessageBindingView::decode(pv) {
            Ok(m) => Ok(Some(m)),
            Err(e) => Err(e),
        },
    }
}

/// Decodes the `ibmmq` protocol slot.
fn decode_slot_ibmmq(entries: &Vec<(String, Value)>) -> (r: Result<Option<IBMMQMessageBinding>, DecodeError>)
    ensures
        match r {
            Ok(x) => dec_slot_ibmmq(obj_view(entries@)) == Ok::<_, DecodeError>(
                match x {
                    None => None,
                    Some(m) => Some(m@),
                },
            ),
            Err(e) => dec_slot_ibmmq(obj_view(entries@)) == Err::<Option<IBMMQMessageBindingView>, _>(e),
        },
{
    proof {
        reveal(dec_slot_ibmmq);
    }
    match find_field(entries, "ibmmq") {
        None => Ok(None),
        Some(v) => match IBMMQMessageBinding::decode(v) {
            Ok(m) => Ok(Some(m)),
            Err(e) => Err(e),
        },
    }
}

impl MessageBindingView {
    /// The declared wire keys.
    pub open spec fn known_keys() -> Seq<Seq<char>> {
        seq!["http"@, "ws"@, "kafka"@, "amqp"@, "qmqp1"@, "mqtt"@, "mqtt5"@, "nats"@, "jms"@, "sns"@, "sqs"@, "stomp"@, "redis"@, "mercure"@, "ibmmq"@]
    }

    /// Declared fields in output order; absent options and empty
    /// sequences are omitted.
    pub open spec fn field_list(self) -> Seq<(Seq<char>, Option<ValueView>)> {
        seq![
            ("http"@, match self.http {
                None => None,
                Some(m) => Some(m.encode()),
            }),
            ("ws"@, match self.ws {
                None => None,
                Some(m) => Some(m.encode()),
            }),
            ("kafka"@, match self.kafka {
                None => None,
                Some(m) => Some(m.encode()),
            }),
            ("amqp"@, match self.amqp {
                None => None,
                Some(m) => Some(m.encode()),
            }),
            ("qmqp1"@, match self.qmqp1 {
                None => None,
                Some(m) => Some(m.encode()),
            }),
            ("mqtt"@, match self.mqtt {
                None => None,
                Some(m) => Some(m.encode()),
            }),
            ("mqtt5"@, match self.mqtt5 {
                None => None,
                Some(m) => Some(m.encode()),
            }),
            ("nats"@, match self.nats {
                None => None,
                Some(m) => Some(m.encode()),
            }),
            ("jms"@, match self.jms {
                None => None,
                Some(m) => Some(m.encode()),
            }),
            ("sns"@, match self.sns {
                None => None,
                Some(m) => Some(m.encode()),
            }),
            ("sqs"@, match self.sqs {
                None => None,
                Some(m) => Some(m.encode()),
            }),
            ("stomp"@, match self.stomp {
                None => None,
                Some(m) => Some(m.encode()),
            }),
            ("redis"@, match self.redis {
                None => None,
                Some(m) => Some(m.encode()),
            }),
            ("mercure"@, match self.mercure {
                None => None,
                Some(m) => Some(m.encode()),
            }),
            ("ibmmq"@, match self.ibmmq {
                None => None,
                Some(m) => Some(m.encode()),
            }),
        ]
    }

    /// No extension key shadows a declared field, and every nested
    /// entity is well formed.
    pub open spec fn wf(self) -> bool {
        &&& forall|j: int|
            0 <= j < self.extensions.len() ==> !Self::known_keys().contains(
                (#[trigger] self.extensions[j]).0,
            )
        &&& match self.http {
            None => true,
            Some(m) => m.wf(),
        }
        &&& match self.ws {
            None => true,
            Some(m) => m.wf(),
        }
        &&& match self.kafka {
            None => true,
            Some(m) => m.wf(),
        }
        &&& match self.amqp {
            None => true,
            Some(m) => m.wf(),
        }
        &&& match self.qmqp1 {
            None => true,
            Some(m) => m.wf(),
        }
        &&& match self.mqtt {
            None => true,
            Some(m) => m.wf(),
        }
        &&& match self.mqtt5 {
            None => true,
            Some(m) => m.wf(),
        }
        &&& match self.nats {
            None => true,
            Some(m) => m.wf(),
        }
        &&& match self.jms {
            None => true,
            Some(m) => m.wf(),
        }
        &&& match self.sns {
            None => true,
            Some(m) => m.wf(),
        }
        &&& match self.sqs {
            None => true,
            Some(m) => m.wf(),
        }
        &&& match self.stomp {
            None => true,
            Some(m) => m.wf(),
        }
        &&& match self.redis {
            None => true,
            Some(m) => m.wf(),
        }
        &&& match self.mercure {
            None => true,
            Some(m) => m.wf(),
        }
        &&& match self.ibmmq {
            None => true,
            Some(m) => m.wf(),
        }
    }

    /// The encoding: declared fields first, then the extensions.
    pub open spec fn encode(self) -> ValueView {
        ValueView::Object(present_fields(self.field_list()) + self.extensions)
    }

    /// The decoding of a structural value as this object.
    pub open spec fn decode(v: ValueView) -> Result<Self, DecodeError> {
        match v {
            ValueView::Object(entries) => {
                let http = dec_slot_http(entries);
                let ws = dec_slot_ws(entries);
                let kafka = dec_slot_kafka(entries);
                let amqp = dec_slot_amqp(entries);
                let qmqp1 = dec_slot_qmqp1(entries);
                let mqtt = dec_slot_mqtt(entries);
                let mqtt5 = dec_slot_mqtt5(entries);
                let nats = dec_slot_nats(entries);
                let jms = dec_slot_jms(entries);
                let sns = dec_slot_sns(entries);
                let sqs = dec_slot_sqs(entries);
                let stomp = dec_slot_stomp(entries);
                let redis = dec_slot_redis(entries);
                let mercure = dec_slot_mercure(entries);
                let ibmmq = dec_slot_ibmmq(entries);
                if http is Err {
                    Err(http->Err_0)
                } else if ws is Err {
                    Err(ws->Err_0)
                } else if kafka is Err {
                    Err(kafka->Err_0)
                } else if amqp is Err {
                    Err(amqp->Err_0)
                } else if qmqp1 is Err {
                    Err(qmqp1->Err_0)
                } else if mqtt is Err {
                    Err(mqtt->Err_0)
                } else if mqtt5 is Err {
                    Err(mqtt5->Err_0)
                } else if nats is Err {
                    Err(nats->Err_0)
                } else if jms is Err {
                    Err(jms->Err_0)
                } else if sns is Err {
                    Err(sns->Err_0)
                } else if sqs is Err {
                    Err(sqs->Err_0)
                } else if stomp is Err {
                    Err(stomp->Err_0)
                } else if redis is Err {
                    Err(redis->Err_0)
                } else if mercure is Err {
                    Err(mercure->Err_0)
                } else if ibmmq is Err {
                    Err(ibmmq->Err_0)
                } else {
                    Ok(
                        MessageBindingView {
                            http: http->Ok_0,
                            ws: ws->Ok_0,
                            kafka: kafka->Ok_0,
                            amqp: amqp->Ok_0,
                            qmqp1: qmqp1->Ok_0,
                            mqtt: mqtt->Ok_0,
                            mqtt5: mqtt5->Ok_0,
                            nats: nats->Ok_0,
                            jms: jms->Ok_0,
                            sns: sns->Ok_0,
                            sqs: sqs->Ok_0,
                            stomp: stomp->Ok_0,
                            redis: redis->Ok_0,
                            mercure: mercure->Ok_0,
                            ibmmq: ibmmq->Ok_0,
                            extensions: ext_of(entries, Self::known_keys()),
                        },
                    )
                }
            },
            _ => Err(DecodeError::StructuralMismatch),
        }
    }

    /// Decoding what a well-formed value encodes restores it exactly,
    /// extensions included.
    #[verifier::rlimit(100)]
    pub proof fn lemma_round_trip(m: MessageBindingView)
        requires
            m.wf(),
        ensures
            Self::decode(m.encode()) == Ok::<_, DecodeError>(m),
    {
        reveal(dec_slot_http);
        reveal(dec_slot_ws);
        reveal(dec_slot_kafka);
        reveal(dec_slot_amqp);
        reveal(dec_slot_qmqp1);
        reveal(dec_slot_mqtt);
        reveal(dec_slot_mqtt5);
        reveal(dec_slot_nats);
        reveal(dec_slot_jms);
        reveal(dec_slot_sns);
        reveal(dec_slot_sqs);
        reveal(dec_slot_stomp);
        reveal(dec_slot_redis);
        reveal(dec_slot_mercure);
        reveal(dec_slot_ibmmq);
        let fl = m.field_list();
        let keys = MessageBindingView::known_keys();
        lemma_message_binding_keys_distinct();
        assert(forall|p: int| 0 <= p < fl.len() ==> (#[trigger] fl[p]).0 == keys[p]);
        assert(distinct_keys(fl));
        assert(forall|k: Seq<char>| has_field_key(fl, k) ==> keys.contains(k));
        assert(forall|j: int|
            0 <= j < m.extensions.len() ==> !has_field_key(fl, (#[trigger] m.extensions[j]).0));
        lemma_lookup_encoded(fl, m.extensions, 0);
        lemma_lookup_encoded(fl, m.extensions, 1);
        lemma_lookup_encoded(fl, m.extensions, 2);
        lemma_lookup_encoded(fl, m.extensions, 3);
        lemma_lookup_encoded(fl, m.extensions, 4);
        lemma_lookup_encoded(fl, m.extensions, 5);
        lemma_lookup_encoded(fl, m.extensions, 6);
        lemma_lookup_encoded(fl, m.extensions, 7);
        lemma_lookup_encoded(fl, m.extensions, 8);
        lemma_lookup_encoded(fl, m.extensions, 9);
        lemma_lookup_encoded(fl, m.extensions, 10);
        lemma_lookup_encoded(fl, m.extensions, 11);
        lemma_lookup_encoded(fl, m.extensions, 12);
        lemma_lookup_encoded(fl, m.extensions, 13);
        lemma_lookup_encoded(fl, m.extensions, 14);
        lemma_ext_encoded(fl, m.extensions, keys);
        match m.http {
            None => {},
            Some(x) => {
                HTTPMessageBindingView::lemma_round_trip(x);
            },
        }
        match m.ws {
            None => {},
            Some(x) => {
                WebSocketMessageBindingView::lemma_round_trip(x);
            },
        }
        match m.kafka {
            None => {},
            Some(x) => {
                KafkaMessageBindingView::lemma_round_trip(x);
            },
        }
        match m.amqp {
            None => {},
            Some(x) => {
                AMQPMessageBindingView::lemma_round_trip(x);
            },
        }
        match m.qmqp1 {
            None => {},
            Some(x) => {
                AMQP1MessageBindingView::lemma_round_trip(x);
            },
        }
        match m.mqtt {
            None => {},
            Some(x) => {
                MQTTMessageBindingView::lemma_round_trip(x);
            },
        }
        match m.mqtt5 {
            None => {},
            Some(x) => {
                MQTT5MessageBindingView::lemma_round_trip(x);
            },
        }
        match m.nats {
            None => {},
            Some(x) => {
                NATSMessageBindingView::lemma_round_trip(x);
            },
        }
        match m.jms {
            None => {},
            Some(x) => {
                JMSMessageBindingView::lemma_round_trip(x);
            },
        }
        match m.sns {
            None => {},
            Some(x) => {
                SNSMessageBindingView::lemma_round_trip(x);
            },
        }
        match m.sqs {
            None => {},
            Some(x) => {
                SQSMessageBindingView::lemma_round_trip(x);
            },
        }
        match m.stomp {
            None => {},
            Some(x) => {
                STOMPMessageBindingView::lemma_round_trip(x);
            },
        }
        match m.redis {
            None => {},
            Some(x) => {
                RedisMessageBindingView::lemma_round_trip(x);
            },
        }
        match m.mercure {
            None => {},
            Some(x) => {
                MercureMessageBindingView::lemma_round_trip(x);
            },
        }
        match m.ibmmq {
            None => {},
            Some(x) => {
                IBMMQMessageBindingView::lemma_round_trip(x);
            },
        }
        assert(Self::decode(m.encode())->Ok_0 =~= m);
    }
}

impl MessageBinding {
    /// Decodes this object; unrecognized keys are collected into
    /// `extensions` in source order.
    #[verifier::rlimit(100)]
    pub fn decode(v: &Value) -> (r: Result<MessageBinding, DecodeError>)
        ensures
            match r {
                Ok(m) => MessageBindingView::decode(v@) == Ok::<_, DecodeError>(m@),
                Err(e) => MessageBindingView::decode(v@) == Err::<MessageBindingView, _>(e),
            },
    {
        match v {
            Value::Object(entries) => {
                let http = match decode_slot_http(entries) {
                    Ok(x) => x,
                    Err(e) => { return Err(e) },
                };
                let ws = match decode_slot_ws(entries) {
                    Ok(x) => x,
                    Err(e) => { return Err(e) },
                };
                let kafka = match decode_slot_kafka(entries) {
                    Ok(x) => x,
                    Err(e) => { return Err(e) },
                };
                let amqp = match decode_slot_amqp(entries) {
                    Ok(x) => x,
                    Err(e) => { return Err(e) },
                };
                let qmqp1 = match decode_slot_qmqp1(entries) {
                    Ok(x) => x,
                    Err(e) => { return Err(e) },
                };
                let mqtt = match decode_slot_mqtt(entries) {
                    Ok(x) => x,
                    Err(e) => { return Err(e) },
                };
                let mqtt5 = match decode_slot_mqtt5(entries) {
                    Ok(x) => x,
                    Err(e) => { return Err(e) },
                };
                let nats = match decode_slot_nats(entries) {
                    Ok(x) => x,
                    Err(e) => { return Err(e) },
                };
                let jms = match decode_slot_jms(entries) {
                    Ok(x) => x,
                    Err(e) => { return Err(e) },
                };
                let sns = match decode_slot_sns(entries) {
                    Ok(x) => x,
                    Err(e) => { return Err(e) },
                };
                let sqs = match decode_slot_sqs(entries) {
                    Ok(x) => x,
                    Err(e) => { return Err(e) },
                };
                let stomp = match decode_slot_stomp(entries) {
                    Ok(x) => x,
                    Err(e) => { return Err(e) },
                };
                let redis = match decode_slot_redis(entries) {
                    Ok(x) => x,
                    Err(e) => { return Err(e) },
                };
                let mercure = match decode_slot_mercure(entries) {
                    Ok(x) => x,
                    Err(e) => { return Err(e) },
                };
                let ibmmq = match decode_slot_ibmmq(entries) {
                    Ok(x) => x,
                    Err(e) => { return Err(e) },
                };
                let known: [&str; 15] = [
                    "http", "ws", "kafka", "amqp", "qmqp1", "mqtt", "mqtt5", "nats", "jms", "sns", "sqs", "stomp", "redis", "mercure", "ibmmq",
                ];
                let ks: &[&str] = known.as_slice();
                let extensions = collect_extensions(entries, ks);
                proof {
                    assert(key_views(ks@) =~= MessageBindingView::known_keys());
                }
                Ok(
                    MessageBinding {
                        http,
                        ws,
                        kafka,
                        amqp,
                        qmqp1,
                        mqtt,
                        mqtt5,
                        nats,
                        jms,
                        sns,
                        sqs,
                        stomp,
                        redis,
                        mercure,
                        ibmmq,
                        extensions,
                    },
                )
            },
            _ => Err(DecodeError::StructuralMismatch),
        }
    }

    /// Emits the first declared slots onto the output object.
    #[verifier::rlimit(100)]
    fn encode_slots_low(&self, out: &mut Vec<(String, Value)>)
        requires
            obj_view(old(out)@) == Seq::<(Seq<char>, ValueView)>::empty(),
        ensures
            obj_view(final(out)@) == present_fields(self@.field_list().subrange(0, 7)),
    {
        let ghost fl = self@.field_list();
        proof {
            assert(fl.subrange(0, 0) =~= Seq::<(Seq<char>, Option<ValueView>)>::empty());
            assert(present_fields(fl.subrange(0, 0)) =~= Seq::<(Seq<char>, ValueView)>::empty());
            assert(fl.subrange(0, 1) =~= fl.subrange(0, 0).push(fl[0]));
            lemma_present_fields_snoc(fl.subrange(0, 0), fl[0]);
        }
        if let Some(m) = &self.http {
            let ev = m.encode();
            push_present(out, "http", ev);
        }
        proof {
            assert(obj_view(out@) =~= present_fields(fl.subrange(0, 1)));
            assert(fl.subrange(0, 2) =~= fl.subrange(0, 1).push(fl[1]));
            lemma_present_fields_snoc(fl.subrange(0, 1), fl[1]);
        }
        if let Some(m) = &self.ws {
            let ev = m.encode();
            push_present(out, "ws", ev);
        }
        proof {
            assert(obj_view(out@) =~= present_fields(fl.subrange(0, 2)));
            assert(fl.subrange(0, 3) =~= fl.subrange(0, 2).push(fl[2]));
            lemma_present_fields_snoc(fl.subrange(0, 2), fl[2]);
        }
        if let Some(m) = &self.kafka {
            let ev = m.encode();
            push_present(out, "kafka", ev);
        }
        proof {
            assert(obj_view(out@) =~= present_fields(fl.subrange(0, 3)));
            assert(fl.subrange(0, 4) =~= fl.subrange(0, 3).push(fl[3]));
            lemma_present_fields_snoc(fl.subrange(0, 3), fl[3]);
        }
        if let Some(m) = &self.amqp {
            let ev = m.encode();
            push_present(out, "amqp", ev);
        }
        proof {
            assert(obj_view(out@) =~= present_fields(fl.subrange(0, 4)));
            assert(fl.subrange(0, 5) =~= fl.subrange(0, 4).push(fl[4]));
            lemma_present_fields_snoc(fl.subrange(0, 4), fl[4]);
        }
        if let Some(m) = &self.qmqp1 {
            let ev = m.encode();
            push_present(out, "qmqp1", ev);
        }
        proof {
            assert(obj_view(out@) =~= present_fields(fl.subrange(0, 5)));
            assert(fl.subrange(0, 6) =~= fl.subrange(0, 5).push(fl[5]));
            lemma_present_fields_snoc(fl.subrange(0, 5), fl[5]);
        }
        if let Some(m) = &self.mqtt {
            let ev = m.encode();
            push_present(out, "mqtt", ev);
        }
        proof {
            assert(obj_view(out@) =~= present_fields(fl.subrange(0, 6)));
            assert(fl.subrange(0, 7) =~= fl.subrange(0, 6).push(fl[6]));
            lemma_present_fields_snoc(fl.subrange(0, 6), fl[6]);
        }
        if let Some(m) = &self.mqtt5 {
            let ev = m.encode();
            push_present(out, "mqtt5", ev);
        }
        proof {
            assert(obj_view(out@) =~= present_fields(fl.subrange(0, 7)));
        }
    }

    /// Emits the remaining declared slots onto the output object.
    #[verifier::rlimit(100)]
    fn encode_slots_high(&self, out: &mut Vec<(String, Value)>)
        requires
            obj_view(old(out)@) == present_fields(self@.field_list().subrange(0, 7)),
        ensures
            obj_view(final(out)@) == present_fields(self@.field_list()),
    {
        let ghost fl = self@.field_list();
        proof {
            assert(fl.subrange(0, 8) =~= fl.subrange(0, 7).push(fl[7]));
            lemma_present_fields_snoc(fl.subrange(0, 7), fl[7]);
        }
        if let Some(m) = &self.nats {
            let ev = m.encode();
            push_present(out, "nats", ev);
        }
        proof {
            assert(obj_view(out@) =~= present_fields(fl.subrange(0, 8)));
            assert(fl.subrange(0, 9) =~= fl.subrange(0, 8).push(fl[8]));
            lemma_present_fields_snoc(fl.subrange(0, 8), fl[8]);
        }
        if let Some(m) = &self.jms {
            let ev = m.encode();
            push_present(out, "jms", ev);
        }
        proof {
            assert(obj_view(out@) =~= present_fields(fl.subrange(0, 9)));
            assert(fl.subrange(0, 10) =~= fl.subrange(0, 9).push(fl[9]));
            lemma_present_fields_snoc(fl.subrange(0, 9), fl[9]);
        }
        if let Some(m) = &self.sns {
            let ev = m.encode();
            push_present(out, "sns", ev);
        }
        proof {
            assert(obj_view(out@) =~= present_fields(fl.subrange(0, 10)));
            assert(fl.subrange(0, 11) =~= fl.subrange(0, 10).push(fl[10]));
            lemma_present_fields_snoc(fl.subrange(0, 10), fl[10]);
        }
        if let Some(m) = &self.sqs {
            let ev = m.encode();
            push_present(out, "sqs", ev);
        }
        proof {
            assert(obj_view(out@) =~= present_fields(fl.subrange(0, 11)));
            assert(fl.subrange(0, 12) =~= fl.subrange(0, 11).push(fl[11]));
            lemma_present_fields_snoc(fl.subrange(0, 11), fl[11]);
        }
        if let Some(m) = &self.stomp {
            let ev = m.encode();
            push_present(out, "stomp", ev);
        }
        proof {
            assert(obj_view(out@) =~= present_fields(fl.subrange(0, 12)));
            assert(fl.subrange(0, 13) =~= fl.subrange(0, 12).push(fl[12]));
            lemma_present_fields_snoc(fl.subrange(0, 12), fl[12]);
        }
        if let Some(m) = &self.redis {
            let ev = m.encode();
            push_present(out, "redis", ev);
        }
        proof {
            assert(obj_view(out@) =~= present_fields(fl.subrange(0, 13)));
            assert(fl.subrange(0, 14) =~= fl.subrange(0, 13).push(fl[13]));
            lemma_present_fields_snoc(fl.subrange(0, 13), fl[13]);
        }
        if let Some(m) = &self.mercure {
            let ev = m.encode();
            push_present(out, "mercure", ev);
        }
        proof {
            assert(obj_view(out@) =~= present_fields(fl.subrange(0, 14)));
            assert(fl.subrange(0, 15) =~= fl.subrange(0, 14).push(fl[14]));
            lemma_present_fields_snoc(fl.subrange(0, 14), fl[14]);
        }
        if let Some(m) = &self.ibmmq {
            let ev = m.encode();
            push_present(out, "ibmmq", ev);
        }
        proof {
            assert(obj_view(out@) =~= present_fields(fl.subrange(0, 15)));
            assert(fl.subrange(0, 15) =~= fl);
        }
    }

    /// Encodes this object: declared slots, then extensions.
    pub fn encode(&self) -> (r: Value)
        ensures
            r@ == self@.encode(),
    {
        let mut out: Vec<(String, Value)> = Vec::new();
        proof {
            assert(obj_view(out@) =~= Seq::<(Seq<char>, ValueView)>::empty());
        }
        self.encode_slots_low(&mut out);
        self.encode_slots_high(&mut out);
        push_entries(&mut out, &self.extensions);
        Value::Object(out)
    }
}

/// A bindings object whose every key names an unrecognized protocol
/// decodes successfully, keeps those entries as extensions in order, and
/// reproduces them verbatim on encode.
#[verifier::rlimit(100)]
pub proof fn lemma_message_binding_forward_compat(entries: Seq<(Seq<char>, ValueView)>)
    requires
        forall|j: int|
            0 <= j < entries.len() ==> !MessageBindingView::known_keys().contains(
                (#[trigger] entries[j]).0,
            ),
    ensures
        MessageBindingView::decode(ValueView::Object(entries)) is Ok,
        MessageBindingView::decode(ValueView::Object(entries))->Ok_0.extensions == entries,
        MessageBindingView::decode(ValueView::Object(entries))->Ok_0.encode() == ValueView::Object(
            entries,
        ),
{
    reveal(dec_slot_http);
    reveal(dec_slot_ws);
    reveal(dec_slot_kafka);
    reveal(dec_slot_amqp);
    reveal(dec_slot_qmqp1);
    reveal(dec_slot_mqtt);
    reveal(dec_slot_mqtt5);
    reveal(dec_slot_nats);
    reveal(dec_slot_jms);
    reveal(dec_slot_sns);
    reveal(dec_slot_sqs);
    reveal(dec_slot_stomp);
    reveal(dec_slot_redis);
    reveal(dec_slot_mercure);
    reveal(dec_slot_ibmmq);
    let keys = MessageBindingView::known_keys();
    assert(forall|j: int|
        0 <= j < entries.len() ==> (#[trigger] entries[j]).0 != "http"@) by {
        assert(keys[0] == "http"@);
    }
    crate::value::lemma_lookup_absent(entries, "http"@);
    assert(forall|j: int|
        0 <= j < entries.len() ==> (#[trigger] entries[j]).0 != "ws"@) by {
        assert(keys[1] == "ws"@);
    }
    crate::value::lemma_lookup_absent(entries, "ws"@);
    assert(forall|j: int|
        0 <= j < entries.len() ==> (#[trigger] entries[j]).0 != "kafka"@) by {
        assert(keys[2] == "kafka"@);
    }
    crate::value::lemma_lookup_absent(entries, "kafka"@);
    assert(forall|j: int|
        0 <= j < entries.len() ==> (#[trigger] entries[j]).0 != "amqp"@) by {
        assert(keys[3] == "amqp"@);
    }
    crate::value::lemma_lookup_absent(entries, "amqp"@);
    assert(forall|j: int|
        0 <= j < entries.len() ==> (#[trigger] entries[j]).0 != "qmqp1"@) by {
        assert(keys[4] == "qmqp1"@);
    }
    crate::value::lemma_lookup_absent(entries, "qmqp1"@);
    assert(forall|j: int|
        0 <= j < entries.len() ==> (#[trigger] entries[j]).0 != "mqtt"@) by {
        assert(keys[5] == "mqtt"@);
    }
    crate::value::lemma_lookup_absent(entries, "mqtt"@);
    assert(forall|j: int|
        0 <= j < entries.len() ==> (#[trigger] entries[j]).0 != "mqtt5"@) by {
        assert(keys[6] == "mqtt5"@);
    }
    crate::value::lemma_lookup_absent(entries, "mqtt5"@);
    assert(forall|j: int|
        0 <= j < entries.len() ==> (#[trigger] entries[j]).0 != "nats"@) by {
        assert(keys[7] == "nats"@);
    }
    crate::value::lemma_lookup_absent(entries, "nats"@);
    assert(forall|j: int|
        0 <= j < entries.len() ==> (#[trigger] entries[j]).0 != "jms"@) by {
        assert(keys[8] == "jms"@);
    }
    crate::value::lemma_lookup_absent(entries, "jms"@);
    assert(forall|j: int|
        0 <= j < entries.len() ==> (#[trigger] entries[j]).0 != "sns"@) by {
        assert(keys[9] == "sns"@);
    }
    crate::value::lemma_lookup_absent(entries, "sns"@);
    assert(forall|j: int|
        0 <= j < entries.len() ==> (#[trigger] entries[j]).0 != "sqs"@) by {
        assert(keys[10] == "sqs"@);
    }
    crate::value::lemma_lookup_absent(entries, "sqs"@);
    assert(forall|j: int|
        0 <= j < entries.len() ==> (#[trigger] entries[j]).0 != "stomp"@) by {
        assert(keys[11] == "stomp"@);
    }
    crate::value::lemma_lookup_absent(entries, "stomp"@);
    assert(forall|j: int|
        0 <= j < entries.len() ==> (#[trigger] entries[j]).0 != "redis"@) by {
        assert(keys[12] == "redis"@);
    }
    crate::value::lemma_lookup_absent(entries, "redis"@);
    assert(forall|j: int|
        0 <= j < entries.len() ==> (#[trigger] entries[j]).0 != "mercure"@) by {
        assert(keys[13] == "mercure"@);
    }
    crate::value::lemma_lookup_absent(entries, "mercure"@);
    assert(forall|j: int|
        0 <= j < entries.len() ==> (#[trigger] entries[j]).0 != "ibmmq"@) by {
        assert(keys[14] == "ibmmq"@);
    }
    crate::value::lemma_lookup_absent(entries, "ibmmq"@);
    crate::value::lemma_ext_of_none_known(entries, keys);
    let m = MessageBindingView::decode(ValueView::Object(entries))->Ok_0;
    let fl = m.field_list();
    assert(forall|i: int| 0 <= i < fl.len() ==> (#[trigger] fl[i]).1 is None);
    crate::value::lemma_present_fields_all_none(fl);
    assert(present_fields(fl) + m.extensions =~= entries);
}

/// The decoding of a reference-or-message binding: the reference shape is tried
/// first, always; only a value that does not match it is read inline.
#[verifier::opaque]
pub open spec fn dec_ref_or_message_binding(v: ValueView) -> Result<RefOrView<MessageBindingView>, DecodeError> {
    match ref_shape(v) {
        Some(loc) => Ok(RefOrView::Ref(loc)),
        None => match MessageBindingView::decode(v) {
            Ok(m) => Ok(RefOrView::Val(m)),
            Err(e) => Err(e),
        },
    }
}

/// The encoding of a reference-or-message binding: the reference object, or the
/// inline object.
pub open spec fn enc_ref_or_message_binding(r: RefOrView<MessageBindingView>) -> ValueView {
    match r {
        RefOrView::Ref(loc) => enc_ref(loc),
        RefOrView::Val(m) => m.encode(),
    }
}

/// A reference is well formed outright; an inline value must be well formed
/// and must not encode to the reference shape (such a value would decode as
/// a reference, by the fixed priority).
pub open spec fn wf_ref_or_message_binding(r: RefOrView<MessageBindingView>) -> bool {
    match r {
        RefOrView::Ref(_) => true,
        RefOrView::Val(m) => m.wf() && ref_shape(m.encode()) is None,
    }
}

/// Decoding what a well-formed reference-or-message binding encodes restores it.
pub proof fn lemma_ref_or_message_binding_round_trip(r: RefOrView<MessageBindingView>)
    requires
        wf_ref_or_message_binding(r),
    ensures
        dec_ref_or_message_binding(enc_ref_or_message_binding(r)) == Ok::<_, DecodeError>(r),
{
    reveal(dec_ref_or_message_binding);
    match r {
        RefOrView::Ref(loc) => {
            lemma_ref_shape_enc(loc);
        },
        RefOrView::Val(m) => {
            MessageBindingView::lemma_round_trip(m);
        },
    }
}

/// Decodes a reference-or-message binding: the reference shape is tried first,
/// always.
pub fn decode_ref_or_message_binding(v: &Value) -> (r: Result<RefOr<MessageBinding>, DecodeError>)
    ensures
        match r {
            Ok(x) => dec_ref_or_message_binding(v@) == Ok::<_, DecodeError>(x@),
            Err(e) => dec_ref_or_message_binding(v@) == Err::<RefOrView<MessageBindingView>, _>(e),
        },
{
    proof {
        reveal(dec_ref_or_message_binding);
    }
    match as_reference(v) {
        Some(rf) => Ok(RefOr::Ref(rf)),
        None => match MessageBinding::decode(v) {
            Ok(m) => Ok(RefOr::T(m)),
            Err(e) => Err(e),
        },
    }
}

/// Encodes a reference-or-message binding.
pub fn encode_ref_or_message_binding(r: &RefOr<MessageBinding>) -> (res: Value)
    ensures
        res@ == enc_ref_or_message_binding(r@),
{
    match r {
        RefOr::Ref(rf) => encode_reference(rf),
        RefOr::T(m) => m.encode(),
    }
}

/// Model of a named message binding mapping, entry by entry.
pub open spec fn message_binding_map_view(m: Seq<(String, RefOr<MessageBinding>)>) -> Seq<(Seq<char>, RefOrView<MessageBindingView>)>
    decreases m.len(),
{
    if m.len() == 0 {
        Seq::empty()
    } else {
        seq![(m[0].0@, m[0].1@)] + message_binding_map_view(m.subrange(1, m.len() as int))
    }
}

/// `message_binding_map_view` maps the entry sequence pointwise.
pub broadcast proof fn lemma_message_binding_map_view(m: Seq<(String, RefOr<MessageBinding>)>)
    ensures
        (#[trigger] message_binding_map_view(m)).len() == m.len(),
        forall|i: int|
            0 <= i < m.len() ==> message_binding_map_view(m)[i] == (m[i].0@, m[i].1@),
    decreases m.len(),
{
    if m.len() > 0 {
        lemma_message_binding_map_view(m.subrange(1, m.len() as int));
    }
}

/// The encoding of a named message binding mapping, entry by entry.
pub open spec fn enc_message_binding_map(m: Seq<(Seq<char>, RefOrView<MessageBindingView>)>) -> Seq<(Seq<char>, ValueView)>
    decreases m.len(),
{
    if m.len() == 0 {
        Seq::empty()
    } else {
        seq![(m[0].0, enc_ref_or_message_binding(m[0].1))] + enc_message_binding_map(m.subrange(1, m.len() as int))
    }
}

/// The decoding of a named message binding mapping, entry by entry.
#[verifier::opaque]
pub open spec fn dec_message_binding_map_entries(entries: Seq<(Seq<char>, ValueView)>) -> Result<
    Seq<(Seq<char>, RefOrView<MessageBindingView>)>,
    DecodeError,
>
    decreases entries.len(),
{
    if entries.len() == 0 {
        Ok(Seq::empty())
    } else {
        let head = dec_ref_or_message_binding(entries[0].1);
        let rest = dec_message_binding_map_entries(entries.subrange(1, entries.len() as int));
        if head is Err {
            Err(head->Err_0)
        } else if rest is Err {
            Err(rest->Err_0)
        } else {
            Ok(seq![(entries[0].0, head->Ok_0)] + rest->Ok_0)
        }
    }
}

/// Every entry of the mapping is well formed.
pub open spec fn wf_message_binding_map(m: Seq<(Seq<char>, RefOrView<MessageBindingView>)>) -> bool
    decreases m.len(),
{
    m.len() == 0 || (wf_ref_or_message_binding(m[0].1) && wf_message_binding_map(m.subrange(1, m.len() as int)))
}

/// Decoding an encoded message binding mapping restores it.
pub proof fn lemma_message_binding_map_round_trip(m: Seq<(Seq<char>, RefOrView<MessageBindingView>)>)
    requires
        wf_message_binding_map(m),
    ensures
        dec_message_binding_map_entries(enc_message_binding_map(m)) == Ok::<_, DecodeError>(m),
    decreases m.len(),
{
    reveal(dec_message_binding_map_entries);
    if m.len() > 0 {
        let rest = m.subrange(1, m.len() as int);
        lemma_ref_or_message_binding_round_trip(m[0].1);
        lemma_message_binding_map_round_trip(rest);
        let whole = enc_message_binding_map(m);
        assert(whole[0] == (m[0].0, enc_ref_or_message_binding(m[0].1)));
        assert(whole.subrange(1, whole.len() as int) =~= enc_message_binding_map(rest));
        assert(dec_message_binding_map_entries(whole)->Ok_0 =~= m);
    } else {
        assert(m =~= Seq::<(Seq<char>, RefOrView<MessageBindingView>)>::empty());
        assert(enc_message_binding_map(m) =~= Seq::<(Seq<char>, ValueView)>::empty());
        assert(dec_message_binding_map_entries(enc_message_binding_map(m))->Ok_0 =~= m);
    }
}

/// Encodes a named message binding mapping, entry by entry.
pub fn encode_message_binding_map_entries(m: &Vec<(String, RefOr<MessageBinding>)>) -> (res: Vec<(String, Value)>)
    ensures
        obj_view(res@) == enc_message_binding_map(message_binding_map_view(m@)),
{
    let ghost mv = message_binding_map_view(m@);
    proof {
        lemma_message_binding_map_view(m@);
    }
    let n = m.len();
    let mut out: Vec<(String, Value)> = Vec::new();
    let mut i: usize = 0;
    proof {
        assert(mv.subrange(0, mv.len() as int) =~= mv);
        assert(obj_view(out@) + enc_message_binding_map(mv) =~= enc_message_binding_map(mv));
    }
    while i < n
        invariant
            n == m@.len(),
            0 <= i <= n,
            mv == message_binding_map_view(m@),
            mv.len() == n,
            forall|j: int| 0 <= j < n ==> message_binding_map_view(m@)[j] == (m@[j].0@, m@[j].1@),
            enc_message_binding_map(mv) == obj_view(out@) + enc_message_binding_map(mv.subrange(i as int, n as int)),
        decreases n - i,
    {
        let ghost prev = out@;
        let k = m[i].0.clone();
        let ev = encode_ref_or_message_binding(&m[i].1);
        out.push((k, ev));
        proof {
            let tail = mv.subrange(i as int, n as int);
            assert(tail[0] == mv[i as int]);
            assert(tail.subrange(1, tail.len() as int) =~= mv.subrange(i as int + 1, n as int));
            lemma_obj_view(out@);
            lemma_obj_view(prev);
            assert(obj_view(out@) =~= obj_view(prev).push((mv[i as int].0, enc_ref_or_message_binding(mv[i as int].1))));
            assert(obj_view(prev) + (seq![(mv[i as int].0, enc_ref_or_message_binding(mv[i as int].1))] + enc_message_binding_map(
                mv.subrange(i as int + 1, n as int),
            )) =~= obj_view(out@) + enc_message_binding_map(mv.subrange(i as int + 1, n as int)));
        }
        i += 1;
    }
    proof {
        assert(mv.subrange(n as int, n as int) =~= Seq::<(Seq<char>, RefOrView<MessageBindingView>)>::empty());
        assert(enc_message_binding_map(mv.subrange(n as int, n as int)) =~= Seq::<(Seq<char>, ValueView)>::empty());
        assert(obj_view(out@) + Seq::<(Seq<char>, ValueView)>::empty() =~= obj_view(out@));
    }
    out
}

/// Decodes the entries of a named message binding mapping.
pub fn decode_message_binding_map_entries(entries: &Vec<(String, Value)>) -> (r: Result<Vec<(String, RefOr<MessageBinding>)>, DecodeError>)
    ensures
        match r {
            Ok(x) => dec_message_binding_map_entries(obj_view(entries@)) == Ok::<_, DecodeError>(message_binding_map_view(x@)),
            Err(e) => dec_message_binding_map_entries(obj_view(entries@)) == Err::<Seq<(Seq<char>, RefOrView<MessageBindingView>)>, _>(e),
        },
{
    proof {
        reveal(dec_message_binding_map_entries);
    }
    let ghost ov = obj_view(entries@);
    proof {
        lemma_obj_view(entries@);
    }
    let n = entries.len();
    let mut out: Vec<(String, RefOr<MessageBinding>)> = Vec::new();
    let mut i: usize = 0;
    proof {
        assert(ov.subrange(0, ov.len() as int) =~= ov);
        assert(message_binding_map_view(out@) =~= Seq::<(Seq<char>, RefOrView<MessageBindingView>)>::empty());
        lemma_message_binding_map_view(out@);
    }
    while i < n
        invariant
            n == entries@.len(),
            0 <= i <= n,
            ov == obj_view(entries@),
            ov.len() == n,
            forall|j: int|
                0 <= j < n ==> ov[j] == (entries@[j].0@, crate::value::value_view(
                    entries@[j].1,
                )),
            dec_message_binding_map_entries(ov) == (match dec_message_binding_map_entries(ov.subrange(i as int, n as int)) {
                Ok(t) => Ok::<_, DecodeError>(message_binding_map_view(out@) + t),
                Err(e) => Err(e),
            }),
        decreases n - i,
    {
        let ghost prev = out@;
        let ghost tail = ov.subrange(i as int, n as int);
        proof {
            reveal(dec_message_binding_map_entries);
            assert(tail[0] == ov[i as int]);
            assert(tail.subrange(1, tail.len() as int) =~= ov.subrange(i as int + 1, n as int));
        }
        let k = entries[i].0.clone();
        match decode_ref_or_message_binding(&entries[i].1) {
            Ok(x) => {
                out.push((k, x));
                proof {
                    reveal(dec_message_binding_map_entries);
                    lemma_message_binding_map_view(out@);
                    lemma_message_binding_map_view(prev);
                    assert(message_binding_map_view(out@) =~= message_binding_map_view(prev).push((ov[i as int].0, x@)));
                    assert(message_binding_map_view(prev) + (seq![(ov[i as int].0, x@)] + dec_message_binding_map_entries(
                        ov.subrange(i as int + 1, n as int),
                    )->Ok_0) =~= message_binding_map_view(out@) + dec_message_binding_map_entries(
                        ov.subrange(i as int + 1, n as int),
                    )->Ok_0);
                }
            },
            Err(e) => {
                return Err(e);
            },
        }
        i += 1;
    }
    proof {
        reveal(dec_message_binding_map_entries);
        assert(ov.subrange(n as int, n as int) =~= Seq::<(Seq<char>, ValueView)>::empty());
        assert(message_binding_map_view(out@) + Seq::<(Seq<char>, RefOrView<MessageBindingView>)>::empty() =~= message_binding_map_view(out@));
    }
    Ok(out)
}

} // verus!
