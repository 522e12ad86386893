//! Protocol-specific definitions for a channel, dispatched by protocol
//! name; unrecognized protocols land in the extension bag.

#![allow(unused_imports)]

use vstd::prelude::*;

use crate::fields::dec_opt_bool;
use crate::fields::dec_opt_i32;
use crate::fields::dec_opt_string;
use crate::fields::dec_req_string;
use crate::fields::dec_vec_string;
use crate::fields::enc_opt_bool;
use crate::fields::enc_opt_i32;
use crate::fields::enc_opt_string;
use crate::fields::enc_string_list;
use crate::fields::encode_string_list;
use crate::fields::get_opt_bool;
use crate::fields::get_opt_i32;
use crate::fields::get_opt_string;
use crate::fields::get_req_string;
use crate::fields::get_vec_string;
use crate::fields::lemma_string_list_round_trip;
use crate::fields::view_opt_string;
use crate::fields::view_vec_string;
use crate::reference::Ref;
use crate::reference::RefOr;
use crate::reference::RefOrView;
use crate::reference::as_reference;
use crate::reference::enc_ref;
use crate::reference::encode_reference;
use crate::reference::lemma_ref_shape_enc;
use crate::reference::ref_shape;
use crate::schema::Schema;
use crate::schema::SchemaView;
use crate::schema::lemma_schema_round_trip;
use crate::schema::schema_view;
use crate::value::lemma_list_view;
use crate::value::lemma_obj_view;
use crate::value::list_view;
use crate::value::DecodeError;
use crate::value::Value;
use crate::value::ValueView;
use crate::value::collect_extensions;
use crate::value::distinct_keys;
use crate::value::ext_of;
use crate::value::find_field;
use crate::value::has_field_key;
use crate::value::key_views;
use crate::value::lemma_ext_encoded;
use crate::value::lemma_lookup_encoded;
use crate::value::lemma_present_fields_snoc;
use crate::value::lookup;
use crate::value::obj_view;
use crate::value::present_fields;
use crate::value::push_entries;
use crate::value::push_present;

verus! {

/// This object must not contain any properties. Its name is reserved for
/// future use.
#[derive(Debug, PartialEq)]
pub struct HTTPChannelBinding {}

/// Model of a [`HTTPChannelBinding`].
#[verifier::ext_equal]
pub struct HTTPChannelBindingView {}

impl View for HTTPChannelBinding {
    type V = HTTPChannelBindingView;

    open spec fn view(&self) -> HTTPChannelBindingView {
        HTTPChannelBindingView {  }
    }
}

impl HTTPChannelBindingView {
    /// Any object decodes to this empty binding; its fields, if any,
    /// are not kept.
    pub open spec fn decode(v: ValueView) -> Result<HTTPChannelBindingView, DecodeError> {
        match v {
            ValueView::Object(entries) => Ok(HTTPChannelBindingView {  }),
            _ => Err(DecodeError::StructuralMismatch),
        }
    }

    /// The encoding: an empty object.
    pub open spec fn encode(self) -> ValueView {
        ValueView::Object(Seq::<(Seq<char>, ValueView)>::empty())
    }

    /// There is nothing to be malformed.
    pub open spec fn wf(self) -> bool {
        true
    }

    /// Decoding what this object encodes restores it.
    pub proof fn lemma_round_trip(m: HTTPChannelBindingView)
        requires
            m.wf(),
        ensures
            Self::decode(m.encode()) == Ok::<_, DecodeError>(m),
    {
    }
}

impl HTTPChannelBinding {
    /// Decodes this object, accepting any object shape.
    pub fn decode(v: &Value) -> (r: Result<HTTPChannelBinding, DecodeError>)
        ensures
            match r {
                Ok(m) => HTTPChannelBindingView::decode(v@) == Ok::<_, DecodeError>(m@),
                Err(e) => HTTPChannelBindingView::decode(v@) == Err::<HTTPChannelBindingView, _>(e),
            },
    {
        match v {
            Value::Object(_) => Ok(HTTPChannelBinding {  }),
            _ => Err(DecodeError::StructuralMismatch),
        }
    }

    /// Encodes this object: always the empty object.
    pub fn encode(&self) -> (r: Value)
        ensures
            r@ == self@.encode(),
    {
        let out: Vec<(String, Value)> = Vec::new();
        proof {
            assert(obj_view(out@) =~= Seq::<(Seq<char>, ValueView)>::empty());
        }
        Value::Object(out)
    }
}

/// When using WebSockets, the channel represents the connection; its
/// characteristics are related to the protocol used for the handshake.
#[derive(Debug, PartialEq)]
pub struct WebsocketsChannelBinding {
    /// The HTTP method to use when establishing the connection. Its
    /// value must be either `GET` or `POST`.
    pub method: Option<String>,
    /// A schema containing the definitions for each query parameter.
    pub query: Option<Schema>,
    /// A schema containing the definitions of the HTTP headers to use
    /// when establishing the connection.
    pub headers: Option<Schema>,
    /// The version of this binding. If omitted, "latest" must be
    /// assumed.
    pub binding_version: Option<String>,
    /// Unrecognized sibling fields, preserved in source order.
    pub extensions: Vec<(String, Value)>,
}

/// Model of a [`WebsocketsChannelBinding`].
#[verifier::ext_equal]
pub struct WebsocketsChannelBindingView {
    pub method: Option<Seq<char>>,
    pub query: Option<SchemaView>,
    pub headers: Option<SchemaView>,
    pub binding_version: Option<Seq<char>>,
    pub extensions: Seq<(Seq<char>, ValueView)>,
}

impl View for WebsocketsChannelBinding {
    type V = WebsocketsChannelBindingView;

    open spec fn view(&self) -> WebsocketsChannelBindingView {
        WebsocketsChannelBindingView {
            method: view_opt_string(self.method),
            query: match self.query {
                None => None,
                Some(x) => Some(schema_view(x)),
            },
            headers: match self.headers {
                None => None,
                Some(x) => Some(schema_view(x)),
            },
            binding_version: view_opt_string(self.binding_version),
            extensions: obj_view(self.extensions@),
        }
    }
}

/// The declared keys are pairwise distinct.
pub proof fn lemma_websockets_channel_binding_keys_distinct()
    ensures
        forall|p: int, q: int|
            0 <= p < q < WebsocketsChannelBindingView::known_keys().len() ==> WebsocketsChannelBindingView::known_keys()[p]
                != WebsocketsChannelBindingView::known_keys()[q],
{
    reveal_strlit("method");
    reveal_strlit("query");
    reveal_strlit("headers");
    reveal_strlit("bindingVersion");
    assert("method"@.len() == 6);
    assert("query"@.len() == 5);
    assert("headers"@.len() == 7);
    assert("bindingVersion"@.len() == 14);
}

impl WebsocketsChannelBindingView {
    /// The declared wire keys.
    pub open spec fn known_keys() -> Seq<Seq<char>> {
        seq!["method"@, "query"@, "headers"@, "bindingVersion"@]
    }

    /// Declared fields in output order; absent options and empty
    /// sequences are omitted.
    pub open spec fn field_list(self) -> Seq<(Seq<char>, Option<ValueView>)> {
        seq![
            ("method"@, enc_opt_string(self.method)),
            ("query"@, match self.query {
                None => None,
                Some(m) => Some(m.encode()),
            }),
            ("headers"@, match self.headers {
                None => None,
                Some(m) => Some(m.encode()),
            }),
            ("bindingVersion"@, enc_opt_string(self.binding_version)),
        ]
    }

    /// No extension key shadows a declared field, and every nested
    /// entity is well formed.
    pub open spec fn wf(self) -> bool {
        &&& forall|j: int|
            0 <= j < self.extensions.len() ==> !Self::known_keys().contains(
                (#[trigger] self.extensions[j]).0,
            )
        &&& match self.query {
            None => true,
            Some(m) => m.wf(),
        }
        &&& match self.headers {
            None => true,
            Some(m) => m.wf(),
        }
    }

    /// The encoding: declared fields first, then the extensions.
    pub open spec fn encode(self) -> ValueView {
        ValueView::Object(present_fields(self.field_list()) + self.extensions)
    }

    /// The decoding of a structural value as this object.
    pub open spec fn decode(v: ValueView) -> Result<Self, DecodeError> {
        match v {
            ValueView::Object(entries) => {
                let method = dec_opt_string(lookup(entries, "method"@));
                let query = match lookup(entries, "query"@) {
                    None => Ok(None),
                    Some(pv) => match SchemaView::decode(pv) {
                        Ok(m) => Ok(Some(m)),
                        Err(e) => Err(e),
                    },
                };
                let headers = match lookup(entries, "headers"@) {
                    None => Ok(None),
                    Some(pv) => match SchemaView::decode(pv) {
                        Ok(m) => Ok(Some(m)),
                        Err(e) => Err(e),
                    },
                };
                let binding_version = dec_opt_string(lookup(entries, "bindingVersion"@));
                if method is Err {
                    Err(method->Err_0)
                } else if query is Err {
                    Err(query->Err_0)
                } else if headers is Err {
                    Err(headers->Err_0)
                } else if binding_version is Err {
                    Err(binding_version->Err_0)
                } else {
                    Ok(
                        WebsocketsChannelBindingView {
                            method: method->Ok_0,
                            query: query->Ok_0,
                            headers: headers->Ok_0,
                            binding_version: binding_version->Ok_0,
                            extensions: ext_of(entries, Self::known_keys()),
                        },
                    )
                }
            },
            _ => Err(DecodeError::StructuralMismatch),
        }
    }

    /// Decoding what a well-formed value encodes restores it exactly,
    /// extensions included.
    #[verifier::rlimit(100)]
    pub proof fn lemma_round_trip(m: WebsocketsChannelBindingView)
        requires
            m.wf(),
        ensures
            Self::decode(m.encode()) == Ok::<_, DecodeError>(m),
    {
        let fl = m.field_list();
        let keys = WebsocketsChannelBindingView::known_keys();
        lemma_websockets_channel_binding_keys_distinct();
        assert(forall|p: int| 0 <= p < fl.len() ==> (#[trigger] fl[p]).0 == keys[p]);
        assert(distinct_keys(fl));
        assert(forall|k: Seq<char>| has_field_key(fl, k) ==> keys.contains(k));
        assert(forall|j: int|
            0 <= j < m.extensions.len() ==> !has_field_key(fl, (#[trigger] m.extensions[j]).0));
        lemma_lookup_encoded(fl, m.extensions, 0);
        lemma_lookup_encoded(fl, m.extensions, 1);
        lemma_lookup_encoded(fl, m.extensions, 2);
        lemma_lookup_encoded(fl, m.extensions, 3);
        lemma_ext_encoded(fl, m.extensions, keys);
        match m.query {
            None => {},
            Some(x) => {
                lemma_schema_round_trip(x);
            },
        }
        match m.headers {
            None => {},
            Some(x) => {
                lemma_schema_round_trip(x);
            },
        }
        assert(Self::decode(m.encode())->Ok_0 =~= m);
    }
}

impl WebsocketsChannelBinding {
    /// Decodes this object; unrecognized keys are collected into
    /// `extensions` in source order.
    #[verifier::rlimit(100)]
    pub fn decode(v: &Value) -> (r: Result<WebsocketsChannelBinding, DecodeError>)
        ensures
            match r {
                Ok(m) => WebsocketsChannelBindingView::decode(v@) == Ok::<_, DecodeError>(m@),
                Err(e) => WebsocketsChannelBindingView::decode(v@) == Err::<WebsocketsChannelBindingView, _>(e),
            },
    {
        match v {
            Value::Object(entries) => {
                let method = match get_opt_string(find_field(entries, "method")) {
                    Ok(x) => x,
                    Err(e) => { return Err(e) },
                };
                let query = match find_field(entries, "query") {
                    None => None,
                    Some(x) => match Schema::decode(x) {
                        Ok(m) => Some(m),
                        Err(e) => { return Err(e) },
                    },
                };
                let headers = match find_field(entries, "headers") {
                    None => None,
                    Some(x) => match Schema::decode(x) {
                        Ok(m) => Some(m),
                        Err(e) => { return Err(e) },
                    },
                };
                let binding_version = match get_opt_string(find_field(entries, "bindingVersion")) {
                    Ok(x) => x,
                    Err(e) => { return Err(e) },
                };
                let known: [&str; 4] = [
                    "method", "query", "headers", "bindingVersion",
                ];
                let ks: &[&str] = known.as_slice();
                let extensions = collect_extensions(entries, ks);
                proof {
                    assert(key_views(ks@) =~= WebsocketsChannelBindingView::known_keys());
                }
                Ok(
                    WebsocketsChannelBinding {
                        method,
                        query,
                        headers,
                        binding_version,
                        extensions,
                    },
                )
            },
            _ => Err(DecodeError::StructuralMismatch),
        }
    }

    /// Encodes this object: declared fields, then extensions.
    #[verifier::rlimit(100)]
    pub fn encode(&self) -> (r: Value)
        ensures
            r@ == self@.encode(),
    {
        let ghost fl = self@.field_list();
        let mut out: Vec<(String, Value)> = Vec::new();
        proof {
            assert(fl.subrange(0, 0) =~= Seq::<(Seq<char>, Option<ValueView>)>::empty());
            assert(present_fields(fl.subrange(0, 0)) =~= Seq::<(Seq<char>, ValueView)>::empty());
            assert(fl.subrange(0, 1) =~= fl.subrange(0, 0).push(fl[0]));
            lemma_present_fields_snoc(fl.subrange(0, 0), fl[0]);
        }
        if let Some(x) = &self.method {
            push_present(&mut out, "method", Value::Str(x.clone()));
        }
        proof {
            assert(obj_view(out@) =~= present_fields(fl.subrange(0, 1)));
            assert(fl.subrange(0, 2) =~= fl.subrange(0, 1).push(fl[1]));
            lemma_present_fields_snoc(fl.subrange(0, 1), fl[1]);
        }
        if let Some(m) = &self.query {
            let ev = m.encode();
            push_present(&mut out, "query", ev);
        }
        proof {
            assert(obj_view(out@) =~= present_fields(fl.subrange(0, 2)));
            assert(fl.subrange(0, 3) =~= fl.subrange(0, 2).push(fl[2]));
            lemma_present_fields_snoc(fl.subrange(0, 2), fl[2]);
        }
        if let Some(m) = &self.headers {
            let ev = m.encode();
            push_present(&mut out, "headers", ev);
        }
        proof {
            assert(obj_view(out@) =~= present_fields(fl.subrange(0, 3)));
            assert(fl.subrange(0, 4) =~= fl.subrange(0, 3).push(fl[3]));
            lemma_present_fields_snoc(fl.subrange(0, 3), fl[3]);
        }
        if let Some(x) = &self.binding_version {
            push_present(&mut out, "bindingVersion", Value::Str(x.clone()));
        }
        proof {
            assert(obj_view(out@) =~= present_fields(fl.subrange(0, 4)));
            assert(fl.subrange(0, 4) =~= fl);
        }
        push_entries(&mut out, &self.extensions);
        Value::Object(out)
    }
}

/// This object must not contain any properties. Its name is reserved for
/// future use.
#[derive(Debug, PartialEq)]
pub struct KafkaChannelBinding {}

/// Model of a [`KafkaChannelBinding`].
#[verifier::ext_equal]
pub struct KafkaChannelBindingView {}

impl View for KafkaChannelBinding {
    type V = KafkaChannelBindingView;

    open spec fn view(&self) -> KafkaChannelBindingView {
        KafkaChannelBindingView {  }
    }
}

impl KafkaChannelBindingView {
    /// Any object decodes to this empty binding; its fields, if any,
    /// are not kept.
    pub open spec fn decode(v: ValueView) -> Result<KafkaChannelBindingView, DecodeError> {
        match v {
            ValueView::Object(entries) => Ok(KafkaChannelBindingView {  }),
            _ => Err(DecodeError::StructuralMismatch),
        }
    }

    /// The encoding: an empty object.
    pub open spec fn encode(self) -> ValueView {
        ValueView::Object(Seq::<(Seq<char>, ValueView)>::empty())
    }

    /// There is nothing to be malformed.
    pub open spec fn wf(self) -> bool {
        true
    }

    /// Decoding what this object encodes restores it.
    pub proof fn lemma_round_trip(m: KafkaChannelBindingView)
        requires
            m.wf(),
        ensures
            Self::decode(m.encode()) == Ok::<_, DecodeError>(m),
    {
    }
}

impl KafkaChannelBinding {
    /// Decodes this object, accepting any object shape.
    pub fn decode(v: &Value) -> (r: Result<KafkaChannelBinding, DecodeError>)
        ensures
            match r {
                Ok(m) => KafkaChannelBindingView::decode(v@) == Ok::<_, DecodeError>(m@),
                Err(e) => KafkaChannelBindingView::decode(v@) == Err::<KafkaChannelBindingView, _>(e),
            },
    {
        match v {
            Value::Object(_) => Ok(KafkaChannelBinding {  }),
            _ => Err(DecodeError::StructuralMismatch),
        }
    }

    /// Encodes this object: always the empty object.
    pub fn encode(&self) -> (r: Value)
        ensures
            r@ == self@.encode(),
    {
        let out: Vec<(String, Value)> = Vec::new();
        proof {
            assert(obj_view(out@) =~= Seq::<(Seq<char>, ValueView)>::empty());
        }
        Value::Object(out)
    }
}

/// The exchange properties of an AMQP channel, used when it is of the
/// routing-key kind.
#[derive(Debug, PartialEq)]
pub struct AMQPChannelBindingExchange {
    /// The name of the exchange. It must not exceed 255 characters.
    pub name: Option<String>,
    /// The type of the exchange: `topic`, `direct`, `fanout`, `default`
    /// or `headers`.
    pub typ: Option<String>,
    /// Whether the exchange should survive broker restarts or not.
    pub durable: Option<bool>,
    /// Whether the exchange should be deleted when the last queue is
    /// unbound from it.
    pub auto_delete: Option<bool>,
    /// The virtual host of the exchange. Defaults to `/`.
    pub vhost: Option<String>,
    /// Unrecognized sibling fields, preserved in source order.
    pub extensions: Vec<(String, Value)>,
}

/// Model of a [`AMQPChannelBindingExchange`].
#[verifier::ext_equal]
pub struct AMQPChannelBindingExchangeView {
    pub name: Option<Seq<char>>,
    pub typ: Option<Seq<char>>,
    pub durable: Option<bool>,
    pub auto_delete: Option<bool>,
    pub vhost: Option<Seq<char>>,
    pub extensions: Seq<(Seq<char>, ValueView)>,
}

impl View for AMQPChannelBindingExchange {
    type V = AMQPChannelBindingExchangeView;

    open spec fn view(&self) -> AMQPChannelBindingExchangeView {
        AMQPChannelBindingExchangeView {
            name: view_opt_string(self.name),
            typ: view_opt_string(self.typ),
            durable: self.durable,
            auto_delete: self.auto_delete,
            vhost: view_opt_string(self.vhost),
            extensions: obj_view(self.extensions@),
        }
    }
}

/// The declared keys are pairwise distinct.
pub proof fn lemma_amqp_channel_binding_exchange_keys_distinct()
    ensures
        forall|p: int, q: int|
            0 <= p < q < AMQPChannelBindingExchangeView::known_keys().len() ==> AMQPChannelBindingExchangeView::known_keys()[p]
                != AMQPChannelBindingExchangeView::known_keys()[q],
{
    reveal_strlit("name");
    reveal_strlit("type");
    reveal_strlit("durable");
    reveal_strlit("autoDelete");
    reveal_strlit("vhost");
    assert("name"@.len() == 4);
    assert("type"@.len() == 4);
    assert("durable"@.len() == 7);
    assert("autoDelete"@.len() == 10);
    assert("vhost"@.len() == 5);
    assert("name"@[0] == 'n');
    assert("type"@[0] == 't');
}

impl AMQPChannelBindingExchangeView {
    /// The declared wire keys.
    pub open spec fn known_keys() -> Seq<Seq<char>> {
        seq!["name"@, "type"@, "durable"@, "autoDelete"@, "vhost"@]
    }

    /// Declared fields in output order; absent options and empty
    /// sequences are omitted.
    pub open spec fn field_list(self) -> Seq<(Seq<char>, Option<ValueView>)> {
        seq![
            ("name"@, enc_opt_string(self.name)),
            ("type"@, enc_opt_string(self.typ)),
            ("durable"@, enc_opt_bool(self.durable)),
            ("autoDelete"@, enc_opt_bool(self.auto_delete)),
            ("vhost"@, enc_opt_string(self.vhost)),
        ]
    }

    /// No extension key shadows a declared field, and every nested
    /// entity is well formed.
    pub open spec fn wf(self) -> bool {
        &&& forall|j: int|
            0 <= j < self.extensions.len() ==> !Self::known_keys().contains(
                (#[trigger] self.extensions[j]).0,
            )
    }

    /// The encoding: declared fields first, then the extensions.
    pub open spec fn encode(self) -> ValueView {
        ValueView::Object(present_fields(self.field_list()) + self.extensions)
    }

    /// The decoding of a structural value as this object.
    pub open spec fn decode(v: ValueView) -> Result<Self, DecodeError> {
        match v {
            ValueView::Object(entries) => {
                let name = dec_opt_string(lookup(entries, "name"@));
                let typ = dec_opt_string(lookup(entries, "type"@));
                let durable = dec_opt_bool(lookup(entries, "durable"@));
                let auto_delete = dec_opt_bool(lookup(entries, "autoDelete"@));
                let vhost = dec_opt_string(lookup(entries, "vhost"@));
                if name is Err {
                    Err(name->Err_0)
                } else if typ is Err {
                    Err(typ->Err_0)
                } else if durable is Err {
                    Err(durable->Err_0)
                } else if auto_delete is Err {
                    Err(auto_delete->Err_0)
                } else if vhost is Err {
                    Err(vhost->Err_0)
                } else {
                    Ok(
                        AMQPChannelBindingExchangeView {
                            name: name->Ok_0,
                            typ: typ->Ok_0,
                            durable: durable->Ok_0,
                            auto_delete: auto_delete->Ok_0,
                            vhost: vhost->Ok_0,
                            extensions: ext_of(entries, Self::known_keys()),
                        },
                    )
                }
            },
            _ => Err(DecodeError::StructuralMismatch),
        }
    }

    /// Decoding what a well-formed value encodes restores it exactly,
    /// extensions included.
    #[verifier::rlimit(100)]
    pub proof fn lemma_round_trip(m: AMQPChannelBindingExchangeView)
        requires
            m.wf(),
        ensures
            Self::decode(m.encode()) == Ok::<_, DecodeError>(m),
    {
        let fl = m.field_list();
        let keys = AMQPChannelBindingExchangeView::known_keys();
        lemma_amqp_channel_binding_exchange_keys_distinct();
        assert(forall|p: int| 0 <= p < fl.len() ==> (#[trigger] fl[p]).0 == keys[p]);
        assert(distinct_keys(fl));
        assert(forall|k: Seq<char>| has_field_key(fl, k) ==> keys.contains(k));
        assert(forall|j: int|
            0 <= j < m.extensions.len() ==> !has_field_key(fl, (#[trigger] m.extensions[j]).0));
        lemma_lookup_encoded(fl, m.extensions, 0);
        lemma_lookup_encoded(fl, m.extensions, 1);
        lemma_lookup_encoded(fl, m.extensions, 2);
        lemma_lookup_encoded(fl, m.extensions, 3);
        lemma_lookup_encoded(fl, m.extensions, 4);
        lemma_ext_encoded(fl, m.extensions, keys);
        assert(Self::decode(m.encode())->Ok_0 =~= m);
    }
}

impl AMQPChannelBindingExchange {
    /// Decodes this object; unrecognized keys are collected into
    /// `extensions` in source order.
    #[verifier::rlimit(100)]
    pub fn decode(v: &Value) -> (r: Result<AMQPChannelBindingExchange, DecodeError>)
        ensures
            match r {
                Ok(m) => AMQPChannelBindingExchangeView::decode(v@) == Ok::<_, DecodeError>(m@),
                Err(e) => AMQPChannelBindingExchangeView::decode(v@) == Err::<AMQPChannelBindingExchangeView, _>(e),
            },
    {
        match v {
            Value::Object(entries) => {
                let name = match get_opt_string(find_field(entries, "name")) {
                    Ok(x) => x,
                    Err(e) => { return Err(e) },
                };
                let typ = match get_opt_string(find_field(entries, "type")) {
                    Ok(x) => x,
                    Err(e) => { return Err(e) },
                };
                let durable = match get_opt_bool(find_field(entries, "durable")) {
                    Ok(x) => x,
                    Err(e) => { return Err(e) },
                };
                let auto_delete = match get_opt_bool(find_field(entries, "autoDelete")) {
                    Ok(x) => x,
                    Err(e) => { return Err(e) },
                };
                let vhost = match get_opt_string(find_field(entries, "vhost")) {
                    Ok(x) => x,
                    Err(e) => { return Err(e) },
                };
                let known: [&str; 5] = [
                    "name", "type", "durable", "autoDelete", "vhost",
                ];
                let ks: &[&str] = known.as_slice();
                let extensions = collect_extensions(entries, ks);
                proof {
                    assert(key_views(ks@) =~= AMQPChannelBindingExchangeView::known_keys());
                }
                Ok(
                    AMQPChannelBindingExchange {
                        name,
                        typ,
                        durable,
                        auto_delete,
                        vhost,
                        extensions,
                    },
                )
            },
            _ => Err(DecodeError::StructuralMismatch),
        }
    }

    /// Encodes this object: declared fields, then extensions.
    #[verifier::rlimit(100)]
    pub fn encode(&self) -> (r: Value)
        ensures
            r@ == self@.encode(),
    {
        let ghost fl = self@.field_list();
        let mut out: Vec<(String, Value)> = Vec::new();
        proof {
            assert(fl.subrange(0, 0) =~= Seq::<(Seq<char>, Option<ValueView>)>::empty());
            assert(present_fields(fl.subrange(0, 0)) =~= Seq::<(Seq<char>, ValueView)>::empty());
            assert(fl.subrange(0, 1) =~= fl.subrange(0, 0).push(fl[0]));
            lemma_present_fields_snoc(fl.subrange(0, 0), fl[0]);
        }
        if let Some(x) = &self.name {
            push_present(&mut out, "name", Value::Str(x.clone()));
        }
        proof {
            assert(obj_view(out@) =~= present_fields(fl.subrange(0, 1)));
            assert(fl.subrange(0, 2) =~= fl.subrange(0, 1).push(fl[1]));
            lemma_present_fields_snoc(fl.subrange(0, 1), fl[1]);
        }
        if let Some(x) = &self.typ {
            push_present(&mut out, "type", Value::Str(x.clone()));
        }
        proof {
            assert(obj_view(out@) =~= present_fields(fl.subrange(0, 2)));
            assert(fl.subrange(0, 3) =~= fl.subrange(0, 2).push(fl[2]));
            lemma_present_fields_snoc(fl.subrange(0, 2), fl[2]);
        }
        if let Some(x) = &self.durable {
            push_present(&mut out, "durable", Value::Bool(*x));
        }
        proof {
            assert(obj_view(out@) =~= present_fields(fl.subrange(0, 3)));
            assert(fl.subrange(0, 4) =~= fl.subrange(0, 3).push(fl[3]));
            lemma_present_fields_snoc(fl.subrange(0, 3), fl[3]);
        }
        if let Some(x) = &self.auto_delete {
            push_present(&mut out, "autoDelete", Value::Bool(*x));
        }
        proof {
            assert(obj_view(out@) =~= present_fields(fl.subrange(0, 4)));
            assert(fl.subrange(0, 5) =~= fl.subrange(0, 4).push(fl[4]));
            lemma_present_fields_snoc(fl.subrange(0, 4), fl[4]);
        }
        if let Some(x) = &self.vhost {
            push_present(&mut out, "vhost", Value::Str(x.clone()));
        }
        proof {
            assert(obj_view(out@) =~= present_fields(fl.subrange(0, 5)));
            assert(fl.subrange(0, 5) =~= fl);
        }
        push_entries(&mut out, &self.extensions);
        Value::Object(out)
    }
}

/// The queue properties of an AMQP channel, used when it is of the queue
/// kind.
#[derive(Debug, PartialEq)]
pub struct AMQPChannelBindingQueue {
    /// The name of the queue. It must not exceed 255 characters.
    pub name: Option<String>,
    /// Whether the queue should survive broker restarts or not.
    pub durable: Option<bool>,
    /// Whether the queue should be used only by one connection or not.
    pub exclusive: Option<bool>,
    /// Whether the queue should be deleted when the last consumer
    /// unsubscribes.
    pub auto_delete: Option<bool>,
    /// The virtual host of the queue. Defaults to `/`.
    pub vhost: Option<String>,
    /// Unrecognized sibling fields, preserved in source order.
    pub extensions: Vec<(String, Value)>,
}

/// Model of a [`AMQPChannelBindingQueue`].
#[verifier::ext_equal]
pub struct AMQPChannelBindingQueueView {
    pub name: Option<Seq<char>>,
    pub durable: Option<bool>,
    pub exclusive: Option<bool>,
    pub auto_delete: Option<bool>,
    pub vhost: Option<Seq<char>>,
    pub extensions: Seq<(Seq<char>, ValueView)>,
}

impl View for AMQPChannelBindingQueue {
    type V = AMQPChannelBindingQueueView;

    open spec fn view(&self) -> AMQPChannelBindingQueueView {
        AMQPChannelBindingQueueView {
            name: view_opt_string(self.name),
            durable: self.durable,
            exclusive: self.exclusive,
            auto_delete: self.auto_delete,
            vhost: view_opt_string(self.vhost),
            extensions: obj_view(self.extensions@),
        }
    }
}

/// The declared keys are pairwise distinct.
pub proof fn lemma_amqp_channel_binding_queue_keys_distinct()
    ensures
        forall|p: int, q: int|
            0 <= p < q < AMQPChannelBindingQueueView::known_keys().len() ==> AMQPChannelBindingQueueView::known_keys()[p]
                != AMQPChannelBindingQueueView::known_keys()[q],
{
    reveal_strlit("name");
    reveal_strlit("durable");
    reveal_strlit("exclusive");
    reveal_strlit("autoDelete");
    reveal_strlit("vhost");
    assert("name"@.len() == 4);
    assert("durable"@.len() == 7);
    assert("exclusive"@.len() == 9);
    assert("autoDelete"@.len() == 10);
    assert("vhost"@.len() == 5);
}

impl AMQPChannelBindingQueueView {
    /// The declared wire keys.
    pub open spec fn known_keys() -> Seq<Seq<char>> {
        seq!["name"@, "durable"@, "exclusive"@, "autoDelete"@, "vhost"@]
    }

    /// Declared fields in output order; absent options and empty
    /// sequences are omitted.
    pub open spec fn field_list(self) -> Seq<(Seq<char>, Option<ValueView>)> {
        seq![
            ("name"@, enc_opt_string(self.name)),
            ("durable"@, enc_opt_bool(self.durable)),
            ("exclusive"@, enc_opt_bool(self.exclusive)),
            ("autoDelete"@, enc_opt_bool(self.auto_delete)),
            ("vhost"@, enc_opt_string(self.vhost)),
        ]
    }

    /// No extension key shadows a declared field, and every nested
    /// entity is well formed.
    pub open spec fn wf(self) -> bool {
        &&& forall|j: int|
            0 <= j < self.extensions.len() ==> !Self::known_keys().contains(
                (#[trigger] self.extensions[j]).0,
            )
    }

    /// The encoding: declared fields first, then the extensions.
    pub open spec fn encode(self) -> ValueView {
        ValueView::Object(present_fields(self.field_list()) + self.extensions)
    }

    /// The decoding of a structural value as this object.
    pub open spec fn decode(v: ValueView) -> Result<Self, DecodeError> {
        match v {
            ValueView::Object(entries) => {
                let name = dec_opt_string(lookup(entries, "name"@));
                let durable = dec_opt_bool(lookup(entries, "durable"@));
                let exclusive = dec_opt_bool(lookup(entries, "exclusive"@));
                let auto_delete = dec_opt_bool(lookup(entries, "autoDelete"@));
                let vhost = dec_opt_string(lookup(entries, "vhost"@));
                if name is Err {
                    Err(name->Err_0)
                } else if durable is Err {
                    Err(durable->Err_0)
                } else if exclusive is Err {
                    Err(exclusive->Err_0)
                } else if auto_delete is Err {
                    Err(auto_delete->Err_0)
                } else if vhost is Err {
                    Err(vhost->Err_0)
                } else {
                    Ok(
                        AMQPChannelBindingQueueView {
                            name: name->Ok_0,
                            durable: durable->Ok_0,
                            exclusive: exclusive->Ok_0,
                            auto_delete: auto_delete->Ok_0,
                            vhost: vhost->Ok_0,
                            extensions: ext_of(entries, Self::known_keys()),
                        },
                    )
                }
            },
            _ => Err(DecodeError::StructuralMismatch),
        }
    }

    /// Decoding what a well-formed value encodes restores it exactly,
    /// extensions included.
    #[verifier::rlimit(100)]
    pub proof fn lemma_round_trip(m: AMQPChannelBindingQueueView)
        requires
            m.wf(),
        ensures
            Self::decode(m.encode()) == Ok::<_, DecodeError>(m),
    {
        let fl = m.field_list();
        let keys = AMQPChannelBindingQueueView::known_keys();
        lemma_amqp_channel_binding_queue_keys_distinct();
        assert(forall|p: int| 0 <= p < fl.len() ==> (#[trigger] fl[p]).0 == keys[p]);
        assert(distinct_keys(fl));
        assert(forall|k: Seq<char>| has_field_key(fl, k) ==> keys.contains(k));
        assert(forall|j: int|
            0 <= j < m.extensions.len() ==> !has_field_key(fl, (#[trigger] m.extensions[j]).0));
        lemma_lookup_encoded(fl, m.extensions, 0);
        lemma_lookup_encoded(fl, m.extensions, 1);
        lemma_lookup_encoded(fl, m.extensions, 2);
        lemma_lookup_encoded(fl, m.extensions, 3);
        lemma_lookup_encoded(fl, m.extensions, 4);
        lemma_ext_encoded(fl, m.extensions, keys);
        assert(Self::decode(m.encode())->Ok_0 =~= m);
    }
}

impl AMQPChannelBindingQueue {
    /// Decodes this object; unrecognized keys are collected into
    /// `extensions` in source order.
    #[verifier::rlimit(100)]
    pub fn decode(v: &Value) -> (r: Result<AMQPChannelBindingQueue, DecodeError>)
        ensures
            match r {
                Ok(m) => AMQPChannelBindingQueueView::decode(v@) == Ok::<_, DecodeError>(m@),
                Err(e) => AMQPChannelBindingQueueView::decode(v@) == Err::<AMQPChannelBindingQueueView, _>(e),
            },
    {
        match v {
            Value::Object(entries) => {
                let name = match get_opt_string(find_field(entries, "name")) {
                    Ok(x) => x,
                    Err(e) => { return Err(e) },
                };
                let durable = match get_opt_bool(find_field(entries, "durable")) {
                    Ok(x) => x,
                    Err(e) => { return Err(e) },
                };
                let exclusive = match get_opt_bool(find_field(entries, "exclusive")) {
                    Ok(x) => x,
                    Err(e) => { return Err(e) },
                };
                let auto_delete = match get_opt_bool(find_field(entries, "autoDelete")) {
                    Ok(x) => x,
                    Err(e) => { return Err(e) },
                };
                let vhost = match get_opt_string(find_field(entries, "vhost")) {
                    Ok(x) => x,
                    Err(e) => { return Err(e) },
                };
                let known: [&str; 5] = [
                    "name", "durable", "exclusive", "autoDelete", "vhost",
                ];
                let ks: &[&str] = known.as_slice();
                let extensions = collect_extensions(entries, ks);
                proof {
                    assert(key_views(ks@) =~= AMQPChannelBindingQueueView::known_keys());
                }
                Ok(
                    AMQPChannelBindingQueue {
                        name,
                        durable,
                        exclusive,
                        auto_delete,
                        vhost,
                        extensions,
                    },
                )
            },
            _ => Err(DecodeError::StructuralMismatch),
        }
    }

    /// Encodes this object: declared fields, then extensions.
    #[verifier::rlimit(100)]
    pub fn encode(&self) -> (r: Value)
        ensures
            r@ == self@.encode(),
    {
        let ghost fl = self@.field_list();
        let mut out: Vec<(String, Value)> = Vec::new();
        proof {
            assert(fl.subrange(0, 0) =~= Seq::<(Seq<char>, Option<ValueView>)>::empty());
            assert(present_fields(fl.subrange(0, 0)) =~= Seq::<(Seq<char>, ValueView)>::empty());
            assert(fl.subrange(0, 1) =~= fl.subrange(0, 0).push(fl[0]));
            lemma_present_fields_snoc(fl.subrange(0, 0), fl[0]);
        }
        if let Some(x) = &self.name {
            push_present(&mut out, "name", Value::Str(x.clone()));
        }
        proof {
            assert(obj_view(out@) =~= present_fields(fl.subrange(0, 1)));
            assert(fl.subrange(0, 2) =~= fl.subrange(0, 1).push(fl[1]));
            lemma_present_fields_snoc(fl.subrange(0, 1), fl[1]);
        }
        if let Some(x) = &self.durable {
            push_present(&mut out, "durable", Value::Bool(*x));
        }
        proof {
            assert(obj_view(out@) =~= present_fields(fl.subrange(0, 2)));
            assert(fl.subrange(0, 3) =~= fl.subrange(0, 2).push(fl[2]));
            lemma_present_fields_snoc(fl.subrange(0, 2), fl[2]);
        }
        if let Some(x) = &self.exclusive {
            push_present(&mut out, "exclusive", Value::Bool(*x));
        }
        proof {
            assert(obj_view(out@) =~= present_fields(fl.subrange(0, 3)));
            assert(fl.subrange(0, 4) =~= fl.subrange(0, 3).push(fl[3]));
            lemma_present_fields_snoc(fl.subrange(0, 3), fl[3]);
        }
        if let Some(x) = &self.auto_delete {
            push_present(&mut out, "autoDelete", Value::Bool(*x));
        }
        proof {
            assert(obj_view(out@) =~= present_fields(fl.subrange(0, 4)));
            assert(fl.subrange(0, 5) =~= fl.subrange(0, 4).push(fl[4]));
            lemma_present_fields_snoc(fl.subrange(0, 4), fl[4]);
        }
        if let Some(x) = &self.vhost {
            push_present(&mut out, "vhost", Value::Str(x.clone()));
        }
        proof {
            assert(obj_view(out@) =~= present_fields(fl.subrange(0, 5)));
            assert(fl.subrange(0, 5) =~= fl);
        }
        push_entries(&mut out, &self.extensions);
        Value::Object(out)
    }
}

/// Information about the channel representation in AMQP.
#[derive(Debug, PartialEq)]
pub struct AMQPChannelBinding {
    /// What type of channel this is: either `queue` or `routingKey`
    /// (the default).
    pub is_: Option<String>,
    /// When `is` is `routingKey`, the exchange properties.
    pub exchange: Option<AMQPChannelBindingExchange>,
    /// When `is` is `queue`, the queue properties.
    pub queue: Option<AMQPChannelBindingQueue>,
    /// The version of this binding. If omitted, "latest" must be
    /// assumed.
    pub binding_version: Option<String>,
    /// Unrecognized sibling fields, preserved in source order.
    pub extensions: Vec<(String, Value)>,
}

/// Model of a [`AMQPChannelBinding`].
#[verifier::ext_equal]
pub struct AMQPChannelBindingView {
    pub is_: Option<Seq<char>>,
    pub exchange: Option<AMQPChannelBindingExchangeView>,
    pub queue: Option<AMQPChannelBindingQueueView>,
    pub binding_version: Option<Seq<char>>,
    pub extensions: Seq<(Seq<char>, ValueView)>,
}

impl View for AMQPChannelBinding {
    type V = AMQPChannelBindingView;

    open spec fn view(&self) -> AMQPChannelBindingView {
        AMQPChannelBindingView {
            is_: view_opt_string(self.is_),
            exchange: match self.exchange {
                None => None,
                Some(x) => Some(x@),
            },
            queue: match self.queue {
                None => None,
                Some(x) => Some(x@),
            },
            binding_version: view_opt_string(self.binding_version),
            extensions: obj_view(self.extensions@),
        }
    }
}

/// The declared keys are pairwise distinct.
pub proof fn lemma_amqp_channel_binding_keys_distinct()
    ensures
        forall|p: int, q: int|
            0 <= p < q < AMQPChannelBindingView::known_keys().len() ==> AMQPChannelBindingView::known_keys()[p]
                != AMQPChannelBindingView::known_keys()[q],
{
    reveal_strlit("is");
    reveal_strlit("exchange");
    reveal_strlit("queue");
    reveal_strlit("bindingVersion");
    assert("is"@.len() == 2);
    assert("exchange"@.len() == 8);
    assert("queue"@.len() == 5);
    assert("bindingVersion"@.len() == 14);
}

impl AMQPChannelBindingView {
    /// The declared wire keys.
    pub open spec fn known_keys() -> Seq<Seq<char>> {
        seq!["is"@, "exchange"@, "queue"@, "bindingVersion"@]
    }

    /// Declared fields in output order; absent options and empty
    /// sequences are omitted.
    pub open spec fn field_list(self) -> Seq<(Seq<char>, Option<ValueView>)> {
        seq![
            ("is"@, enc_opt_string(self.is_)),
            ("exchange"@, match self.exchange {
                None => None,
                Some(m) => Some(m.encode()),
            }),
            ("queue"@, match self.queue {
                None => None,
                Some(m) => Some(m.encode()),
            }),
            ("bindingVersion"@, enc_opt_string(self.binding_version)),
        ]
    }

    /// No extension key shadows a declared field, and every nested
    /// entity is well formed.
    pub open spec fn wf(self) -> bool {
        &&& forall|j: int|
            0 <= j < self.extensions.len() ==> !Self::known_keys().contains(
                (#[trigger] self.extensions[j]).0,
            )
        &&& match self.exchange {
            None => true,
            Some(m) => m.wf(),
        }
        &&& match self.queue {
            None => true,
            Some(m) => m.wf(),
        }
    }

    /// The encoding: declared fields first, then the extensions.
    pub open spec fn encode(self) -> ValueView {
        ValueView::Object(present_fields(self.field_list()) + self.extensions)
    }

    /// The decoding of a structural value as this object.
    pub open spec fn decode(v: ValueView) -> Result<Self, DecodeError> {
        match v {
            ValueView::Object(entries) => {
                let is_ = dec_opt_string(lookup(entries, "is"@));
                let exchange = match lookup(entries, "exchange"@) {
                    None => Ok(None),
                    Some(pv) => match AMQPChannelBindingExchangeView::decode(pv) {
                        Ok(m) => Ok(Some(m)),
                        Err(e) => Err(e),
                    },
                };
                let queue = match lookup(entries, "queue"@) {
                    None => Ok(None),
                    Some(pv) => match AMQPChannelBindingQueueView::decode(pv) {
                        Ok(m) => Ok(Some(m)),
                        Err(e) => Err(e),
                    },
                };
                let binding_version = dec_opt_string(lookup(entries, "bindingVersion"@));
                if is_ is Err {
                    Err(is_->Err_0)
                } else if exchange is Err {
                    Err(exchange->Err_0)
                } else if queue is Err {
                    Err(queue->Err_0)
                } else if binding_version is Err {
                    Err(binding_version->Err_0)
                } else {
                    Ok(
                        AMQPChannelBindingView {
                            is_: is_->Ok_0,
                            exchange: exchange->Ok_0,
                            queue: queue->Ok_0,
                            binding_version: binding_version->Ok_0,
                            extensions: ext_of(entries, Self::known_keys()),
                        },
                    )
                }
            },
            _ => Err(DecodeError::StructuralMismatch),
        }
    }

    /// Decoding what a well-formed value encodes restores it exactly,
    /// extensions included.
    #[verifier::rlimit(100)]
    pub proof fn lemma_round_trip(m: AMQPChannelBindingView)
        requires
            m.wf(),
        ensures
            Self::decode(m.encode()) == Ok::<_, DecodeError>(m),
    {
        let fl = m.field_list();
        let keys = AMQPChannelBindingView::known_keys();
        lemma_amqp_channel_binding_keys_distinct();
        assert(forall|p: int| 0 <= p < fl.len() ==> (#[trigger] fl[p]).0 == keys[p]);
        assert(distinct_keys(fl));
        assert(forall|k: Seq<char>| has_field_key(fl, k) ==> keys.contains(k));
        assert(forall|j: int|
            0 <= j < m.extensions.len() ==> !has_field_key(fl, (#[trigger] m.extensions[j]).0));
        lemma_lookup_encoded(fl, m.extensions, 0);
        lemma_lookup_encoded(fl, m.extensions, 1);
        lemma_lookup_encoded(fl, m.extensions, 2);
        lemma_lookup_encoded(fl, m.extensions, 3);
        lemma_ext_encoded(fl, m.extensions, keys);
        match m.exchange {
            None => {},
            Some(x) => {
                AMQPChannelBindingExchangeView::lemma_round_trip(x);
            },
        }
        match m.queue {
            None => {},
            Some(x) => {
                AMQPChannelBindingQueueView::lemma_round_trip(x);
            },
        }
        assert(Self::decode(m.encode())->Ok_0 =~= m);
    }
}

impl AMQPChannelBinding {
    /// Decodes this object; unrecognized keys are collected into
    /// `extensions` in source order.
    #[verifier::rlimit(100)]
    pub fn decode(v: &Value) -> (r: Result<AMQPChannelBinding, DecodeError>)
        ensures
            match r {
                Ok(m) => AMQPChannelBindingView::decode(v@) == Ok::<_, DecodeError>(m@),
                Err(e) => AMQPChannelBindingView::decode(v@) == Err::<AMQPChannelBindingView, _>(e),
            },
    {
        match v {
            Value::Object(entries) => {
                let is_ = match get_opt_string(find_field(entries, "is")) {
                    Ok(x) => x,
                    Err(e) => { return Err(e) },
                };
                let exchange = match find_field(entries, "exchange") {
                    None => None,
                    Some(x) => match AMQPChannelBindingExchange::decode(x) {
                        Ok(m) => Some(m),
                        Err(e) => { return Err(e) },
                    },
                };
                let queue = match find_field(entries, "queue") {
                    None => None,
                    Some(x) => match AMQPChannelBindingQueue::decode(x) {
                        Ok(m) => Some(m),
                        Err(e) => { return Err(e) },
                    },
                };
                let binding_version = match get_opt_string(find_field(entries, "bindingVersion")) {
                    Ok(x) => x,
                    Err(e) => { return Err(e) },
                };
                let known: [&str; 4] = [
                    "is", "exchange", "queue", "bindingVersion",
                ];
                let ks: &[&str] = known.as_slice();
                let extensions = collect_extensions(entries, ks);
                proof {
                    assert(key_views(ks@) =~= AMQPChannelBindingView::known_keys());
                }
                Ok(
                    AMQPChannelBinding {
                        is_,
                        exchange,
                        queue,
                        binding_version,
                        extensions,
                    },
                )
            },
            _ => Err(DecodeError::StructuralMismatch),
        }
    }

    /// Encodes this object: declared fields, then extensions.
    #[verifier::rlimit(100)]
    pub fn encode(&self) -> (r: Value)
        ensures
            r@ == self@.encode(),
    {
        let ghost fl = self@.field_list();
        let mut out: Vec<(String, Value)> = Vec::new();
        proof {
            assert(fl.subrange(0, 0) =~= Seq::<(Seq<char>, Option<ValueView>)>::empty());
            assert(present_fields(fl.subrange(0, 0)) =~= Seq::<(Seq<char>, ValueView)>::empty());
            assert(fl.subrange(0, 1) =~= fl.subrange(0, 0).push(fl[0]));
            lemma_present_fields_snoc(fl.subrange(0, 0), fl[0]);
        }
        if let Some(x) = &self.is_ {
            push_present(&mut out, "is", Value::Str(x.clone()));
        }
        proof {
            assert(obj_view(out@) =~= present_fields(fl.subrange(0, 1)));
            assert(fl.subrange(0, 2) =~= fl.subrange(0, 1).push(fl[1]));
            lemma_present_fields_snoc(fl.subrange(0, 1), fl[1]);
        }
        if let Some(m) = &self.exchange {
            let ev = m.encode();
            push_present(&mut out, "exchange", ev);
        }
        proof {
            assert(obj_view(out@) =~= present_fields(fl.subrange(0, 2)));
            assert(fl.subrange(0, 3) =~= fl.subrange(0, 2).push(fl[2]));
            lemma_present_fields_snoc(fl.subrange(0, 2), fl[2]);
        }
        if let Some(m) = &self.queue {
            let ev = m.encode();
            push_present(&mut out, "queue", ev);
        }
        proof {
            assert(obj_view(out@) =~= present_fields(fl.subrange(0, 3)));
            assert(fl.subrange(0, 4) =~= fl.subrange(0, 3).push(fl[3]));
            lemma_present_fields_snoc(fl.subrange(0, 3), fl[3]);
        }
        if let Some(x) = &self.binding_version {
            push_present(&mut out, "bindingVersion", Value::Str(x.clone()));
        }
        proof {
            assert(obj_view(out@) =~= present_fields(fl.subrange(0, 4)));
            assert(fl.subrange(0, 4) =~= fl);
        }
        push_entries(&mut out, &self.extensions);
        Value::Object(out)
    }
}

/// This object must not contain any properties. Its name is reserved for
/// future use.
#[derive(Debug, PartialEq)]
pub struct AMQP1ChannelBinding {}

/// Model of a [`AMQP1ChannelBinding`].
#[verifier::ext_equal]
pub struct AMQP1ChannelBindingView {}

impl View for AMQP1ChannelBinding {
    type V = AMQP1ChannelBindingView;

    open spec fn view(&self) -> AMQP1ChannelBindingView {
        AMQP1ChannelBindingView {  }
    }
}

impl AMQP1ChannelBindingView {
    /// Any object decodes to this empty binding; its fields, if any,
    /// are not kept.
    pub open spec fn decode(v: ValueView) -> Result<AMQP1ChannelBindingView, DecodeError> {
        match v {
            ValueView::Object(entries) => Ok(AMQP1ChannelBindingView {  }),
            _ => Err(DecodeError::StructuralMismatch),
        }
    }

    /// The encoding: an empty object.
    pub open spec fn encode(self) -> ValueView {
        ValueView::Object(Seq::<(Seq<char>, ValueView)>::empty())
    }

    /// There is nothing to be malformed.
    pub open spec fn wf(self) -> bool {
        true
    }

    /// Decoding what this object encodes restores it.
    pub proof fn lemma_round_trip(m: AMQP1ChannelBindingView)
        requires
            m.wf(),
        ensures
            Self::decode(m.encode()) == Ok::<_, DecodeError>(m),
    {
    }
}

impl AMQP1ChannelBinding {
    /// Decodes this object, accepting any object shape.
    pub fn decode(v: &Value) -> (r: Result<AMQP1ChannelBinding, DecodeError>)
        ensures
            match r {
                Ok(m) => AMQP1ChannelBindingView::decode(v@) == Ok::<_, DecodeError>(m@),
                Err(e) => AMQP1ChannelBindingView::decode(v@) == Err::<AMQP1ChannelBindingView, _>(e),
            },
    {
        match v {
            Value::Object(_) => Ok(AMQP1ChannelBinding {  }),
            _ => Err(DecodeError::StructuralMismatch),
        }
    }

    /// Encodes this object: always the empty object.
    pub fn encode(&self) -> (r: Value)
        ensures
            r@ == self@.encode(),
    {
        let out: Vec<(String, Value)> = Vec::new();
        proof {
            assert(obj_view(out@) =~= Seq::<(Seq<char>, ValueView)>::empty());
        }
        Value::Object(out)
    }
}

/// This object must not contain any properties. Its name is reserved for
/// future use.
#[derive(Debug, PartialEq)]
pub struct MQTTChannelBinding {}

/// Model of a [`MQTTChannelBinding`].
#[verifier::ext_equal]
pub struct MQTTChannelBindingView {}

impl View for MQTTChannelBinding {
    type V = MQTTChannelBindingView;

    open spec fn view(&self) -> MQTTChannelBindingView {
        MQTTChannelBindingView {  }
    }
}

impl MQTTChannelBindingView {
    /// Any object decodes to this empty binding; its fields, if any,
    /// are not kept.
    pub open spec fn decode(v: ValueView) -> Result<MQTTChannelBindingView, DecodeError> {
        match v {
            ValueView::Object(entries) => Ok(MQTTChannelBindingView {  }),
            _ => Err(DecodeError::StructuralMismatch),
        }
    }

    /// The encoding: an empty object.
    pub open spec fn encode(self) -> ValueView {
        ValueView::Object(Seq::<(Seq<char>, ValueView)>::empty())
    }

    /// There is nothing to be malformed.
    pub open spec fn wf(self) -> bool {
        true
    }

    /// Decoding what this object encodes restores it.
    pub proof fn lemma_round_trip(m: MQTTChannelBindingView)
        requires
            m.wf(),
        ensures
            Self::decode(m.encode()) == Ok::<_, DecodeError>(m),
    {
    }
}

impl MQTTChannelBinding {
    /// Decodes this object, accepting any object shape.
    pub fn decode(v: &Value) -> (r: Result<MQTTChannelBinding, DecodeError>)
        ensures
            match r {
                Ok(m) => MQTTChannelBindingView::decode(v@) == Ok::<_, DecodeError>(m@),
                Err(e) => MQTTChannelBindingView::decode(v@) == Err::<MQTTChannelBindingView, _>(e),
            },
    {
        match v {
            Value::Object(_) => Ok(MQTTChannelBinding {  }),
            _ => Err(DecodeError::StructuralMismatch),
        }
    }

    /// Encodes this object: always the empty object.
    pub fn encode(&self) -> (r: Value)
        ensures
            r@ == self@.encode(),
    {
        let out: Vec<(String, Value)> = Vec::new();
        proof {
            assert(obj_view(out@) =~= Seq::<(Seq<char>, ValueView)>::empty());
        }
        Value::Object(out)
    }
}

/// This object must not contain any properties. Its name is reserved for
/// future use.
#[derive(Debug, PartialEq)]
pub struct MQTT5ChannelBinding {}

/// Model of a [`MQTT5ChannelBinding`].
#[verifier::ext_equal]
pub struct MQTT5ChannelBindingView {}

impl View for MQTT5ChannelBinding {
    type V = MQTT5ChannelBindingView;

    open spec fn view(&self) -> MQTT5ChannelBindingView {
        MQTT5ChannelBindingView {  }
    }
}

impl MQTT5ChannelBindingView {
    /// Any object decodes to this empty binding; its fields, if any,
    /// are not kept.
    pub open spec fn decode(v: ValueView) -> Result<MQTT5ChannelBindingView, DecodeError> {
        match v {
            ValueView::Object(entries) => Ok(MQTT5ChannelBindingView {  }),
            _ => Err(DecodeError::StructuralMismatch),
        }
    }

    /// The encoding: an empty object.
    pub open spec fn encode(self) -> ValueView {
        ValueView::Object(Seq::<(Seq<char>, ValueView)>::empty())
    }

    /// There is nothing to be malformed.
    pub open spec fn wf(self) -> bool {
        true
    }

    /// Decoding what this object encodes restores it.
    pub proof fn lemma_round_trip(m: MQTT5ChannelBindingView)
        requires
            m.wf(),
        ensures
            Self::decode(m.encode()) == Ok::<_, DecodeError>(m),
    {
    }
}

impl MQTT5ChannelBinding {
    /// Decodes this object, accepting any object shape.
    pub fn decode(v: &Value) -> (r: Result<MQTT5ChannelBinding, DecodeError>)
        ensures
            match r {
                Ok(m) => MQTT5ChannelBindingView::decode(v@) == Ok::<_, DecodeError>(m@),
                Err(e) => MQTT5ChannelBindingView::decode(v@) == Err::<MQTT5ChannelBindingView, _>(e),
            },
    {
        match v {
            Value::Object(_) => Ok(MQTT5ChannelBinding {  }),
            _ => Err(DecodeError::StructuralMismatch),
        }
    }

    /// Encodes this object: always the empty object.
    pub fn encode(&self) -> (r: Value)
        ensures
            r@ == self@.encode(),
    {
        let out: Vec<(String, Value)> = Vec::new();
        proof {
            assert(obj_view(out@) =~= Seq::<(Seq<char>, ValueView)>::empty());
        }
        Value::Object(out)
    }
}

/// This object must not contain any properties. Its name is reserved for
/// future use.
#[derive(Debug, PartialEq)]
pub struct NATSChannelBinding {}

/// Model of a [`NATSChannelBinding`].
#[verifier::ext_equal]
pub struct NATSChannelBindingView {}

impl View for NATSChannelBinding {
    type V = NATSChannelBindingView;

    open spec fn view(&self) -> NATSChannelBindingView {
        NATSChannelBindingView {  }
    }
}

impl NATSChannelBindingView {
    /// Any object decodes to this empty binding; its fields, if any,
    /// are not kept.
    pub open spec fn decode(v: ValueView) -> Result<NATSChannelBindingView, DecodeError> {
        match v {
            ValueView::Object(entries) => Ok(NATSChannelBindingView {  }),
            _ => Err(DecodeError::StructuralMismatch),
        }
    }

    /// The encoding: an empty object.
    pub open spec fn encode(self) -> ValueView {
        ValueView::Object(Seq::<(Seq<char>, ValueView)>::empty())
    }

    /// There is nothing to be malformed.
    pub open spec fn wf(self) -> bool {
        true
    }

    /// Decoding what this object encodes restores it.
    pub proof fn lemma_round_trip(m: NATSChannelBindingView)
        requires
            m.wf(),
        ensures
            Self::decode(m.encode()) == Ok::<_, DecodeError>(m),
    {
    }
}

impl NATSChannelBinding {
    /// Decodes this object, accepting any object shape.
    pub fn decode(v: &Value) -> (r: Result<NATSChannelBinding, DecodeError>)
        ensures
            match r {
                Ok(m) => NATSChannelBindingView::decode(v@) == Ok::<_, DecodeError>(m@),
                Err(e) => NATSChannelBindingView::decode(v@) == Err::<NATSChannelBindingView, _>(e),
            },
    {
        match v {
            Value::Object(_) => Ok(NATSChannelBinding {  }),
            _ => Err(DecodeError::StructuralMismatch),
        }
    }

    /// Encodes this object: always the empty object.
    pub fn encode(&self) -> (r: Value)
        ensures
            r@ == self@.encode(),
    {
        let out: Vec<(String, Value)> = Vec::new();
        proof {
            assert(obj_view(out@) =~= Seq::<(Seq<char>, ValueView)>::empty());
        }
        Value::Object(out)
    }
}

/// This object must not contain any properties. Its name is reserved for
/// future use.
#[derive(Debug, PartialEq)]
pub struct JMSChannelBinding {}

/// Model of a [`JMSChannelBinding`].
#[verifier::ext_equal]
pub struct JMSChannelBindingView {}

impl View for JMSChannelBinding {
    type V = JMSChannelBindingView;

    open spec fn view(&self) -> JMSChannelBindingView {
        JMSChannelBindingView {  }
    }
}

impl JMSChannelBindingView {
    /// Any object decodes to this empty binding; its fields, if any,
    /// are not kept.
    pub open spec fn decode(v: ValueView) -> Result<JMSChannelBindingView, DecodeError> {
        match v {
            ValueView::Object(entries) => Ok(JMSChannelBindingView {  }),
            _ => Err(DecodeError::StructuralMismatch),
        }
    }

    /// The encoding: an empty object.
    pub open spec fn encode(self) -> ValueView {
        ValueView::Object(Seq::<(Seq<char>, ValueView)>::empty())
    }

    /// There is nothing to be malformed.
    pub open spec fn wf(self) -> bool {
        true
    }

    /// Decoding what this object encodes restores it.
    pub proof fn lemma_round_trip(m: JMSChannelBindingView)
        requires
            m.wf(),
        ensures
            Self::decode(m.encode()) == Ok::<_, DecodeError>(m),
    {
    }
}

impl JMSChannelBinding {
    /// Decodes this object, accepting any object shape.
    pub fn decode(v: &Value) -> (r: Result<JMSChannelBinding, DecodeError>)
        ensures
            match r {
                Ok(m) => JMSChannelBindingView::decode(v@) == Ok::<_, DecodeError>(m@),
                Err(e) => JMSChannelBindingView::decode(v@) == Err::<JMSChannelBindingView, _>(e),
            },
    {
        match v {
            Value::Object(_) => Ok(JMSChannelBinding {  }),
            _ => Err(DecodeError::StructuralMismatch),
        }
    }

    /// Encodes this object: always the empty object.
    pub fn encode(&self) -> (r: Value)
        ensures
            r@ == self@.encode(),
    {
        let out: Vec<(String, Value)> = Vec::new();
        proof {
            assert(obj_view(out@) =~= Seq::<(Seq<char>, ValueView)>::empty());
        }
        Value::Object(out)
    }
}

/// This object must not contain any properties. Its name is reserved for
/// future use.
#[derive(Debug, PartialEq)]
pub struct SNSChannelBinding {}

/// Model of a [`SNSChannelBinding`].
#[verifier::ext_equal]
pub struct SNSChannelBindingView {}

impl View for SNSChannelBinding {
    type V = SNSChannelBindingView;

    open spec fn view(&self) -> SNSChannelBindingView {
        SNSChannelBindingView {  }
    }
}

impl SNSChannelBindingView {
    /// Any object decodes to this empty binding; its fields, if any,
    /// are not kept.
    pub open spec fn decode(v: ValueView) -> Result<SNSChannelBindingView, DecodeError> {
        match v {
            ValueView::Object(entries) => Ok(SNSChannelBindingView {  }),
            _ => Err(DecodeError::StructuralMismatch),
        }
    }

    /// The encoding: an empty object.
    pub open spec fn encode(self) -> ValueView {
        ValueView::Object(Seq::<(Seq<char>, ValueView)>::empty())
    }

    /// There is nothing to be malformed.
    pub open spec fn wf(self) -> bool {
        true
    }

    /// Decoding what this object encodes restores it.
    pub proof fn lemma_round_trip(m: SNSChannelBindingView)
        requires
            m.wf(),
        ensures
            Self::decode(m.encode()) == Ok::<_, DecodeError>(m),
    {
    }
}

impl SNSChannelBinding {
    /// Decodes this object, accepting any object shape.
    pub fn decode(v: &Value) -> (r: Result<SNSChannelBinding, DecodeError>)
        ensures
            match r {
                Ok(m) => SNSChannelBindingView::decode(v@) == Ok::<_, DecodeError>(m@),
                Err(e) => SNSChannelBindingView::decode(v@) == Err::<SNSChannelBindingView, _>(e),
            },
    {
        match v {
            Value::Object(_) => Ok(SNSChannelBinding {  }),
            _ => Err(DecodeError::StructuralMismatch),
        }
    }

    /// Encodes this object: always the empty object.
    pub fn encode(&self) -> (r: Value)
        ensures
            r@ == self@.encode(),
    {
        let out: Vec<(String, Value)> = Vec::new();
        proof {
            assert(obj_view(out@) =~= Seq::<(Seq<char>, ValueView)>::empty());
        }
        Value::Object(out)
    }
}

/// This object must not contain any properties. Its name is reserved for
/// future use.
#[derive(Debug, PartialEq)]
pub struct SQSChannelBinding {}

/// Model of a [`SQSChannelBinding`].
#[verifier::ext_equal]
pub struct SQSChannelBindingView {}

impl View for SQSChannelBinding {
    type V = SQSChannelBindingView;

    open spec fn view(&self) -> SQSChannelBindingView {
        SQSChannelBindingView {  }
    }
}

impl SQSChannelBindingView {
    /// Any object decodes to this empty binding; its fields, if any,
    /// are not kept.
    pub open spec fn decode(v: ValueView) -> Result<SQSChannelBindingView, DecodeError> {
        match v {
            ValueView::Object(entries) => Ok(SQSChannelBindingView {  }),
            _ => Err(DecodeError::StructuralMismatch),
        }
    }

    /// The encoding: an empty object.
    pub open spec fn encode(self) -> ValueView {
        ValueView::Object(Seq::<(Seq<char>, ValueView)>::empty())
    }

    /// There is nothing to be malformed.
    pub open spec fn wf(self) -> bool {
        true
    }

    /// Decoding what this object encodes restores it.
    pub proof fn lemma_round_trip(m: SQSChannelBindingView)
        requires
            m.wf(),
        ensures
            Self::decode(m.encode()) == Ok::<_, DecodeError>(m),
    {
    }
}

impl SQSChannelBinding {
    /// Decodes this object, accepting any object shape.
    pub fn decode(v: &Value) -> (r: Result<SQSChannelBinding, DecodeError>)
        ensures
            match r {
                Ok(m) => SQSChannelBindingView::decode(v@) == Ok::<_, DecodeError>(m@),
                Err(e) => SQSChannelBindingView::decode(v@) == Err::<SQSChannelBindingView, _>(e),
            },
    {
        match v {
            Value::Object(_) => Ok(SQSChannelBinding {  }),
            _ => Err(DecodeError::StructuralMismatch),
        }
    }

    /// Encodes this object: always the empty object.
    pub fn encode(&self) -> (r: Value)
        ensures
            r@ == self@.encode(),
    {
        let out: Vec<(String, Value)> = Vec::new();
        proof {
            assert(obj_view(out@) =~= Seq::<(Seq<char>, ValueView)>::empty());
        }
        Value::Object(out)
    }
}

/// This object must not contain any properties. Its name is reserved for
/// future use.
#[derive(Debug, PartialEq)]
pub struct STOMPChannelBinding {}

/// Model of a [`STOMPChannelBinding`].
#[verifier::ext_equal]
pub struct STOMPChannelBindingView {}

impl View for STOMPChannelBinding {
    type V = STOMPChannelBindingView;

    open spec fn view(&self) -> STOMPChannelBindingView {
        STOMPChannelBindingView {  }
    }
}

impl STOMPChannelBindingView {
    /// Any object decodes to this empty binding; its fields, if any,
    /// are not kept.
    pub open spec fn decode(v: ValueView) -> Result<STOMPChannelBindingView, DecodeError> {
        match v {
            ValueView::Object(entries) => Ok(STOMPChannelBindingView {  }),
            _ => Err(DecodeError::StructuralMismatch),
        }
    }

    /// The encoding: an empty object.
    pub open spec fn encode(self) -> ValueView {
        ValueView::Object(Seq::<(Seq<char>, ValueView)>::empty())
    }

    /// There is nothing to be malformed.
    pub open spec fn wf(self) -> bool {
        true
    }

    /// Decoding what this object encodes restores it.
    pub proof fn lemma_round_trip(m: STOMPChannelBindingView)
        requires
            m.wf(),
        ensures
            Self::decode(m.encode()) == Ok::<_, DecodeError>(m),
    {
    }
}

impl STOMPChannelBinding {
    /// Decodes this object, accepting any object shape.
    pub fn decode(v: &Value) -> (r: Result<STOMPChannelBinding, DecodeError>)
        ensures
            match r {
                Ok(m) => STOMPChannelBindingView::decode(v@) == Ok::<_, DecodeError>(m@),
                Err(e) => STOMPChannelBindingView::decode(v@) == Err::<STOMPChannelBindingView, _>(e),
            },
    {
        match v {
            Value::Object(_) => Ok(STOMPChannelBinding {  }),
            _ => Err(DecodeError::StructuralMismatch),
        }
    }

    /// Encodes this object: always the empty object.
    pub fn encode(&self) -> (r: Value)
        ensures
            r@ == self@.encode(),
    {
        let out: Vec<(String, Value)> = Vec::new();
        proof {
            assert(obj_view(out@) =~= Seq::<(Seq<char>, ValueView)>::empty());
        }
        Value::Object(out)
    }
}

/// This object must not contain any properties. Its name is reserved for
/// future use.
#[derive(Debug, PartialEq)]
pub struct RedisChannelBinding {}

/// Model of a [`RedisChannelBinding`].
#[verifier::ext_equal]
pub struct RedisChannelBindingView {}

impl View for RedisChannelBinding {
    type V = RedisChannelBindingView;

    open spec fn view(&self) -> RedisChannelBindingView {
        RedisChannelBindingView {  }
    }
}

impl RedisChannelBindingView {
    /// Any object decodes to this empty binding; its fields, if any,
    /// are not kept.
    pub open spec fn decode(v: ValueView) -> Result<RedisChannelBindingView, DecodeError> {
        match v {
            ValueView::Object(entries) => Ok(RedisChannelBindingView {  }),
            _ => Err(DecodeError::StructuralMismatch),
        }
    }

    /// The encoding: an empty object.
    pub open spec fn encode(self) -> ValueView {
        ValueView::Object(Seq::<(Seq<char>, ValueView)>::empty())
    }

    /// There is nothing to be malformed.
    pub open spec fn wf(self) -> bool {
        true
    }

    /// Decoding what this object encodes restores it.
    pub proof fn lemma_round_trip(m: RedisChannelBindingView)
        requires
            m.wf(),
        ensures
            Self::decode(m.encode()) == Ok::<_, DecodeError>(m),
    {
    }
}

impl RedisChannelBinding {
    /// Decodes this object, accepting any object shape.
    pub fn decode(v: &Value) -> (r: Result<RedisChannelBinding, DecodeError>)
        ensures
            match r {
                Ok(m) => RedisChannelBindingView::decode(v@) == Ok::<_, DecodeError>(m@),
                Err(e) => RedisChannelBindingView::decode(v@) == Err::<RedisChannelBindingView, _>(e),
            },
    {
        match v {
            Value::Object(_) => Ok(RedisChannelBinding {  }),
            _ => Err(DecodeError::StructuralMismatch),
        }
    }

    /// Encodes this object: always the empty object.
    pub fn encode(&self) -> (r: Value)
        ensures
            r@ == self@.encode(),
    {
        let out: Vec<(String, Value)> = Vec::new();
        proof {
            assert(obj_view(out@) =~= Seq::<(Seq<char>, ValueView)>::empty());
        }
        Value::Object(out)
    }
}

/// This object must not contain any properties. Its name is reserved for
/// future use.
#[derive(Debug, PartialEq)]
pub struct MercureChannelBinding {}

/// Model of a [`MercureChannelBinding`].
#[verifier::ext_equal]
pub struct MercureChannelBindingView {}

impl View for MercureChannelBinding {
    type V = MercureChannelBindingView;

    open spec fn view(&self) -> MercureChannelBindingView {
        MercureChannelBindingView {  }
    }
}

impl MercureChannelBindingView {
    /// Any object decodes to this empty binding; its fields, if any,
    /// are not kept.
    pub open spec fn decode(v: ValueView) -> Result<MercureChannelBindingView, DecodeError> {
        match v {
            ValueView::Object(entries) => Ok(MercureChannelBindingView {  }),
            _ => Err(DecodeError::StructuralMismatch),
        }
    }

    /// The encoding: an empty object.
    pub open spec fn encode(self) -> ValueView {
        ValueView::Object(Seq::<(Seq<char>, ValueView)>::empty())
    }

    /// There is nothing to be malformed.
    pub open spec fn wf(self) -> bool {
        true
    }

    /// Decoding what this object encodes restores it.
    pub proof fn lemma_round_trip(m: MercureChannelBindingView)
        requires
            m.wf(),
        ensures
            Self::decode(m.encode()) == Ok::<_, DecodeError>(m),
    {
    }
}

impl MercureChannelBinding {
    /// Decodes this object, accepting any object shape.
    pub fn decode(v: &Value) -> (r: Result<MercureChannelBinding, DecodeError>)
        ensures
            match r {
                Ok(m) => MercureChannelBindingView::decode(v@) == Ok::<_, DecodeError>(m@),
                Err(e) => MercureChannelBindingView::decode(v@) == Err::<MercureChannelBindingView, _>(e),
            },
    {
        match v {
            Value::Object(_) => Ok(MercureChannelBinding {  }),
            _ => Err(DecodeError::StructuralMismatch),
        }
    }

    /// Encodes this object: always the empty object.
    pub fn encode(&self) -> (r: Value)
        ensures
            r@ == self@.encode(),
    {
        let out: Vec<(String, Value)> = Vec::new();
        proof {
            assert(obj_view(out@) =~= Seq::<(Seq<char>, ValueView)>::empty());
        }
        Value::Object(out)
    }
}

/// The queue properties of an IBM MQ channel.
#[derive(Debug, PartialEq)]
pub struct IBMMQChannelBindingQueue {
    /// The name of the IBM MQ queue associated with the channel. It
    /// must not exceed 48 characters in length. Required.
    pub object_name: String,
    /// Whether the queue is a cluster queue and therefore partitioned.
    pub is_partitioned: Option<bool>,
    /// Whether it is recommended to open the queue exclusively.
    pub exclusive: Option<bool>,
    /// Unrecognized sibling fields, preserved in source order.
    pub extensions: Vec<(String, Value)>,
}

/// Model of a [`IBMMQChannelBindingQueue`].
#[verifier::ext_equal]
pub struct IBMMQChannelBindingQueueView {
    pub object_name: Seq<char>,
    pub is_partitioned: Option<bool>,
    pub exclusive: Option<bool>,
    pub extensions: Seq<(Seq<char>, ValueView)>,
}

impl View for IBMMQChannelBindingQueue {
    type V = IBMMQChannelBindingQueueView;

    open spec fn view(&self) -> IBMMQChannelBindingQueueView {
        IBMMQChannelBindingQueueView {
            object_name: self.object_name@,
            is_partitioned: self.is_partitioned,
            exclusive: self.exclusive,
            extensions: obj_view(self.extensions@),
        }
    }
}

/// The declared keys are pairwise distinct.
pub proof fn lemma_ibmmq_channel_binding_queue_keys_distinct()
    ensures
        forall|p: int, q: int|
            0 <= p < q < IBMMQChannelBindingQueueView::known_keys().len() ==> IBMMQChannelBindingQueueView::known_keys()[p]
                != IBMMQChannelBindingQueueView::known_keys()[q],
{
    reveal_strlit("objectName");
    reveal_strlit("isPartitioned");
    reveal_strlit("exclusive");
    assert("objectName"@.len() == 10);
    assert("isPartitioned"@.len() == 13);
    assert("exclusive"@.len() == 9);
}

impl IBMMQChannelBindingQueueView {
    /// The declared wire keys.
    pub open spec fn known_keys() -> Seq<Seq<char>> {
        seq!["objectName"@, "isPartitioned"@, "exclusive"@]
    }

    /// Declared fields in output order; absent options and empty
    /// sequences are omitted.
    pub open spec fn field_list(self) -> Seq<(Seq<char>, Option<ValueView>)> {
        seq![
            ("objectName"@, Some(ValueView::Str(self.object_name))),
            ("isPartitioned"@, enc_opt_bool(self.is_partitioned)),
            ("exclusive"@, enc_opt_bool(self.exclusive)),
        ]
    }

    /// No extension key shadows a declared field, and every nested
    /// entity is well formed.
    pub open spec fn wf(self) -> bool {
        &&& forall|j: int|
            0 <= j < self.extensions.len() ==> !Self::known_keys().contains(
                (#[trigger] self.extensions[j]).0,
            )
    }

    /// The encoding: declared fields first, then the extensions.
    pub open spec fn encode(self) -> ValueView {
        ValueView::Object(present_fields(self.field_list()) + self.extensions)
    }

    /// The decoding of a structural value as this object.
    pub open spec fn decode(v: ValueView) -> Result<Self, DecodeError> {
        match v {
            ValueView::Object(entries) => {
                let object_name = dec_req_string(lookup(entries, "objectName"@));
                let is_partitioned = dec_opt_bool(lookup(entries, "isPartitioned"@));
                let exclusive = dec_opt_bool(lookup(entries, "exclusive"@));
                if object_name is Err {
                    Err(object_name->Err_0)
                } else if is_partitioned is Err {
                    Err(is_partitioned->Err_0)
                } else if exclusive is Err {
                    Err(exclusive->Err_0)
                } else {
                    Ok(
                        IBMMQChannelBindingQueueView {
                            object_name: object_name->Ok_0,
                            is_partitioned: is_partitioned->Ok_0,
                            exclusive: exclusive->Ok_0,
                            extensions: ext_of(entries, Self::known_keys()),
                        },
                    )
                }
            },
            _ => Err(DecodeError::StructuralMismatch),
        }
    }

    /// Decoding what a well-formed value encodes restores it exactly,
    /// extensions included.
    pub proof fn lemma_round_trip(m: IBMMQChannelBindingQueueView)
        requires
            m.wf(),
        ensures
            Self::decode(m.encode()) == Ok::<_, DecodeError>(m),
    {
        let fl = m.field_list();
        let keys = IBMMQChannelBindingQueueView::known_keys();
        lemma_ibmmq_channel_binding_queue_keys_distinct();
        assert(forall|p: int| 0 <= p < fl.len() ==> (#[trigger] fl[p]).0 == keys[p]);
        assert(distinct_keys(fl));
        assert(forall|k: Seq<char>| has_field_key(fl, k) ==> keys.contains(k));
        assert(forall|j: int|
            0 <= j < m.extensions.len() ==> !has_field_key(fl, (#[trigger] m.extensions[j]).0));
        lemma_lookup_encoded(fl, m.extensions, 0);
        lemma_lookup_encoded(fl, m.extensions, 1);
        lemma_lookup_encoded(fl, m.extensions, 2);
        lemma_ext_encoded(fl, m.extensions, keys);
        assert(Self::decode(m.encode())->Ok_0 =~= m);
    }
}

impl IBMMQChannelBindingQueue {
    /// Decodes this object; unrecognized keys are collected into
    /// `extensions` in source order.
    pub fn decode(v: &Value) -> (r: Result<IBMMQChannelBindingQueue, DecodeError>)
        ensures
            match r {
                Ok(m) => IBMMQChannelBindingQueueView::decode(v@) == Ok::<_, DecodeError>(m@),
                Err(e) => IBMMQChannelBindingQueueView::decode(v@) == Err::<IBMMQChannelBindingQueueView, _>(e),
            },
    {
        match v {
            Value::Object(entries) => {
                let object_name = match get_req_string(find_field(entries, "objectName")) {
                    Ok(x) => x,
                    Err(e) => { return Err(e) },
                };
                let is_partitioned = match get_opt_bool(find_field(entries, "isPartitioned")) {
                    Ok(x) => x,
                    Err(e) => { return Err(e) },
                };
                let exclusive = match get_opt_bool(find_field(entries, "exclusive")) {
                    Ok(x) => x,
                    Err(e) => { return Err(e) },
                };
                let known: [&str; 3] = [
                    "objectName", "isPartitioned", "exclusive",
                ];
                let ks: &[&str] = known.as_slice();
                let extensions = collect_extensions(entries, ks);
                proof {
                    assert(key_views(ks@) =~= IBMMQChannelBindingQueueView::known_keys());
                }
                Ok(
                    IBMMQChannelBindingQueue {
                        object_name,
                        is_partitioned,
                        exclusive,
                        extensions,
                    },
                )
            },
            _ => Err(DecodeError::StructuralMismatch),
        }
    }

    /// Encodes this object: declared fields, then extensions.
    pub fn encode(&self) -> (r: Value)
        ensures
            r@ == self@.encode(),
    {
        let ghost fl = self@.field_list();
        let mut out: Vec<(String, Value)> = Vec::new();
        proof {
            assert(fl.subrange(0, 0) =~= Seq::<(Seq<char>, Option<ValueView>)>::empty());
            assert(present_fields(fl.subrange(0, 0)) =~= Seq::<(Seq<char>, ValueView)>::empty());
            assert(fl.subrange(0, 1) =~= fl.subrange(0, 0).push(fl[0]));
            lemma_present_fields_snoc(fl.subrange(0, 0), fl[0]);
        }
        push_present(&mut out, "objectName", Value::Str(self.object_name.clone()));
        proof {
            assert(obj_view(out@) =~= present_fields(fl.subrange(0, 1)));
            assert(fl.subrange(0, 2) =~= fl.subrange(0, 1).push(fl[1]));
            lemma_present_fields_snoc(fl.subrange(0, 1), fl[1]);
        }
        if let Some(x) = &self.is_partitioned {
            push_present(&mut out, "isPartitioned", Value::Bool(*x));
        }
        proof {
            assert(obj_view(out@) =~= present_fields(fl.subrange(0, 2)));
            assert(fl.subrange(0, 3) =~= fl.subrange(0, 2).push(fl[2]));
            lemma_present_fields_snoc(fl.subrange(0, 2), fl[2]);
        }
        if let Some(x) = &self.exclusive {
            push_present(&mut out, "exclusive", Value::Bool(*x));
        }
        proof {
            assert(obj_view(out@) =~= present_fields(fl.subrange(0, 3)));
            assert(fl.subrange(0, 3) =~= fl);
        }
        push_entries(&mut out, &self.extensions);
        Value::Object(out)
    }
}

/// The topic properties of an IBM MQ channel.
#[derive(Debug, PartialEq)]
pub struct IBMMQChannelBindingTopic {
    /// The value of the IBM MQ topic string to be used. It must not
    /// exceed 10240 characters in length.
    pub string: Option<String>,
    /// The name of the IBM MQ topic object. It must not exceed 48
    /// characters in length.
    pub object_name: Option<String>,
    /// Whether the subscription may be durable.
    pub durable_permitted: Option<bool>,
    /// Whether the last message published will be made available to new
    /// subscriptions.
    pub last_msg_retained: Option<bool>,
    /// Unrecognized sibling fields, preserved in source order.
    pub extensions: Vec<(String, Value)>,
}

/// Model of a [`IBMMQChannelBindingTopic`].
#[verifier::ext_equal]
pub struct IBMMQChannelBindingTopicView {
    pub string: Option<Seq<char>>,
    pub object_name: Option<Seq<char>>,
    pub durable_permitted: Option<bool>,
    pub last_msg_retained: Option<bool>,
    pub extensions: Seq<(Seq<char>, ValueView)>,
}

impl View for IBMMQChannelBindingTopic {
    type V = IBMMQChannelBindingTopicView;

    open spec fn view(&self) -> IBMMQChannelBindingTopicView {
        IBMMQChannelBindingTopicView {
            string: view_opt_string(self.string),
            object_name: view_opt_string(self.object_name),
            durable_permitted: self.durable_permitted,
            last_msg_retained: self.last_msg_retained,
            extensions: obj_view(self.extensions@),
        }
    }
}

/// The declared keys are pairwise distinct.
pub proof fn lemma_ibmmq_channel_binding_topic_keys_distinct()
    ensures
        forall|p: int, q: int|
            0 <= p < q < IBMMQChannelBindingTopicView::known_keys().len() ==> IBMMQChannelBindingTopicView::known_keys()[p]
                != IBMMQChannelBindingTopicView::known_keys()[q],
{
    reveal_strlit("string");
    reveal_strlit("objectName");
    reveal_strlit("durablePermitted");
    reveal_strlit("lastMsgRetained");
    assert("string"@.len() == 6);
    assert("objectName"@.len() == 10);
    assert("durablePermitted"@.len() == 16);
    assert("lastMsgRetained"@.len() == 15);
}

impl IBMMQChannelBindingTopicView {
    /// The declared wire keys.
    pub open spec fn known_keys() -> Seq<Seq<char>> {
        seq!["string"@, "objectName"@, "durablePermitted"@, "lastMsgRetained"@]
    }

    /// Declared fields in output order; absent options and empty
    /// sequences are omitted.
    pub open spec fn field_list(self) -> Seq<(Seq<char>, Option<ValueView>)> {
        seq![
            ("string"@, enc_opt_string(self.string)),
            ("objectName"@, enc_opt_string(self.object_name)),
            ("durablePermitted"@, enc_opt_bool(self.durable_permitted)),
            ("lastMsgRetained"@, enc_opt_bool(self.last_msg_retained)),
        ]
    }

    /// No extension key shadows a declared field, and every nested
    /// entity is well formed.
    pub open spec fn wf(self) -> bool {
        &&& forall|j: int|
            0 <= j < self.extensions.len() ==> !Self::known_keys().contains(
                (#[trigger] self.extensions[j]).0,
            )
    }

    /// The encoding: declared fields first, then the extensions.
    pub open spec fn encode(self) -> ValueView {
        ValueView::Object(present_fields(self.field_list()) + self.extensions)
    }

    /// The decoding of a structural value as this object.
    pub open spec fn decode(v: ValueView) -> Result<Self, DecodeError> {
        match v {
            ValueView::Object(entries) => {
                let string = dec_opt_string(lookup(entries, "string"@));
                let object_name = dec_opt_string(lookup(entries, "objectName"@));
                let durable_permitted = dec_opt_bool(lookup(entries, "durablePermitted"@));
                let last_msg_retained = dec_opt_bool(lookup(entries, "lastMsgRetained"@));
                if string is Err {
                    Err(string->Err_0)
                } else if object_name is Err {
                    Err(object_name->Err_0)
                } else if durable_permitted is Err {
                    Err(durable_permitted->Err_0)
                } else if last_msg_retained is Err {
                    Err(last_msg_retained->Err_0)
                } else {
                    Ok(
                        IBMMQChannelBindingTopicView {
                            string: string->Ok_0,
                            object_name: object_name->Ok_0,
                            durable_permitted: durable_permitted->Ok_0,
                            last_msg_retained: last_msg_retained->Ok_0,
                            extensions: ext_of(entries, Self::known_keys()),
                        },
                    )
                }
            },
            _ => Err(DecodeError::StructuralMismatch),
        }
    }

    /// Decoding what a well-formed value encodes restores it exactly,
    /// extensions included.
    #[verifier::rlimit(100)]
    pub proof fn lemma_round_trip(m: IBMMQChannelBindingTopicView)
        requires
            m.wf(),
        ensures
            Self::decode(m.encode()) == Ok::<_, DecodeError>(m),
    {
        let fl = m.field_list();
        let keys = IBMMQChannelBindingTopicView::known_keys();
        lemma_ibmmq_channel_binding_topic_keys_distinct();
        assert(forall|p: int| 0 <= p < fl.len() ==> (#[trigger] fl[p]).0 == keys[p]);
        assert(distinct_keys(fl));
        assert(forall|k: Seq<char>| has_field_key(fl, k) ==> keys.contains(k));
        assert(forall|j: int|
            0 <= j < m.extensions.len() ==> !has_field_key(fl, (#[trigger] m.extensions[j]).0));
        lemma_lookup_encoded(fl, m.extensions, 0);
        lemma_lookup_encoded(fl, m.extensions, 1);
        lemma_lookup_encoded(fl, m.extensions, 2);
        lemma_lookup_encoded(fl, m.extensions, 3);
        lemma_ext_encoded(fl, m.extensions, keys);
        assert(Self::decode(m.encode())->Ok_0 =~= m);
    }
}

impl IBMMQChannelBindingTopic {
    /// Decodes this object; unrecognized keys are collected into
    /// `extensions` in source order.
    #[verifier::rlimit(100)]
    pub fn decode(v: &Value) -> (r: Result<IBMMQChannelBindingTopic, DecodeError>)
        ensures
            match r {
                Ok(m) => IBMMQChannelBindingTopicView::decode(v@) == Ok::<_, DecodeError>(m@),
                Err(e) => IBMMQChannelBindingTopicView::decode(v@) == Err::<IBMMQChannelBindingTopicView, _>(e),
            },
    {
        match v {
            Value::Object(entries) => {
                let string = match get_opt_string(find_field(entries, "string")) {
                    Ok(x) => x,
                    Err(e) => { return Err(e) },
                };
                let object_name = match get_opt_string(find_field(entries, "objectName")) {
                    Ok(x) => x,
                    Err(e) => { return Err(e) },
                };
                let durable_permitted = match get_opt_bool(find_field(entries, "durablePermitted")) {
                    Ok(x) => x,
                    Err(e) => { return Err(e) },
                };
                let last_msg_retained = match get_opt_bool(find_field(entries, "lastMsgRetained")) {
                    Ok(x) => x,
                    Err(e) => { return Err(e) },
                };
                let known: [&str; 4] = [
                    "string", "objectName", "durablePermitted", "lastMsgRetained",
                ];
                let ks: &[&str] = known.as_slice();
                let extensions = collect_extensions(entries, ks);
                proof {
                    assert(key_views(ks@) =~= IBMMQChannelBindingTopicView::known_keys());
                }
                Ok(
                    IBMMQChannelBindingTopic {
                        string,
                        object_name,
                        durable_permitted,
                        last_msg_retained,
                        extensions,
                    },
                )
            },
            _ => Err(DecodeError::StructuralMismatch),
        }
    }

    /// Encodes this object: declared fields, then extensions.
    #[verifier::rlimit(100)]
    pub fn encode(&self) -> (r: Value)
        ensures
            r@ == self@.encode(),
    {
        let ghost fl = self@.field_list();
        let mut out: Vec<(String, Value)> = Vec::new();
        proof {
            assert(fl.subrange(0, 0) =~= Seq::<(Seq<char>, Option<ValueView>)>::empty());
            assert(present_fields(fl.subrange(0, 0)) =~= Seq::<(Seq<char>, ValueView)>::empty());
            assert(fl.subrange(0, 1) =~= fl.subrange(0, 0).push(fl[0]));
            lemma_present_fields_snoc(fl.subrange(0, 0), fl[0]);
        }
        if let Some(x) = &self.string {
            push_present(&mut out, "string", Value::Str(x.clone()));
        }
        proof {
            assert(obj_view(out@) =~= present_fields(fl.subrange(0, 1)));
            assert(fl.subrange(0, 2) =~= fl.subrange(0, 1).push(fl[1]));
            lemma_present_fields_snoc(fl.subrange(0, 1), fl[1]);
        }
        if let Some(x) = &self.object_name {
            push_present(&mut out, "objectName", Value::Str(x.clone()));
        }
        proof {
            assert(obj_view(out@) =~= present_fields(fl.subrange(0, 2)));
            assert(fl.subrange(0, 3) =~= fl.subrange(0, 2).push(fl[2]));
            lemma_present_fields_snoc(fl.subrange(0, 2), fl[2]);
        }
        if let Some(x) = &self.durable_permitted {
            push_present(&mut out, "durablePermitted", Value::Bool(*x));
        }
        proof {
            assert(obj_view(out@) =~= present_fields(fl.subrange(0, 3)));
            assert(fl.subrange(0, 4) =~= fl.subrange(0, 3).push(fl[3]));
            lemma_present_fields_snoc(fl.subrange(0, 3), fl[3]);
        }
        if let Some(x) = &self.last_msg_retained {
            push_present(&mut out, "lastMsgRetained", Value::Bool(*x));
        }
        proof {
            assert(obj_view(out@) =~= present_fields(fl.subrange(0, 4)));
            assert(fl.subrange(0, 4) =~= fl);
        }
        push_entries(&mut out, &self.extensions);
        Value::Object(out)
    }
}

/// Information about the channel representation in IBM MQ. Each channel
/// corresponds to a queue or topic within IBM MQ.
#[derive(Debug, PartialEq)]
pub struct IBMMQChannelBinding {
    /// The type of AsyncAPI channel: either `topic` or `queue`.
    pub destination_type: Option<String>,
    /// The properties of a queue. The `queue` and `topic` fields must
    /// not coexist within a channel binding.
    pub queue: Option<IBMMQChannelBindingQueue>,
    /// The properties of a topic. The `queue` and `topic` fields must
    /// not coexist within a channel binding.
    pub topic: Option<IBMMQChannelBindingTopic>,
    /// The maximum length of the physical message, in bytes, accepted
    /// by the topic or queue.
    pub max_msg_length: Option<i32>,
    /// The version of this binding.
    pub binding_version: Option<String>,
    /// Unrecognized sibling fields, preserved in source order.
    pub extensions: Vec<(String, Value)>,
}

/// Model of a [`IBMMQChannelBinding`].
#[verifier::ext_equal]
pub struct IBMMQChannelBindingView {
    pub destination_type: Option<Seq<char>>,
    pub queue: Option<IBMMQChannelBindingQueueView>,
    pub topic: Option<IBMMQChannelBindingTopicView>,
    pub max_msg_length: Option<i32>,
    pub binding_version: Option<Seq<char>>,
    pub extensions: Seq<(Seq<char>, ValueView)>,
}

impl View for IBMMQChannelBinding {
    type V = IBMMQChannelBindingView;

    open spec fn view(&self) -> IBMMQChannelBindingView {
        IBMMQChannelBindingView {
            destination_type: view_opt_string(self.destination_type),
            queue: match self.queue {
                None => None,
                Some(x) => Some(x@),
            },
            topic: match self.topic {
                None => None,
                Some(x) => Some(x@),
            },
            max_msg_length: self.max_msg_length,
            binding_version: view_opt_string(self.binding_version),
            extensions: obj_view(self.extensions@),
        }
    }
}

/// The declared keys are pairwise distinct.
pub proof fn lemma_ibmmq_channel_binding_keys_distinct()
    ensures
        forall|p: int, q: int|
            0 <= p < q < IBMMQChannelBindingView::known_keys().len() ==> IBMMQChannelBindingView::known_keys()[p]
                != IBMMQChannelBindingView::known_keys()[q],
{
    reveal_strlit("destinationType");
    reveal_strlit("queue");
    reveal_strlit("topic");
    reveal_strlit("maxMsgLength");
    reveal_strlit("bindingVersion");
    assert("destinationType"@.len() == 15);
    assert("queue"@.len() == 5);
    assert("topic"@.len() == 5);
    assert("maxMsgLength"@.len() == 12);
    assert("bindingVersion"@.len() == 14);
    assert("queue"@[0] == 'q');
    assert("topic"@[0] == 't');
}

impl IBMMQChannelBindingView {
    /// The declared wire keys.
    pub open spec fn known_keys() -> Seq<Seq<char>> {
        seq!["destinationType"@, "queue"@, "topic"@, "maxMsgLength"@, "bindingVersion"@]
    }

    /// Declared fields in output order; absent options and empty
    /// sequences are omitted.
    pub open spec fn field_list(self) -> Seq<(Seq<char>, Option<ValueView>)> {
        seq![
            ("destinationType"@, enc_opt_string(self.destination_type)),
            ("queue"@, match self.queue {
                None => None,
                Some(m) => Some(m.encode()),
            }),
            ("topic"@, match self.topic {
                None => None,
                Some(m) => Some(m.encode()),
            }),
            ("maxMsgLength"@, enc_opt_i32(self.max_msg_length)),
            ("bindingVersion"@, enc_opt_string(self.binding_version)),
        ]
    }

    /// No extension key shadows a declared field, and every nested
    /// entity is well formed.
    pub open spec fn wf(self) -> bool {
        &&& forall|j: int|
            0 <= j < self.extensions.len() ==> !Self::known_keys().contains(
                (#[trigger] self.extensions[j]).0,
            )
        &&& match self.queue {
            None => true,
            Some(m) => m.wf(),
        }
        &&& match self.topic {
            None => true,
            Some(m) => m.wf(),
        }
    }

    /// The encoding: declared fields first, then the extensions.
    pub open spec fn encode(self) -> ValueView {
        ValueView::Object(present_fields(self.field_list()) + self.extensions)
    }

    /// The decoding of a structural value as this object.
    pub open spec fn decode(v: ValueView) -> Result<Self, DecodeError> {
        match v {
            ValueView::Object(entries) => {
                let destination_type = dec_opt_string(lookup(entries, "destinationType"@));
                let queue = match lookup(entries, "queue"@) {
                    None => Ok(None),
                    Some(pv) => match IBMMQChannelBindingQueueView::decode(pv) {
                        Ok(m) => Ok(Some(m)),
                        Err(e) => Err(e),
                    },
                };
                let topic = match lookup(entries, "topic"@) {
                    None => Ok(None),
                    Some(pv) => match IBMMQChannelBindingTopicView::decode(pv) {
                        Ok(m) => Ok(Some(m)),
                        Err(e) => Err(e),
                    },
                };
                let max_msg_length = dec_opt_i32(lookup(entries, "maxMsgLength"@));
                let binding_version = dec_opt_string(lookup(entries, "bindingVersion"@));
                if destination_type is Err {
                    Err(destination_type->Err_0)
                } else if queue is Err {
                    Err(queue->Err_0)
                } else if topic is Err {
                    Err(topic->Err_0)
                } else if max_msg_length is Err {
                    Err(max_msg_length->Err_0)
                } else if binding_version is Err {
                    Err(binding_version->Err_0)
                } else {
                    Ok(
                        IBMMQChannelBindingView {
                            destination_type: destination_type->Ok_0,
                            queue: queue->Ok_0,
                            topic: topic->Ok_0,
                            max_msg_length: max_msg_length->Ok_0,
                            binding_version: binding_version->Ok_0,
                            extensions: ext_of(entries, Self::known_keys()),
                        },
                    )
                }
            },
            _ => Err(DecodeError::StructuralMismatch),
        }
    }

    /// Decoding what a well-formed value encodes restores it exactly,
    /// extensions included.
    #[verifier::rlimit(100)]
    pub proof fn lemma_round_trip(m: IBMMQChannelBindingView)
        requires
            m.wf(),
        ensures
            Self::decode(m.encode()) == Ok::<_, DecodeError>(m),
    {
        let fl = m.field_list();
        let keys = IBMMQChannelBindingView::known_keys();
        lemma_ibmmq_channel_binding_keys_distinct();
        assert(forall|p: int| 0 <= p < fl.len() ==> (#[trigger] fl[p]).0 == keys[p]);
        assert(distinct_keys(fl));
        assert(forall|k: Seq<char>| has_field_key(fl, k) ==> keys.contains(k));
        assert(forall|j: int|
            0 <= j < m.extensions.len() ==> !has_field_key(fl, (#[trigger] m.extensions[j]).0));
        lemma_lookup_encoded(fl, m.extensions, 0);
        lemma_lookup_encoded(fl, m.extensions, 1);
        lemma_lookup_encoded(fl, m.extensions, 2);
        lemma_lookup_encoded(fl, m.extensions, 3);
        lemma_lookup_encoded(fl, m.extensions, 4);
        lemma_ext_encoded(fl, m.extensions, keys);
        match m.queue {
            None => {},
            Some(x) => {
                IBMMQChannelBindingQueueView::lemma_round_trip(x);
            },
        }
        match m.topic {
            None => {},
            Some(x) => {
                IBMMQChannelBindingTopicView::lemma_round_trip(x);
            },
        }
        assert(Self::decode(m.encode())->Ok_0 =~= m);
    }
}

impl IBMMQChannelBinding {
    /// Decodes this object; unrecognized keys are collected into
    /// `extensions` in source order.
    #[verifier::rlimit(100)]
    pub fn decode(v: &Value) -> (r: Result<IBMMQChannelBinding, DecodeError>)
        ensures
            match r {
                Ok(m) => IBMMQChannelBindingView::decode(v@) == Ok::<_, DecodeError>(m@),
                Err(e) => IBMMQChannelBindingView::decode(v@) == Err::<IBMMQChannelBindingView, _>(e),
            },
    {
        match v {
            Value::Object(entries) => {
                let destination_type = match get_opt_string(find_field(entries, "destinationType")) {
                    Ok(x) => x,
                    Err(e) => { return Err(e) },
                };
                let queue = match find_field(entries, "queue") {
                    None => None,
                    Some(x) => match IBMMQChannelBindingQueue::decode(x) {
                        Ok(m) => Some(m),
                        Err(e) => { return Err(e) },
                    },
                };
                let topic = match find_field(entries, "topic") {
                    None => None,
                    Some(x) => match IBMMQChannelBindingTopic::decode(x) {
                        Ok(m) => Some(m),
                        Err(e) => { return Err(e) },
                    },
                };
                let max_msg_length = match get_opt_i32(find_field(entries, "maxMsgLength")) {
                    Ok(x) => x,
                    Err(e) => { return Err(e) },
                };
                let binding_version = match get_opt_string(find_field(entries, "bindingVersion")) {
                    Ok(x) => x,
                    Err(e) => { return Err(e) },
                };
                let known: [&str; 5] = [
                    "destinationType", "queue", "topic", "maxMsgLength", "bindingVersion",
                ];
                let ks: &[&str] = known.as_slice();
                let extensions = collect_extensions(entries, ks);
                proof {
                    assert(key_views(ks@) =~= IBMMQChannelBindingView::known_keys());
                }
                Ok(
                    IBMMQChannelBinding {
                        destination_type,
                        queue,
                        topic,
                        max_msg_length,
                        binding_version,
                        extensions,
                    },
                )
            },
            _ => Err(DecodeError::StructuralMismatch),
        }
    }

    /// Encodes this object: declared fields, then extensions.
    #[verifier::rlimit(100)]
    pub fn encode(&self) -> (r: Value)
        ensures
            r@ == self@.encode(),
    {
        let ghost fl = self@.field_list();
        let mut out: Vec<(String, Value)> = Vec::new();
        proof {
            assert(fl.subrange(0, 0) =~= Seq::<(Seq<char>, Option<ValueView>)>::empty());
            assert(present_fields(fl.subrange(0, 0)) =~= Seq::<(Seq<char>, ValueView)>::empty());
            assert(fl.subrange(0, 1) =~= fl.subrange(0, 0).push(fl[0]));
            lemma_present_fields_snoc(fl.subrange(0, 0), fl[0]);
        }
        if let Some(x) = &self.destination_type {
            push_present(&mut out, "destinationType", Value::Str(x.clone()));
        }
        proof {
            assert(obj_view(out@) =~= present_fields(fl.subrange(0, 1)));
            assert(fl.subrange(0, 2) =~= fl.subrange(0, 1).push(fl[1]));
            lemma_present_fields_snoc(fl.subrange(0, 1), fl[1]);
        }
        if let Some(m) = &self.queue {
            let ev = m.encode();
            push_present(&mut out, "queue", ev);
        }
        proof {
            assert(obj_view(out@) =~= present_fields(fl.subrange(0, 2)));
            assert(fl.subrange(0, 3) =~= fl.subrange(0, 2).push(fl[2]));
            lemma_present_fields_snoc(fl.subrange(0, 2), fl[2]);
        }
        if let Some(m) = &self.topic {
            let ev = m.encode();
            push_present(&mut out, "topic", ev);
        }
        proof {
            assert(obj_view(out@) =~= present_fields(fl.subrange(0, 3)));
            assert(fl.subrange(0, 4) =~= fl.subrange(0, 3).push(fl[3]));
            lemma_present_fields_snoc(fl.subrange(0, 3), fl[3]);
        }
        if let Some(x) = &self.max_msg_length {
            push_present(&mut out, "maxMsgLength", Value::Int(*x as i64));
        }
        proof {
            assert(obj_view(out@) =~= present_fields(fl.subrange(0, 4)));
            assert(fl.subrange(0, 5) =~= fl.subrange(0, 4).push(fl[4]));
            lemma_present_fields_snoc(fl.subrange(0, 4), fl[4]);
        }
        if let Some(x) = &self.binding_version {
            push_present(&mut out, "bindingVersion", Value::Str(x.clone()));
        }
        proof {
            assert(obj_view(out@) =~= present_fields(fl.subrange(0, 5)));
            assert(fl.subrange(0, 5) =~= fl);
        }
        push_entries(&mut out, &self.extensions);
        Value::Object(out)
    }
}

/// Protocol-specific definitions for a channel: one optional slot per
/// known protocol, plus the extensions for protocols outside the known
/// set.
#[derive(Debug, PartialEq)]
pub struct ChannelBinding {
    /// Protocol-specific information for an HTTP channel.
    pub http: Option<HTTPChannelBinding>,
    /// Protocol-specific information for a WebSockets channel.
    pub ws: Option<WebsocketsChannelBinding>,
    /// Protocol-specific information for a Kafka channel.
    pub kafka: Option<KafkaChannelBinding>,
    /// Protocol-specific information for an AMQP 0-9-1 channel.
    pub amqp: Option<AMQPChannelBinding>,
    /// Protocol-specific information for an AMQP 1.0 channel.
    pub amqp1: Option<AMQPChannelBinding>,
    /// Protocol-specific information for an MQTT channel.
    pub mqtt: Option<MQTTChannelBinding>,
    /// Protocol-specific information for an MQTT 5 channel.
    pub mqtt5: Option<MQTT5ChannelBinding>,
    /// Protocol-specific information for a NATS channel.
    pub nats: Option<NATSChannelBinding>,
    /// Protocol-specific information for a JMS channel.
    pub jms: Option<JMSChannelBinding>,
    /// Protocol-specific information for an SNS channel.
    pub sns: Option<SNSChannelBinding>,
    /// Protocol-specific information for an SQS channel.
    pub sqs: Option<SQSChannelBinding>,
    /// Protocol-specific information for a STOMP channel.
    pub stomp: Option<STOMPChannelBinding>,
    /// Protocol-specific information for a Redis channel.
    pub redis: Option<RedisChannelBinding>,
    /// Protocol-specific information for a Mercure channel.
    pub mercure: Option<MercureChannelBinding>,
    /// Protocol-specific information for an IBM MQ channel.
    pub ibmmq: Option<IBMMQChannelBinding>,
    /// Unrecognized sibling fields, preserved in source order.
    pub extensions: Vec<(String, Value)>,
}

/// Model of a [`ChannelBinding`].
#[verifier::ext_equal]
pub struct ChannelBindingView {
    pub http: Option<HTTPChannelBindingView>,
    pub ws: Option<WebsocketsChannelBindingView>,
    pub kafka: Option<KafkaChannelBindingView>,
    pub amqp: Option<AMQPChannelBindingView>,
    pub amqp1: Option<AMQPChannelBindingView>,
    pub mqtt: Option<MQTTChannelBindingView>,
    pub mqtt5: Option<MQTT5ChannelBindingView>,
    pub nats: Option<NATSChannelBindingView>,
    pub jms: Option<JMSChannelBindingView>,
    pub sns: Option<SNSChannelBindingView>,
    pub sqs: Option<SQSChannelBindingView>,
    pub stomp: Option<STOMPChannelBindingView>,
    pub redis: Option<RedisChannelBindingView>,
    pub mercure: Option<MercureChannelBindingView>,
    pub ibmmq: Option<IBMMQChannelBindingView>,
    pub extensions: Seq<(Seq<char>, ValueView)>,
}

impl View for ChannelBinding {
    type V = ChannelBindingView;

    open spec fn view(&self) -> ChannelBindingView {
        ChannelBindingView {
            http: match self.http {
                None => None,
                Some(x) => Some(x@),
            },
            ws: match self.ws {
                None => None,
                Some(x) => Some(x@),
            },
            kafka: match self.kafka {
                None => None,
                Some(x) => Some(x@),
            },
            amqp: match self.amqp {
                None => None,
                Some(x) => Some(x@),
            },
            amqp1: match self.amqp1 {
                None => None,
                Some(x) => Some(x@),
            },
            mqtt: match self.mqtt {
                None => None,
                Some(x) => Some(x@),
            },
            mqtt5: match self.mqtt5 {
                None => None,
                Some(x) => Some(x@),
            },
            nats: match self.nats {
                None => None,
                Some(x) => Some(x@),
            },
            jms: match self.jms {
                None => None,
                Some(x) => Some(x@),
            },
            sns: match self.sns {
                None => None,
                Some(x) => Some(x@),
            },
            sqs: match self.sqs {
                None => None,
                Some(x) => Some(x@),
            },
            stomp: match self.stomp {
                None => None,
                Some(x) => Some(x@),
            },
            redis: match self.redis {
                None => None,
                Some(x) => Some(x@),
            },
            mercure: match self.mercure {
                None => None,
                Some(x) => Some(x@),
            },
            ibmmq: match self.ibmmq {
                None => None,
                Some(x) => Some(x@),
            },
            extensions: obj_view(self.extensions@),
        }
    }
}

/// The declared keys are pairwise distinct.
pub proof fn lemma_channel_binding_keys_distinct()
    ensures
        forall|p: int, q: int|
            0 <= p < q < ChannelBindingView::known_keys().len() ==> ChannelBindingView::known_keys()[p]
                != ChannelBindingView::known_keys()[q],
{
    reveal_strlit("http");
    reveal_strlit("ws");
    reveal_strlit("kafka");
    reveal_strlit("amqp");
    reveal_strlit("amqp1");
    reveal_strlit("mqtt");
    reveal_strlit("mqtt5");
    reveal_strlit("nats");
    reveal_strlit("jms");
    reveal_strlit("sns");
    reveal_strlit("sqs");
    reveal_strlit("stomp");
    reveal_strlit("redis");
    reveal_strlit("mercure");
    reveal_strlit("ibmmq");
    assert("http"@.len() == 4);
    assert("ws"@.len() == 2);
    assert("kafka"@.len() == 5);
    assert("amqp"@.len() == 4);
    assert("amqp1"@.len() == 5);
    assert("mqtt"@.len() == 4);
    assert("mqtt5"@.len() == 5);
    assert("nats"@.len() == 4);
    assert("jms"@.len() == 3);
    assert("sns"@.len() == 3);
    assert("sqs"@.len() == 3);
    assert("stomp"@.len() == 5);
    assert("redis"@.len() == 5);
    assert("mercure"@.len() == 7);
    assert("ibmmq"@.len() == 5);
    assert("http"@[0] == 'h');
    assert("amqp"@[0] == 'a');
    assert("mqtt"@[0] == 'm');
    assert("nats"@[0] == 'n');
    assert("kafka"@[0] == 'k');
    assert("amqp1"@[0] == 'a');
    assert("mqtt5"@[0] == 'm');
    assert("stomp"@[0] == 's');
    assert("redis"@[0] == 'r');
    assert("ibmmq"@[0] == 'i');
    assert("jms"@[0] == 'j');
    assert("sns"@[0] == 's');
    assert("sqs"@[0] == 's');
    assert("sns"@[1] == 'n');
    assert("sqs"@[1] == 'q');
}

/// The decoding of the `http` protocol slot.
#[verifier::opaque]
pub open spec fn dec_slot_http(entries: Seq<(Seq<char>, ValueView)>) -> Result<
    Option<HTTPChannelBindingView>,
    DecodeError,
> {
    match lookup(entries, "http"@) {
        None => Ok(None),
        Some(pv) => match HTTPChannelBindingView::decode(pv) {
            Ok(m) => Ok(Some(m)),
            Err(e) => Err(e),
        },
    }
}

/// Decodes the `http` protocol slot.
fn decode_slot_http(entries: &Vec<(String, Value)>) -> (r: Result<Option<HTTPChannelBinding>, DecodeError>)
    ensures
        match r {
            Ok(x) => dec_slot_http(obj_view(entries@)) == Ok::<_, DecodeError>(
                match x {
                    None => None,
                    Some(m) => Some(m@),
                },
            ),
            Err(e) => dec_slot_http(obj_view(entries@)) == Err::<Option<HTTPChannelBindingView>, _>(e),
        },
{
    proof {
        reveal(dec_slot_http);
    }
    match find_field(entries, "http") {
        None => Ok(None),
        Some(v) => match HTTPChannelBinding::decode(v) {
            Ok(m) => Ok(Some(m)),
            Err(e) => Err(e),
        },
    }
}

/// The decoding of the `ws` protocol slot.
#[verifier::opaque]
pub open spec fn dec_slot_ws(entries: Seq<(Seq<char>, ValueView)>) -> Result<
    Option<WebsocketsChannelBindingView>,
    DecodeError,
> {
    match lookup(entries, "ws"@) {
        None => Ok(None),
        Some(pv) => match WebsocketsChannelBindingView::decode(pv) {
            Ok(m) => Ok(Some(m)),
            Err(e) => Err(e),
        },
    }
}

/// Decodes the `ws` protocol slot.
fn decode_slot_ws(entries: &Vec<(String, Value)>) -> (r: Result<Option<WebsocketsChannelBinding>, DecodeError>)
    ensures
        match r {
            Ok(x) => dec_slot_ws(obj_view(entries@)) == Ok::<_, DecodeError>(
                match x {
                    None => None,
                    Some(m) => Some(m@),
                },
            ),
            Err(e) => dec_slot_ws(obj_view(entries@)) == Err::<Option<WebsocketsChannelBindingView>, _>(e),
        },
{
    proof {
        reveal(dec_slot_ws);
    }
    match find_field(entries, "ws") {
        None => Ok(None),
        Some(v) => match WebsocketsChannelBinding::decode(v) {
            Ok(m) => Ok(Some(m)),
            Err(e) => Err(e),
        },
    }
}

/// The decoding of the `kafka` protocol slot.
#[verifier::opaque]
pub open spec fn dec_slot_kafka(entries: Seq<(Seq<char>, ValueView)>) -> Result<
    Option<KafkaChannelBindingView>,
    DecodeError,
> {
    match lookup(entries, "kafka"@) {
        None => Ok(None),
        Some(pv) => match KafkaChannelBindingView::decode(pv) {
            Ok(m) => Ok(Some(m)),
            Err(e) => Err(e),
        },
    }
}

/// Decodes the `kafka` protocol slot.
fn decode_slot_kafka(entries: &Vec<(String, Value)>) -> (r: Result<Option<KafkaChannelBinding>, DecodeError>)
    ensures
        match r {
            Ok(x) => dec_slot_kafka(obj_view(entries@)) == Ok::<_, DecodeError>(
                match x {
                    None => None,
                    Some(m) => Some(m@),
                },
            ),
            Err(e) => dec_slot_kafka(obj_view(entries@)) == Err::<Option<KafkaChannelBindingView>, _>(e),
        },
{
    proof {
        reveal(dec_slot_kafka);
    }
    match find_field(entries, "kafka") {
        None => Ok(None),
        Some(v) => match KafkaChannelBinding::decode(v) {
            Ok(m) => Ok(Some(m)),
            Err(e) => Err(e),
        },
    }
}

/// The decoding of the `amqp` protocol slot.
#[verifier::opaque]
pub open spec fn dec_slot_amqp(entries: Seq<(Seq<char>, ValueView)>) -> Result<
    Option<AMQPChannelBindingView>,
    DecodeError,
> {
    match lookup(entries, "amqp"@) {
        None => Ok(None),
        Some(pv) => match AMQPChannelBindingView::decode(pv) {
            Ok(m) => Ok(Some(m)),
            Err(e) => Err(e),
        },
    }
}

/// Decodes the `amqp` protocol slot.
fn decode_slot_amqp(entries: &Vec<(String, Value)>) -> (r: Result<Option<AMQPChannelBinding>, DecodeError>)
    ensures
        match r {
            Ok(x) => dec_slot_amqp(obj_view(entries@)) == Ok::<_, DecodeError>(
                match x {
                    None => None,
                    Some(m) => Some(m@),
                },
            ),
            Err(e) => dec_slot_amqp(obj_view(entries@)) == Err::<Option<AMQPChannelBindingView>, _>(e),
        },
{
    proof {
        reveal(dec_slot_amqp);
    }
    match find_field(entries, "amqp") {
        None => Ok(None),
        Some(v) => match AMQPChannelBinding::decode(v) {
            Ok(m) => Ok(Some(m)),
            Err(e) => Err(e),
        },
    }
}

/// The decoding of the `amqp1` protocol slot.
#[verifier::opaque]
pub open spec fn dec_slot_amqp1(entries: Seq<(Seq<char>, ValueView)>) -> Result<
    Option<AMQPChannelBindingView>,
    DecodeError,
> {
    match lookup(entries, "amqp1"@) {
        None => Ok(None),
        Some(pv) => match AMQPChannelBindingView::decode(pv) {
            Ok(m) => Ok(Some(m)),
            Err(e) => Err(e),
        },
    }
}

/// Decodes the `amqp1` protocol slot.
fn decode_slot_amqp1(entries: &Vec<(String, Value)>) -> (r: Result<Option<AMQPChannelBinding>, DecodeError>)
    ensures
        match r {
            Ok(x) => dec_slot_amqp1(obj_view(entries@)) == Ok::<_, DecodeError>(
                match x {
                    None => None,
                    Some(m) => Some(m@),
                },
            ),
            Err(e) => dec_slot_amqp1(obj_view(entries@)) == Err::<Option<AMQPChannelBindingView>, _>(e),
        },
{
    proof {
        reveal(dec_slot_amqp1);
    }
    match find_field(entries, "amqp1") {
        None => Ok(None),
        Some(v) => match AMQPChannelBinding::decode(v) {
            Ok(m) => Ok(Some(m)),
            Err(e) => Err(e),
        },
    }
}

/// The decoding of the `mqtt` protocol slot.
#[verifier::opaque]
pub open spec fn dec_slot_mqtt(entries: Seq<(Seq<char>, ValueView)>) -> Result<
    Option<MQTTChannelBindingView>,
    DecodeError,
> {
    match lookup(entries, "mqtt"@) {
        None => Ok(None),
        Some(pv) => match MQTTChannelBindingView::decode(pv) {
            Ok(m) => Ok(Some(m)),
            Err(e) => Err(e),
        },
    }
}

/// Decodes the `mqtt` protocol slot.
fn decode_slot_mqtt(entries: &Vec<(String, Value)>) -> (r: Result<Option<MQTTChannelBinding>, DecodeError>)
    ensures
        match r {
            Ok(x) => dec_slot_mqtt(obj_view(entries@)) == Ok::<_, DecodeError>(
                match x {
                    None => None,
                    Some(m) => Some(m@),
                },
            ),
            Err(e) => dec_slot_mqtt(obj_view(entries@)) == Err::<Option<MQTTChannelBindingView>, _>(e),
        },
{
    proof {
        reveal(dec_slot_mqtt);
    }
    match find_field(entries, "mqtt") {
        None => Ok(None),
        Some(v) => match MQTTChannelBinding::decode(v) {
            Ok(m) => Ok(Some(m)),
            Err(e) => Err(e),
        },
    }
}

/// The decoding of the `mqtt5` protocol slot.
#[verifier::opaque]
pub open spec fn dec_slot_mqtt5(entries: Seq<(Seq<char>, ValueView)>) -> Result<
    Option<MQTT5ChannelBindingView>,
    DecodeError,
> {
    match lookup(entries, "mqtt5"@) {
        None => Ok(None),
        Some(pv) => match MQTT5ChannelBindingView::decode(pv) {
            Ok(m) => Ok(Some(m)),
            Err(e) => Err(e),
        },
    }
}

/// Decodes the `mqtt5` protocol slot.
fn decode_slot_mqtt5(entries: &Vec<(String, Value)>) -> (r: Result<Option<MQTT5ChannelBinding>, DecodeError>)
    ensures
        match r {
            Ok(x) => dec_slot_mqtt5(obj_view(entries@)) == Ok::<_, DecodeError>(
                match x {
                    None => None,
                    Some(m) => Some(m@),
                },
            ),
            Err(e) => dec_slot_mqtt5(obj_view(entries@)) == Err::<Option<MQTT5ChannelBindingView>, _>(e),
        },
{
    proof {
        reveal(dec_slot_mqtt5);
    }
    match find_field(entries, "mqtt5") {
        None => Ok(None),
        Some(v) => match MQTT5ChannelBinding::decode(v) {
            Ok(m) => Ok(Some(m)),
            Err(e) => Err(e),
        },
    }
}

/// The decoding of the `nats` protocol slot.
#[verifier::opaque]
pub open spec fn dec_slot_nats(entries: Seq<(Seq<char>, ValueView)>) -> Result<
    Option<NATSChannelBindingView>,
    DecodeError,
> {
    match lookup(entries, "nats"@) {
        None => Ok(None),
        Some(pv) => match NATSChannelBindingView::decode(pv) {
            Ok(m) => Ok(Some(m)),
            Err(e) => Err(e),
        },
    }
}

/// Decodes the `nats` protocol slot.
fn decode_slot_nats(entries: &Vec<(String, Value)>) -> (r: Result<Option<NATSChannelBinding>, DecodeError>)
    ensures
        match r {
            Ok(x) => dec_slot_nats(obj_view(entries@)) == Ok::<_, DecodeError>(
                match x {
                    None => None,
                    Some(m) => Some(m@),
                },
            ),
            Err(e) => dec_slot_nats(obj_view(entries@)) == Err::<Option<NATSChannelBindingView>, _>(e),
        },
{
    proof {
        reveal(dec_slot_nats);
    }
    match find_field(entries, "nats") {
        None => Ok(None),
        Some(v) => match NATSChannelBinding::decode(v) {
            Ok(m) => Ok(Some(m)),
            Err(e) => Err(e),
        },
    }
}

/// The decoding of the `jms` protocol slot.
#[verifier::opaque]
pub open spec fn dec_slot_jms(entries: Seq<(Seq<char>, ValueView)>) -> Result<
    Option<JMSChannelBindingView>,
    DecodeError,
> {
    match lookup(entries, "jms"@) {
        None => Ok(None),
        Some(pv) => match JMSChannelBindingView::decode(pv) {
            Ok(m) => Ok(Some(m)),
            Err(e) => Err(e),
        },
    }
}

/// Decodes the `jms` protocol slot.
fn decode_slot_jms(entries: &Vec<(String, Value)>) -> (r: Result<Option<JMSChannelBinding>, DecodeError>)
    ensures
        match r {
            Ok(x) => dec_slot_jms(obj_view(entries@)) == Ok::<_, DecodeError>(
                match x {
                    None => None,
                    Some(m) => Some(m@),
                },
            ),
            Err(e) => dec_slot_jms(obj_view(entries@)) == Err::<Option<JMSChannelBindingView>, _>(e),
        },
{
    proof {
        reveal(dec_slot_jms);
    }
    match find_field(entries, "jms") {
        None => Ok(None),
        Some(v) => match JMSChannelBinding::decode(v) {
            Ok(m) => Ok(Some(m)),
            Err(e) => Err(e),
        },
    }
}

/// The decoding of the `sns` protocol slot.
#[verifier::opaque]
pub open spec fn dec_slot_sns(entries: Seq<(Seq<char>, ValueView)>) -> Result<
    Option<SNSChannelBindingView>,
    DecodeError,
> {
    match lookup(entries, "sns"@) {
        None => Ok(None),
        Some(pv) => match SNSChannelBindingView::decode(pv) {
            Ok(m) => Ok(Some(m)),
            Err(e) => Err(e),
        },
    }
}

/// Decodes the `sns` protocol slot.
fn decode_slot_sns(entries: &Vec<(String, Value)>) -> (r: Result<Option<SNSChannelBinding>, DecodeError>)
    ensures
        match r {
            Ok(x) => dec_slot_sns(obj_view(entries@)) == Ok::<_, DecodeError>(
                match x {
                    None => None,
                    Some(m) => Some(m@),
                },
            ),
            Err(e) => dec_slot_sns(obj_view(entries@)) == Err::<Option<SNSChannelBindingView>, _>(e),
        },
{
    proof {
        reveal(dec_slot_sns);
    }
    match find_field(entries, "sns") {
        None => Ok(None),
        Some(v) => match SNSChannelBinding::decode(v) {
            Ok(m) => Ok(Some(m)),
            Err(e) => Err(e),
        },
    }
}

/// The decoding of the `sqs` protocol slot.
#[verifier::opaque]
pub open spec fn dec_slot_sqs(entries: Seq<(Seq<char>, ValueView)>) -> Result<
    Option<SQSChannelBindingView>,
    DecodeError,
> {
    match lookup(entries, "sqs"@) {
        None => Ok(None),
        Some(pv) => match SQSChannelBindingView::decode(pv) {
            Ok(m) => Ok(Some(m)),
            Err(e) => Err(e),
        },
    }
}

/// Decodes the `sqs` protocol slot.
fn decode_slot_sqs(entries: &Vec<(String, Value)>) -> (r: Result<Option<SQSChannelBinding>, DecodeError>)
    ensures
        match r {
            Ok(x) => dec_slot_sqs(obj_view(entries@)) == Ok::<_, DecodeError>(
                match x {
                    None => None,
                    Some(m) => Some(m@),
                },
            ),
            Err(e) => dec_slot_sqs(obj_view(entries@)) == Err::<Option<SQSChannelBindingView>, _>(e),
        },
{
    proof {
        reveal(dec_slot_sqs);
    }
    match find_field(entries, "sqs") {
        None => Ok(None),
        Some(v) => match SQSChannelBinding::decode(v) {
            Ok(m) => Ok(Some(m)),
            Err(e) => Err(e),
        },
    }
}

/// The decoding of the `stomp` protocol slot.
#[verifier::opaque]
pub open spec fn dec_slot_stomp(entries: Seq<(Seq<char>, ValueView)>) -> Result<
    Option<STOMPChannelBindingView>,
    DecodeError,
> {
    match lookup(entries, "stomp"@) {
        None => Ok(None),
        Some(pv) => match STOMPChannelBindingView::decode(pv) {
            Ok(m) => Ok(Some(m)),
            Err(e) => Err(e),
        },
    }
}

/// Decodes the `stomp` protocol slot.
fn decode_slot_stomp(entries: &Vec<(String, Value)>) -> (r: Result<Option<STOMPChannelBinding>, DecodeError>)
    ensures
        match r {
            Ok(x) => dec_slot_stomp(obj_view(entries@)) == Ok::<_, DecodeError>(
                match x {
                    None => None,
                    Some(m) => Some(m@),
                },
            ),
            Err(e) => dec_slot_stomp(obj_view(entries@)) == Err::<Option<STOMPChannelBindingView>, _>(e),
        },
{
    proof {
        reveal(dec_slot_stomp);
    }
    match find_field(entries, "stomp") {
        None => Ok(None),
        Some(v) => match STOMPChannelBinding::decode(v) {
            Ok(m) => Ok(Some(m)),
            Err(e) => Err(e),
        },
    }
}

/// The decoding of the `redis` protocol slot.
#[verifier::opaque]
pub open spec fn dec_slot_redis(entries: Seq<(Seq<char>, ValueView)>) -> Result<
    Option<RedisChannelBindingView>,
    DecodeError,
> {
    match lookup(entries, "redis"@) {
        None => Ok(None),
        Some(pv) => match RedisChannelBindingView::decode(pv) {
            Ok(m) => Ok(Some(m)),
            Err(e) => Err(e),
        },
    }
}

/// Decodes the `redis` protocol slot.
fn decode_slot_redis(entries: &Vec<(String, Value)>) -> (r: Result<Option<RedisChannelBinding>, DecodeError>)
    ensures
        match r {
            Ok(x) => dec_slot_redis(obj_view(entries@)) == Ok::<_, DecodeError>(
                match x {
                    None => None,
                    Some(m) => Some(m@),
                },
            ),
            Err(e) => dec_slot_redis(obj_view(entries@)) == Err::<Option<RedisChannelBindingView>, _>(e),
        },
{
    proof {
        reveal(dec_slot_redis);
    }
    match find_field(entries, "redis") {
        None => Ok(None),
        Some(v) => match RedisChannelBinding::decode(v) {
            Ok(m) => Ok(Some(m)),
            Err(e) => Err(e),
        },
    }
}

/// The decoding of the `mercure` protocol slot.
#[verifier::opaque]
pub open spec fn dec_slot_mercure(entries: Seq<(Seq<char>, ValueView)>) -> Result<
    Option<MercureChannelBindingView>,
    DecodeError,
> {
    match lookup(entries, "mercure"@) {
        None => Ok(None),
        Some(pv) => match MercureChannelBindingView::decode(pv) {
            Ok(m) => Ok(Some(m)),
            Err(e) => Err(e),
        },
    }
}

/// Decodes the `mercure` protocol slot.
fn decode_slot_mercure(entries: &Vec<(String, Value)>) -> (r: Result<Option<MercureChannelBinding>, DecodeError>)
    ensures
        match r {
            Ok(x) => dec_slot_mercure(obj_view(entries@)) == Ok::<_, DecodeError>(
                match x {
                    None => None,
                    Some(m) => Some(m@),
                },
            ),
            Err(e) => dec_slot_mercure(obj_view(entries@)) == Err::<Option<MercureChannelBindingView>, _>(e),
        },
{
    proof {
        reveal(dec_slot_mercure);
    }
    match find_field(entries, "mercure") {
        None => Ok(None),
        Some(v) => match MercureChannelBinding::decode(v) {
            Ok(m) => Ok(Some(m)),
            Err(e) => Err(e),
        },
    }
}

/// The decoding of the `ibmmq` protocol slot.
#[verifier::opaque]
pub open spec fn dec_slot_ibmmq(entries: Seq<(Seq<char>, ValueView)>) -> Result<
    Option<IBMMQChannelBindingView>,
    DecodeError,
> {
    match lookup(entries, "ibmmq"@) {
        None => Ok(None),
        Some(pv) => match IBMMQChannelBindingView::decode(pv) {
            Ok(m) => Ok(Some(m)),
            Err(e) => Err(e),
        },
    }
}

/// Decodes the `ibmmq` protocol slot.
fn decode_slot_ibmmq(entries: &Vec<(String, Value)>) -> (r: Result<Option<IBMMQChannelBinding>, DecodeError>)
    ensures
        match r {
            Ok(x) => dec_slot_ibmmq(obj_view(entries@)) == Ok::<_, DecodeError>(
                match x {
                    None => None,
                    Some(m) => Some(m@),
                },
            ),
            Err(e) => dec_slot_ibmmq(obj_view(entries@)) == Err::<Option<IBMMQChannelBindingView>, _>(e),
        },
{
    proof {
        reveal(dec_slot_ibmmq);
    }
    match find_field(entries, "ibmmq") {
        None => Ok(None),
        Some(v) => match IBMMQChannelBinding::decode(v) {
            Ok(m) => Ok(Some(m)),
            Err(e) => Err(e),
        },
    }
}

impl ChannelBindingView {
    /// The declared wire keys.
    pub open spec fn known_keys() -> Seq<Seq<char>> {
        seq!["http"@, "ws"@, "kafka"@, "amqp"@, "amqp1"@, "mqtt"@, "mqtt5"@, "nats"@, "jms"@, "sns"@, "sqs"@, "stomp"@, "redis"@, "mercure"@, "ibmmq"@]
    }

    /// Declared fields in output order; absent options and empty
    /// sequences are omitted.
    pub open spec fn field_list(self) -> Seq<(Seq<char>, Option<ValueView>)> {
        seq![
            ("http"@, match self.http {
                None => None,
                Some(m) => Some(m.encode()),
            }),
            ("ws"@, match self.ws {
                None => None,
                Some(m) => Some(m.encode()),
            }),
            ("kafka"@, match self.kafka {
                None => None,
                Some(m) => Some(m.encode()),
            }),
            ("amqp"@, match self.amqp {
                None => None,
                Some(m) => Some(m.encode()),
            }),
            ("amqp1"@, match self.amqp1 {
                None => None,
                Some(m) => Some(m.encode()),
            }),
            ("mqtt"@, match self.mqtt {
                None => None,
                Some(m) => Some(m.encode()),
            }),
            ("mqtt5"@, match self.mqtt5 {
                None => None,
                Some(m) => Some(m.encode()),
            }),
            ("nats"@, match self.nats {
                None => None,
                Some(m) => Some(m.encode()),
            }),
            ("jms"@, match self.jms {
                None => None,
                Some(m) => Some(m.encode()),
            }),
            ("sns"@, match self.sns {
                None => None,
                Some(m) => Some(m.encode()),
            }),
            ("sqs"@, match self.sqs {
                None => None,
                Some(m) => Some(m.encode()),
            }),
            ("stomp"@, match self.stomp {
                None => None,
                Some(m) => Some(m.encode()),
            }),
            ("redis"@, match self.redis {
                None => None,
                Some(m) => Some(m.encode()),
            }),
            ("mercure"@, match self.mercure {
                None => None,
                Some(m) => Some(m.encode()),
            }),
            ("ibmmq"@, match self.ibmmq {
                None => None,
                Some(m) => Some(m.encode()),
            }),
        ]
    }

    /// No extension key shadows a declared field, and every nested
    /// entity is well formed.
    pub open spec fn wf(self) -> bool {
        &&& forall|j: int|
            0 <= j < self.extensions.len() ==> !Self::known_keys().contains(
                (#[trigger] self.extensions[j]).0,
            )
        &&& match self.http {
            None => true,
            Some(m) => m.wf(),
        }
        &&& match self.ws {
            None => true,
            Some(m) => m.wf(),
        }
        &&& match self.kafka {
            None => true,
            Some(m) => m.wf(),
        }
        &&& match self.amqp {
            None => true,
            Some(m) => m.wf(),
        }
        &&& match self.amqp1 {
            None => true,
            Some(m) => m.wf(),
        }
        &&& match self.mqtt {
            None => true,
            Some(m) => m.wf(),
        }
        &&& match self.mqtt5 {
            None => true,
            Some(m) => m.wf(),
        }
        &&& match self.nats {
            None => true,
            Some(m) => m.wf(),
        }
        &&& match self.jms {
            None => true,
            Some(m) => m.wf(),
        }
        &&& match self.sns {
            None => true,
            Some(m) => m.wf(),
        }
        &&& match self.sqs {
            None => true,
            Some(m) => m.wf(),
        }
        &&& match self.stomp {
            None => true,
            Some(m) => m.wf(),
        }
        &&& match self.redis {
            None => true,
            Some(m) => m.wf(),
        }
        &&& match self.mercure {
            None => true,
            Some(m) => m.wf(),
        }
        &&& match self.ibmmq {
            None => true,
            Some(m) => m.wf(),
        }
    }

    /// The encoding: declared fields first, then the extensions.
    pub open spec fn encode(self) -> ValueView {
        ValueView::Object(present_fields(self.field_list()) + self.extensions)
    }

    /// The decoding of a structural value as this object.
    pub open spec fn decode(v: ValueView) -> Result<Self, DecodeError> {
        match v {
            ValueView::Object(entries) => {
                let http = dec_slot_http(entries);
                let ws = dec_slot_ws(entries);
                let kafka = dec_slot_kafka(entries);
                let amqp = dec_slot_amqp(entries);
                let amqp1 = dec_slot_amqp1(entries);
                let mqtt = dec_slot_mqtt(entries);
                let mqtt5 = dec_slot_mqtt5(entries);
                let nats = dec_slot_nats(entries);
                let jms = dec_slot_jms(entries);
                let sns = dec_slot_sns(entries);
                let sqs = dec_slot_sqs(entries);
                let stomp = dec_slot_stomp(entries);
                let redis = dec_slot_redis(entries);
                let mercure = dec_slot_mercure(entries);
                let ibmmq = dec_slot_ibmmq(entries);
                if http is Err {
                    Err(http->Err_0)
                } else if ws is Err {
                    Err(ws->Err_0)
                } else if kafka is Err {
                    Err(kafka->Err_0)
                } else if amqp is Err {
                    Err(amqp->Err_0)
                } else if amqp1 is Err {
                    Err(amqp1->Err_0)
                } else if mqtt is Err {
                    Err(mqtt->Err_0)
                } else if mqtt5 is Err {
                    Err(mqtt5->Err_0)
                } else if nats is Err {
                    Err(nats->Err_0)
                } else if jms is Err {
                    Err(jms->Err_0)
                } else if sns is Err {
                    Err(sns->Err_0)
                } else if sqs is Err {
                    Err(sqs->Err_0)
                } else if stomp is Err {
                    Err(stomp->Err_0)
                } else if redis is Err {
                    Err(redis->Err_0)
                } else if mercure is Err {
                    Err(mercure->Err_0)
                } else if ibmmq is Err {
                    Err(ibmmq->Err_0)
                } else {
                    Ok(
                        ChannelBindingView {
                            http: http->Ok_0,
                            ws: ws->Ok_0,
                            kafka: kafka->Ok_0,
                            amqp: amqp->Ok_0,
                            amqp1: amqp1->Ok_0,
                            mqtt: mqtt->Ok_0,
                            mqtt5: mqtt5->Ok_0,
                            nats: nats->Ok_0,
                            jms: jms->Ok_0,
                            sns: sns->Ok_0,
                            sqs: sqs->Ok_0,
                            stomp: stomp->Ok_0,
                            redis: redis->Ok_0,
                            mercure: mercure->Ok_0,
                            ibmmq: ibmmq->Ok_0,
                            extensions: ext_of(entries, Self::known_keys()),
                        },
                    )
                }
            },
            _ => Err(DecodeError::StructuralMismatch),
        }
    }

    /// Decoding what a well-formed value encodes restores it exactly,
    /// extensions included.
    #[verifier::rlimit(100)]
    pub proof fn lemma_round_trip(m: ChannelBindingView)
        requires
            m.wf(),
        ensures
            Self::decode(m.encode()) == Ok::<_, DecodeError>(m),
    {
        reveal(dec_slot_http);
        reveal(dec_slot_ws);
        reveal(dec_slot_kafka);
        reveal(dec_slot_amqp);
        reveal(dec_slot_amqp1);
        reveal(dec_slot_mqtt);
        reveal(dec_slot_mqtt5);
        reveal(dec_slot_nats);
        reveal(dec_slot_jms);
        reveal(dec_slot_sns);
        reveal(dec_slot_sqs);
        reveal(dec_slot_stomp);
        reveal(dec_slot_redis);
        reveal(dec_slot_mercure);
        reveal(dec_slot_ibmmq);
        let fl = m.field_list();
        let keys = ChannelBindingView::known_keys();
        lemma_channel_binding_keys_distinct();
        assert(forall|p: int| 0 <= p < fl.len() ==> (#[trigger] fl[p]).0 == keys[p]);
        assert(distinct_keys(fl));
        assert(forall|k: Seq<char>| has_field_key(fl, k) ==> keys.contains(k));
        assert(forall|j: int|
            0 <= j < m.extensions.len() ==> !has_field_key(fl, (#[trigger] m.extensions[j]).0));
        lemma_lookup_encoded(fl, m.extensions, 0);
        lemma_lookup_encoded(fl, m.extensions, 1);
        lemma_lookup_encoded(fl, m.extensions, 2);
        lemma_lookup_encoded(fl, m.extensions, 3);
        lemma_lookup_encoded(fl, m.extensions, 4);
        lemma_lookup_encoded(fl, m.extensions, 5);
        lemma_lookup_encoded(fl, m.extensions, 6);
        lemma_lookup_encoded(fl, m.extensions, 7);
        lemma_lookup_encoded(fl, m.extensions, 8);
        lemma_lookup_encoded(fl, m.extensions, 9);
        lemma_lookup_encoded(fl, m.extensions, 10);
        lemma_lookup_encoded(fl, m.extensions, 11);
        lemma_lookup_encoded(fl, m.extensions, 12);
        lemma_lookup_encoded(fl, m.extensions, 13);
        lemma_lookup_encoded(fl, m.extensions, 14);
        lemma_ext_encoded(fl, m.extensions, keys);
        match m.http {
            None => {},
            Some(x) => {
                HTTPChannelBindingView::lemma_round_trip(x);
            },
        }
        match m.ws {
            None => {},
            Some(x) => {
                WebsocketsChannelBindingView::lemma_round_trip(x);
            },
        }
        match m.kafka {
            None => {},
            Some(x) => {
                KafkaChannelBindingView::lemma_round_trip(x);
            },
        }
        match m.amqp {
            None => {},
            Some(x) => {
                AMQPChannelBindingView::lemma_round_trip(x);
            },
        }
        match m.amqp1 {
            None => {},
            Some(x) => {
                AMQPChannelBindingView::lemma_round_trip(x);
            },
        }
        match m.mqtt {
            None => {},
            Some(x) => {
                MQTTChannelBindingView::lemma_round_trip(x);
            },
        }
        match m.mqtt5 {
            None => {},
            Some(x) => {
                MQTT5ChannelBindingView::lemma_round_trip(x);
            },
        }
        match m.nats {
            None => {},
            Some(x) => {
                NATSChannelBindingView::lemma_round_trip(x);
            },
        }
        match m.jms {
            None => {},
            Some(x) => {
                JMSChannelBindingView::lemma_round_trip(x);
            },
        }
        match m.sns {
            None => {},
            Some(x) => {
                SNSChannelBindingView::lemma_round_trip(x);
            },
        }
        match m.sqs {
            None => {},
            Some(x) => {
                SQSChannelBindingView::lemma_round_trip(x);
            },
        }
        match m.stomp {
            None => {},
            Some(x) => {
                STOMPChannelBindingView::lemma_round_trip(x);
            },
        }
        match m.redis {
            None => {},
            Some(x) => {
                RedisChannelBindingView::lemma_round_trip(x);
            },
        }
        match m.mercure {
            None => {},
            Some(x) => {
                MercureChannelBindingView::lemma_round_trip(x);
            },
        }
        match m.ibmmq {
            None => {},
            Some(x) => {
                IBMMQChannelBindingView::lemma_round_trip(x);
            },
        }
        assert(Self::decode(m.encode())->Ok_0 =~= m);
    }
}

impl ChannelBinding {
    /// Decodes this object; unrecognized keys are collected into
    /// `extensions` in source order.
    #[verifier::rlimit(100)]
    pub fn decode(v: &Value) -> (r: Result<ChannelBinding, DecodeError>)
        ensures
            match r {
                Ok(m) => ChannelBindingView::decode(v@) == Ok::<_, DecodeError>(m@),
                Err(e) => ChannelBindingView::decode(v@) == Err::<ChannelBindingView, _>(e),
            },
    {
        match v {
            Value::Object(entries) => {
                let http = match decode_slot_http(entries) {
                    Ok(x) => x,
                    Err(e) => { return Err(e) },
                };
                let ws = match decode_slot_ws(entries) {
                    Ok(x) => x,
                    Err(e) => { return Err(e) },
                };
                let kafka = match decode_slot_kafka(entries) {
                    Ok(x) => x,
                    Err(e) => { return Err(e) },
                };
                let amqp = match decode_slot_amqp(entries) {
                    Ok(x) => x,
                    Err(e) => { return Err(e) },
                };
                let amqp1 = match decode_slot_amqp1(entries) {
                    Ok(x) => x,
                    Err(e) => { return Err(e) },
                };
                let mqtt = match decode_slot_mqtt(entries) {
                    Ok(x) => x,
                    Err(e) => { return Err(e) },
                };
                let mqtt5 = match decode_slot_mqtt5(entries) {
                    Ok(x) => x,
                    Err(e) => { return Err(e) },
                };
                let nats = match decode_slot_nats(entries) {
                    Ok(x) => x,
                    Err(e) => { return Err(e) },
                };
                let jms = match decode_slot_jms(entries) {
                    Ok(x) => x,
                    Err(e) => { return Err(e) },
                };
                let sns = match decode_slot_sns(entries) {
                    Ok(x) => x,
                    Err(e) => { return Err(e) },
                };
                let sqs = match decode_slot_sqs(entries) {
                    Ok(x) => x,
                    Err(e) => { return Err(e) },
                };
                let stomp = match decode_slot_stomp(entries) {
                    Ok(x) => x,
                    Err(e) => { return Err(e) },
                };
                let redis = match decode_slot_redis(entries) {
                    Ok(x) => x,
                    Err(e) => { return Err(e) },
                };
                let mercure = match decode_slot_mercure(entries) {
                    Ok(x) => x,
                    Err(e) => { return Err(e) },
                };
                let ibmmq = match decode_slot_ibmmq(entries) {
                    Ok(x) => x,
                    Err(e) => { return Err(e) },
                };
                let known: [&str; 15] = [
                    "http", "ws", "kafka", "amqp", "amqp1", "mqtt", "mqtt5", "nats", "jms", "sns", "sqs", "stomp", "redis", "mercure", "ibmmq",
                ];
                let ks: &[&str] = known.as_slice();
                let extensions = collect_extensions(entries, ks);
                proof {
                    assert(key_views(ks@) =~= ChannelBindingView::known_keys());
                }
                Ok(
                    ChannelBinding {
                        http,
                        ws,
                        kafka,
                        amqp,
                        amqp1,
                        mqtt,
                        mqtt5,
                        nats,
                        jms,
                        sns,
                        sqs,
                        stomp,
                        redis,
                        mercure,
                        ibmmq,
                        extensions,
                    },
                )
            },
            _ => Err(DecodeError::StructuralMismatch),
        }
    }

    /// Emits the first declared slots onto the output object.
    #[verifier::rlimit(100)]
    fn encode_slots_low(&self, out: &mut Vec<(String, Value)>)
        requires
            obj_view(old(out)@) == Seq::<(Seq<char>, ValueView)>::empty(),
        ensures
            obj_view(final(out)@) == present_fields(self@.field_list().subrange(0, 7)),
    {
        let ghost fl = self@.field_list();
        proof {
            assert(fl.subrange(0, 0) =~= Seq::<(Seq<char>, Option<ValueView>)>::empty());
            assert(present_fields(fl.subrange(0, 0)) =~= Seq::<(Seq<char>, ValueView)>::empty());
            assert(fl.subrange(0, 1) =~= fl.subrange(0, 0).push(fl[0]));
            lemma_present_fields_snoc(fl.subrange(0, 0), fl[0]);
        }
        if let Some(m) = &self.http {
            let ev = m.encode();
            push_present(out, "http", ev);
        }
        proof {
            assert(obj_view(out@) =~= present_fields(fl.subrange(0, 1)));
            assert(fl.subrange(0, 2) =~= fl.subrange(0, 1).push(fl[1]));
            lemma_present_fields_snoc(fl.subrange(0, 1), fl[1]);
        }
        if let Some(m) = &self.ws {
            let ev = m.encode();
            push_present(out, "ws", ev);
        }
        proof {
            assert(obj_view(out@) =~= present_fields(fl.subrange(0, 2)));
            assert(fl.subrange(0, 3) =~= fl.subrange(0, 2).push(fl[2]));
            lemma_present_fields_snoc(fl.subrange(0, 2), fl[2]);
        }
        if let Some(m) = &self.kafka {
            let ev = m.encode();
            push_present(out, "kafka", ev);
        }
        proof {
            assert(obj_view(out@) =~= present_fields(fl.subrange(0, 3)));
            assert(fl.subrange(0, 4) =~= fl.subrange(0, 3).push(fl[3]));
            lemma_present_fields_snoc(fl.subrange(0, 3), fl[3]);
        }
        if let Some(m) = &self.amqp {
            let ev = m.encode();
            push_present(out, "amqp", ev);
        }
        proof {
            assert(obj_view(out@) =~= present_fields(fl.subrange(0, 4)));
            assert(fl.subrange(0, 5) =~= fl.subrange(0, 4).push(fl[4]));
            lemma_present_fields_snoc(fl.subrange(0, 4), fl[4]);
        }
        if let Some(m) = &self.amqp1 {
            let ev = m.encode();
            push_present(out, "amqp1", ev);
        }
        proof {
            assert(obj_view(out@) =~= present_fields(fl.subrange(0, 5)));
            assert(fl.subrange(0, 6) =~= fl.subrange(0, 5).push(fl[5]));
            lemma_present_fields_snoc(fl.subrange(0, 5), fl[5]);
        }
        if let Some(m) = &self.mqtt {
            let ev = m.encode();
            push_present(out, "mqtt", ev);
        }
        proof {
            assert(obj_view(out@) =~= present_fields(fl.subrange(0, 6)));
            assert(fl.subrange(0, 7) =~= fl.subrange(0, 6).push(fl[6]));
            lemma_present_fields_snoc(fl.subrange(0, 6), fl[6]);
        }
        if let Some(m) = &self.mqtt5 {
            let ev = m.encode();
            push_present(out, "mqtt5", ev);
        }
        proof {
            assert(obj_view(out@) =~= present_fields(fl.subrange(0, 7)));
        }
    }

    /// Emits the remaining declared slots onto the output object.
    #[verifier::rlimit(100)]
    fn encode_slots_high(&self, out: &mut Vec<(String, Value)>)
        requires
            obj_view(old(out)@) == present_fields(self@.field_list().subrange(0, 7)),
        ensures
            obj_view(final(out)@) == present_fields(self@.field_list()),
    {
        let ghost fl = self@.field_list();
        proof {
            assert(fl.subrange(0, 8) =~= fl.subrange(0, 7).push(fl[7]));
            lemma_present_fields_snoc(fl.subrange(0, 7), fl[7]);
        }
        if let Some(m) = &self.nats {
            let ev = m.encode();
            push_present(out, "nats", ev);
        }
        proof {
            assert(obj_view(out@) =~= present_fields(fl.subrange(0, 8)));
            assert(fl.subrange(0, 9) =~= fl.subrange(0, 8).push(fl[8]));
            lemma_present_fields_snoc(fl.subrange(0, 8), fl[8]);
        }
        if let Some(m) = &self.jms {
            let ev = m.encode();
            push_present(out, "jms", ev);
        }
        proof {
            assert(obj_view(out@) =~= present_fields(fl.subrange(0, 9)));
            assert(fl.subrange(0, 10) =~= fl.subrange(0, 9).push(fl[9]));
            lemma_present_fields_snoc(fl.subrange(0, 9), fl[9]);
        }
        if let Some(m) = &self.sns {
            let ev = m.encode();
            push_present(out, "sns", ev);
        }
        proof {
            assert(obj_view(out@) =~= present_fields(fl.subrange(0, 10)));
            assert(fl.subrange(0, 11) =~= fl.subrange(0, 10).push(fl[10]));
            lemma_present_fields_snoc(fl.subrange(0, 10), fl[10]);
        }
        if let Some(m) = &self.sqs {
            let ev = m.encode();
            push_present(out, "sqs", ev);
        }
        proof {
            assert(obj_view(out@) =~= present_fields(fl.subrange(0, 11)));
            assert(fl.subrange(0, 12) =~= fl.subrange(0, 11).push(fl[11]));
            lemma_present_fields_snoc(fl.subrange(0, 11), fl[11]);
        }
        if let Some(m) = &self.stomp {
            let ev = m.encode();
            push_present(out, "stomp", ev);
        }
        proof {
            assert(obj_view(out@) =~= present_fields(fl.subrange(0, 12)));
            assert(fl.subrange(0, 13) =~= fl.subrange(0, 12).push(fl[12]));
            lemma_present_fields_snoc(fl.subrange(0, 12), fl[12]);
        }
        if let Some(m) = &self.redis {
            let ev = m.encode();
            push_present(out, "redis", ev);
        }
        proof {
            assert(obj_view(out@) =~= present_fields(fl.subrange(0, 13)));
            assert(fl.subrange(0, 14) =~= fl.subrange(0, 13).push(fl[13]));
            lemma_present_fields_snoc(fl.subrange(0, 13), fl[13]);
        }
        if let Some(m) = &self.mercure {
            let ev = m.encode();
            push_present(out, "mercure", ev);
        }
        proof {
            assert(obj_view(out@) =~= present_fields(fl.subrange(0, 14)));
            assert(fl.subrange(0, 15) =~= fl.subrange(0, 14).push(fl[14]));
            lemma_present_fields_snoc(fl.subrange(0, 14), fl[14]);
        }
        if let Some(m) = &self.ibmmq {
            let ev = m.encode();
            push_present(out, "ibmmq", ev);
        }
        proof {
            assert(obj_view(out@) =~= present_fields(fl.subrange(0, 15)));
            assert(fl.subrange(0, 15) =~= fl);
        }
    }

    /// Encodes this object: declared slots, then extensions.
    pub fn encode(&self) -> (r: Value)
        ensures
            r@ == self@.encode(),
    {
        let mut out: Vec<(String, Value)> = Vec::new();
        proof {
            assert(obj_view(out@) =~= Seq::<(Seq<char>, ValueView)>::empty());
        }
        self.encode_slots_low(&mut out);
        self.encode_slots_high(&mut out);
        push_entries(&mut out, &self.extensions);
        Value::Object(out)
    }
}

/// A bindings object whose every key names an unrecognized protocol
/// decodes successfully, keeps those entries as extensions in order, and
/// reproduces them verbatim on encode.
#[verifier::rlimit(100)]
pub proof fn lemma_channel_binding_forward_compat(entries: Seq<(Seq<char>, ValueView)>)
    requires
        forall|j: int|
            0 <= j < entries.len() ==> !ChannelBindingView::known_keys().contains(
                (#[trigger] entries[j]).0,
            ),
    ensures
        ChannelBindingView::decode(ValueView::Object(entries)) is Ok,
        ChannelBindingView::decode(ValueView::Object(entries))->Ok_0.extensions == entries,
        ChannelBindingView::decode(ValueView::Object(entries))->Ok_0.encode() == ValueView::Object(
            entries,
        ),
{
    reveal(dec_slot_http);
    reveal(dec_slot_ws);
    reveal(dec_slot_kafka);
    reveal(dec_slot_amqp);
    reveal(dec_slot_amqp1);
    reveal(dec_slot_mqtt);
    reveal(dec_slot_mqtt5);
    reveal(dec_slot_nats);
    reveal(dec_slot_jms);
    reveal(dec_slot_sns);
    reveal(dec_slot_sqs);
    reveal(dec_slot_stomp);
    reveal(dec_slot_redis);
    reveal(dec_slot_mercure);
    reveal(dec_slot_ibmmq);
    let keys = ChannelBindingView::known_keys();
    assert(forall|j: int|
        0 <= j < entries.len() ==> (#[trigger] entries[j]).0 != "http"@) by {
        assert(keys[0] == "http"@);
    }
    crate::value::lemma_lookup_absent(entries, "http"@);
    assert(forall|j: int|
        0 <= j < entries.len() ==> (#[trigger] entries[j]).0 != "ws"@) by {
        assert(keys[1] == "ws"@);
    }
    crate::value::lemma_lookup_absent(entries, "ws"@);
    assert(forall|j: int|
        0 <= j < entries.len() ==> (#[trigger] entries[j]).0 != "kafka"@) by {
        assert(keys[2] == "kafka"@);
    }
    crate::value::lemma_lookup_absent(entries, "kafka"@);
    assert(forall|j: int|
        0 <= j < entries.len() ==> (#[trigger] entries[j]).0 != "amqp"@) by {
        assert(keys[3] == "amqp"@);
    }
    crate::value::lemma_lookup_absent(entries, "amqp"@);
    assert(forall|j: int|
        0 <= j < entries.len() ==> (#[trigger] entries[j]).0 != "amqp1"@) by {
        assert(keys[4] == "amqp1"@);
    }
    crate::value::lemma_lookup_absent(entries, "amqp1"@);
    assert(forall|j: int|
        0 <= j < entries.len() ==> (#[trigger] entries[j]).0 != "mqtt"@) by {
        assert(keys[5] == "mqtt"@);
    }
    crate::value::lemma_lookup_absent(entries, "mqtt"@);
    assert(forall|j: int|
        0 <= j < entries.len() ==> (#[trigger] entries[j]).0 != "mqtt5"@) by {
        assert(keys[6] == "mqtt5"@);
    }
    crate::value::lemma_lookup_absent(entries, "mqtt5"@);
    assert(forall|j: int|
        0 <= j < entries.len() ==> (#[trigger] entries[j]).0 != "nats"@) by {
        assert(keys[7] == "nats"@);
    }
    crate::value::lemma_lookup_absent(entries, "nats"@);
    assert(forall|j: int|
        0 <= j < entries.len() ==> (#[trigger] entries[j]).0 != "jms"@) by {
        assert(keys[8] == "jms"@);
    }
    crate::value::lemma_lookup_absent(entries, "jms"@);
    assert(forall|j: int|
        0 <= j < entries.len() ==> (#[trigger] entries[j]).0 != "sns"@) by {
        assert(keys[9] == "sns"@);
    }
    crate::value::lemma_lookup_absent(entries, "sns"@);
    assert(forall|j: int|
        0 <= j < entries.len() ==> (#[trigger] entries[j]).0 != "sqs"@) by {
        assert(keys[10] == "sqs"@);
    }
    crate::value::lemma_lookup_absent(entries, "sqs"@);
    assert(forall|j: int|
        0 <= j < entries.len() ==> (#[trigger] entries[j]).0 != "stomp"@) by {
        assert(keys[11] == "stomp"@);
    }
    crate::value::lemma_lookup_absent(entries, "stomp"@);
    assert(forall|j: int|
        0 <= j < entries.len() ==> (#[trigger] entries[j]).0 != "redis"@) by {
        assert(keys[12] == "redis"@);
    }
    crate::value::lemma_lookup_absent(entries, "redis"@);
    assert(forall|j: int|
        0 <= j < entries.len() ==> (#[trigger] entries[j]).0 != "mercure"@) by {
        assert(keys[13] == "mercure"@);
    }
    crate::value::lemma_lookup_absent(entries, "mercure"@);
    assert(forall|j: int|
        0 <= j < entries.len() ==> (#[trigger] entries[j]).0 != "ibmmq"@) by {
        assert(keys[14] == "ibmmq"@);
    }
    crate::value::lemma_lookup_absent(entries, "ibmmq"@);
    crate::value::lemma_ext_of_none_known(entries, keys);
    let m = ChannelBindingView::decode(ValueView::Object(entries))->Ok_0;
    let fl = m.field_list();
    assert(forall|i: int| 0 <= i < fl.len() ==> (#[trigger] fl[i]).1 is None);
    crate::value::lemma_present_fields_all_none(fl);
    assert(present_fields(fl) + m.extensions =~= entries);
}

/// The decoding of a reference-or-channel binding: the reference shape is tried
/// first, always; only a value that does not match it is read inline.
#[verifier::opaque]
pub open spec fn dec_ref_or_channel_binding(v: ValueView) -> Result<RefOrView<ChannelBindingView>, DecodeError> {
    match ref_shape(v) {
        Some(loc) => Ok(RefOrView::Ref(loc)),
        None => match ChannelBindingView::decode(v) {
            Ok(m) => Ok(RefOrView::Val(m)),
            Err(e) => Err(e),
        },
    }
}

/// The encoding of a reference-or-channel binding: the reference object, or the
/// inline object.
pub open spec fn enc_ref_or_channel_binding(r: RefOrView<ChannelBindingView>) -> ValueView {
    match r {
        RefOrView::Ref(loc) => enc_ref(loc),
        RefOrView::Val(m) => m.encode(),
    }
}

/// A reference is well formed outright; an inline value must be well formed
/// and must not encode to the reference shape (such a value would decode as
/// a reference, by the fixed priority).
pub open spec fn wf_ref_or_channel_binding(r: RefOrView<ChannelBindingView>) -> bool {
    match r {
        RefOrView::Ref(_) => true,
        RefOrView::Val(m) => m.wf() && ref_shape(m.encode()) is None,
    }
}

/// Decoding what a well-formed reference-or-channel binding encodes restores it.
pub proof fn lemma_ref_or_channel_binding_round_trip(r: RefOrView<ChannelBindingView>)
    requires
        wf_ref_or_channel_binding(r),
    ensures
        dec_ref_or_channel_binding(enc_ref_or_channel_binding(r)) == Ok::<_, DecodeError>(r),
{
    reveal(dec_ref_or_channel_binding);
    match r {
        RefOrView::Ref(loc) => {
            lemma_ref_shape_enc(loc);
        },
        RefOrView::Val(m) => {
            ChannelBindingView::lemma_round_trip(m);
        },
    }
}

/// Decodes a reference-or-channel binding: the reference shape is tried first,
/// always.
pub fn decode_ref_or_channel_binding(v: &Value) -> (r: Result<RefOr<ChannelBinding>, DecodeError>)
    ensures
        match r {
            Ok(x) => dec_ref_or_channel_binding(v@) == Ok::<_, DecodeError>(x@),
            Err(e) => dec_ref_or_channel_binding(v@) == Err::<RefOrView<ChannelBindingView>, _>(e),
        },
{
    proof {
        reveal(dec_ref_or_channel_binding);
    }
    match as_reference(v) {
        Some(rf) => Ok(RefOr::Ref(rf)),
        None => match ChannelBinding::decode(v) {
            Ok(m) => Ok(RefOr::T(m)),
            Err(e) => Err(e),
        },
    }
}

/// Encodes a reference-or-channel binding.
pub fn encode_ref_or_channel_binding(r: &RefOr<ChannelBinding>) -> (res: Value)
    ensures
        res@ == enc_ref_or_channel_binding(r@),
{
    match r {
        RefOr::Ref(rf) => encode_reference(rf),
        RefOr::T(m) => m.encode(),
    }
}

/// Model of a named channel binding mapping, entry by entry.
pub open spec fn channel_binding_map_view(m: Seq<(String, RefOr<ChannelBinding>)>) -> Seq<(Seq<char>, RefOrView<ChannelBindingView>)>
    decreases m.len(),
{
    if m.len() == 0 {
        Seq::empty()
    } else {
        seq![(m[0].0@, m[0].1@)] + channel_binding_map_view(m.subrange(1, m.len() as int))
    }
}

/// `channel_binding_map_view` maps the entry sequence pointwise.
pub broadcast proof fn lemma_channel_binding_map_view(m: Seq<(String, RefOr<ChannelBinding>)>)
    ensures
        (#[trigger] channel_binding_map_view(m)).len() == m.len(),
        forall|i: int|
            0 <= i < m.len() ==> channel_binding_map_view(m)[i] == (m[i].0@, m[i].1@),
    decreases m.len(),
{
    if m.len() > 0 {
        lemma_channel_binding_map_view(m.subrange(1, m.len() as int));
    }
}

/// The encoding of a named channel binding mapping, entry by entry.
pub open spec fn enc_channel_binding_map(m: Seq<(Seq<char>, RefOrView<ChannelBindingView>)>) -> Seq<(Seq<char>, ValueView)>
    decreases m.len(),
{
    if m.len() == 0 {
        Seq::empty()
    } else {
        seq![(m[0].0, enc_ref_or_channel_binding(m[0].1))] + enc_channel_binding_map(m.subrange(1, m.len() as int))
    }
}

/// The decoding of a named channel binding mapping, entry by entry.
#[verifier::opaque]
pub open spec fn dec_channel_binding_map_entries(entries: Seq<(Seq<char>, ValueView)>) -> Result<
    Seq<(Seq<char>, RefOrView<ChannelBindingView>)>,
    DecodeError,
>
    decreases entries.len(),
{
    if entries.len() == 0 {
        Ok(Seq::empty())
    } else {
        let head = dec_ref_or_channel_binding(entries[0].1);
        let rest = dec_channel_binding_map_entries(entries.subrange(1, entries.len() as int));
        if head is Err {
            Err(head->Err_0)
        } else if rest is Err {
            Err(rest->Err_0)
        } else {
            Ok(seq![(entries[0].0, head->Ok_0)] + rest->Ok_0)
        }
    }
}

/// Every entry of the mapping is well formed.
pub open spec fn wf_channel_binding_map(m: Seq<(Seq<char>, RefOrView<ChannelBindingView>)>) -> bool
    decreases m.len(),
{
    m.len() == 0 || (wf_ref_or_channel_binding(m[0].1) && wf_channel_binding_map(m.subrange(1, m.len() as int)))
}

/// Decoding an encoded channel binding mapping restores it.
pub proof fn lemma_channel_binding_map_round_trip(m: Seq<(Seq<char>, RefOrView<ChannelBindingView>)>)
    requires
        wf_channel_binding_map(m),
    ensures
        dec_channel_binding_map_entries(enc_channel_binding_map(m)) == Ok::<_, DecodeError>(m),
    decreases m.len(),
{
    reveal(dec_channel_binding_map_entries);
    if m.len() > 0 {
        let rest = m.subrange(1, m.len() as int);
        lemma_ref_or_channel_binding_round_trip(m[0].1);
        lemma_channel_binding_map_round_trip(rest);
        let whole = enc_channel_binding_map(m);
        assert(whole[0] == (m[0].0, enc_ref_or_channel_binding(m[0].1)));
        assert(whole.subrange(1, whole.len() as int) =~= enc_channel_binding_map(rest));
        assert(dec_channel_binding_map_entries(whole)->Ok_0 =~= m);
    } else {
        assert(m =~= Seq::<(Seq<char>, RefOrView<ChannelBindingView>)>::empty());
        assert(enc_channel_binding_map(m) =~= Seq::<(Seq<char>, ValueView)>::empty());
        assert(dec_channel_binding_map_entries(enc_channel_binding_map(m))->Ok_0 =~= m);
    }
}

/// Encodes a named channel binding mapping, entry by entry.
pub fn encode_channel_binding_map_entries(m: &Vec<(String, RefOr<ChannelBinding>)>) -> (res: Vec<(String, Value)>)
    ensures
        obj_view(res@) == enc_channel_binding_map(channel_binding_map_view(m@)),
{
    let ghost mv = channel_binding_map_view(m@);
    proof {
        lemma_channel_binding_map_view(m@);
    }
    let n = m.len();
    let mut out: Vec<(String, Value)> = Vec::new();
    let mut i: usize = 0;
    proof {
        assert(mv.subrange(0, mv.len() as int) =~= mv);
        assert(obj_view(out@) + enc_channel_binding_map(mv) =~= enc_channel_binding_map(mv));
    }
    while i < n
        invariant
            n == m@.len(),
            0 <= i <= n,
            mv == channel_binding_map_view(m@),
            mv.len() == n,
            forall|j: int| 0 <= j < n ==> channel_binding_map_view(m@)[j] == (m@[j].0@, m@[j].1@),
            enc_channel_binding_map(mv) == obj_view(out@) + enc_channel_binding_map(mv.subrange(i as int, n as int)),
        decreases n - i,
    {
        let ghost prev = out@;
        let k = m[i].0.clone();
        let ev = encode_ref_or_channel_binding(&m[i].1);
        out.push((k, ev));
        proof {
            let tail = mv.subrange(i as int, n as int);
            assert(tail[0] == mv[i as int]);
            assert(tail.subrange(1, tail.len() as int) =~= mv.subrange(i as int + 1, n as int));
            lemma_obj_view(out@);
            lemma_obj_view(prev);
            assert(obj_view(out@) =~= obj_view(prev).push((mv[i as int].0, enc_ref_or_channel_binding(mv[i as int].1))));
            assert(obj_view(prev) + (seq![(mv[i as int].0, enc_ref_or_channel_binding(mv[i as int].1))] + enc_channel_binding_map(
                mv.subrange(i as int + 1, n as int),
            )) =~= obj_view(out@) + enc_channel_binding_map(mv.subrange(i as int + 1, n as int)));
        }
        i += 1;
    }
    proof {
        assert(mv.subrange(n as int, n as int) =~= Seq::<(Seq<char>, RefOrView<ChannelBindingView>)>::empty());
        assert(enc_channel_binding_map(mv.subrange(n as int, n as int)) =~= Seq::<(Seq<char>, ValueView)>::empty());
        assert(obj_view(out@) + Seq::<(Seq<char>, ValueView)>::empty() =~= obj_view(out@));
    }
    out
}

/// Decodes the entries of a named channel binding mapping.
pub fn decode_channel_binding_map_entries(entries: &Vec<(String, Value)>) -> (r: Result<Vec<(String, RefOr<ChannelBinding>)>, DecodeError>)
    ensures
        match r {
            Ok(x) => dec_channel_binding_map_entries(obj_view(entries@)) == Ok::<_, DecodeError>(channel_binding_map_view(x@)),
            Err(e) => dec_channel_binding_map_entries(obj_view(entries@)) == Err::<Seq<(Seq<char>, RefOrView<ChannelBindingView>)>, _>(e),
        },
{
    proof {
        reveal(dec_channel_binding_map_entries);
    }
    let ghost ov = obj_view(entries@);
    proof {
        lemma_obj_view(entries@);
    }
    let n = entries.len();
    let mut out: Vec<(String, RefOr<ChannelBinding>)> = Vec::new();
    let mut i: usize = 0;
    proof {
        assert(ov.subrange(0, ov.len() as int) =~= ov);
        assert(channel_binding_map_view(out@) =~= Seq::<(Seq<char>, RefOrView<ChannelBindingView>)>::empty());
        lemma_channel_binding_map_view(out@);
    }
    while i < n
        invariant
            n == entries@.len(),
            0 <= i <= n,
            ov == obj_view(entries@),
            ov.len() == n,
            forall|j: int|
                0 <= j < n ==> ov[j] == (entries@[j].0@, crate::value::value_view(
                    entries@[j].1,
                )),
            dec_channel_binding_map_entries(ov) == (match dec_channel_binding_map_entries(ov.subrange(i as int, n as int)) {
                Ok(t) => Ok::<_, DecodeError>(channel_binding_map_view(out@) + t),
                Err(e) => Err(e),
            }),
        decreases n - i,
    {
        let ghost prev = out@;
        let ghost tail = ov.subrange(i as int, n as int);
        proof {
            reveal(dec_channel_binding_map_entries);
            assert(tail[0] == ov[i as int]);
            assert(tail.subrange(1, tail.len() as int) =~= ov.subrange(i as int + 1, n as int));
        }
        let k = entries[i].0.clone();
        match decode_ref_or_channel_binding(&entries[i].1) {
            Ok(x) => {
                out.push((k, x));
                proof {
                    reveal(dec_channel_binding_map_entries);
                    lemma_channel_binding_map_view(out@);
                    lemma_channel_binding_map_view(prev);
                    assert(channel_binding_map_view(out@) =~= channel_binding_map_view(prev).push((ov[i as int].0, x@)));
                    assert(channel_binding_map_view(prev) + (seq![(ov[i as int].0, x@)] + dec_channel_binding_map_entries(
                        ov.subrange(i as int + 1, n as int),
                    )->Ok_0) =~= channel_binding_map_view(out@) + dec_channel_binding_map_entries(
                        ov.subrange(i as int + 1, n as int),
                    )->Ok_0);
                }
            },
            Err(e) => {
                return Err(e);
            },
        }
        i += 1;
    }
    proof {
        reveal(dec_channel_binding_map_entries);
        assert(ov.subrange(n as int, n as int) =~= Seq::<(Seq<char>, ValueView)>::empty());
        assert(channel_binding_map_view(out@) + Seq::<(Seq<char>, RefOrView<ChannelBindingView>)>::empty() =~= channel_binding_map_view(out@));
    }
    Ok(out)
}

} // verus!
