//! The root document object of an AsyncAPI document.

#![allow(unused_imports)]

use vstd::prelude::*;

use crate::fields::dec_opt_bool;
use crate::fields::dec_opt_i32;
use crate::fields::dec_opt_string;
use crate::fields::dec_req_string;
use crate::fields::dec_value_list;
use crate::fields::dec_value_map;
use crate::fields::dec_vec_string;
use crate::fields::enc_opt_bool;
use crate::fields::enc_opt_i32;
use crate::fields::enc_opt_string;
use crate::fields::enc_string_list;
use crate::fields::encode_string_list;
use crate::fields::encode_value_list;
use crate::fields::encode_value_map;
use crate::fields::get_opt_bool;
use crate::fields::get_opt_i32;
use crate::fields::get_opt_string;
use crate::fields::get_req_string;
use crate::fields::get_value_list;
use crate::fields::get_value_map;
use crate::fields::get_vec_string;
use crate::fields::lemma_string_list_round_trip;
use crate::fields::view_opt_string;
use crate::fields::view_vec_string;
use crate::reference::Ref;
use crate::reference::RefOr;
use crate::reference::RefOrView;
use crate::reference::as_reference;
use crate::reference::enc_ref;
use crate::reference::encode_reference;
use crate::reference::lemma_ref_shape_enc;
use crate::reference::ref_shape;
use crate::value::DecodeError;
use crate::value::Value;
use crate::value::ValueView;
use crate::value::collect_extensions;
use crate::value::distinct_keys;
use crate::value::ext_of;
use crate::value::find_field;
use crate::value::has_field_key;
use crate::value::key_views;
use crate::value::lemma_ext_encoded;
use crate::value::lemma_list_view;
use crate::value::lemma_lookup_encoded;
use crate::value::lemma_obj_view;
use crate::value::lemma_present_fields_snoc;
use crate::value::list_view;
use crate::value::lookup;
use crate::value::obj_view;
use crate::value::present_fields;
use crate::value::push_entries;
use crate::value::push_present;
use crate::info::Info;
use crate::info::InfoView;
use crate::server::Server;
use crate::server::ServerView;
use crate::server::dec_ref_or_server;
use crate::server::enc_ref_or_server;
use crate::server::wf_ref_or_server;
use crate::server::lemma_ref_or_server_round_trip;
use crate::server::decode_ref_or_server;
use crate::server::encode_ref_or_server;
use crate::server::server_map_view;
use crate::server::enc_server_map;
use crate::server::dec_server_map_entries;
use crate::server::wf_server_map;
use crate::server::lemma_server_map_round_trip;
use crate::server::encode_server_map_entries;
use crate::server::decode_server_map_entries;
use crate::channel::Channel;
use crate::channel::ChannelView;
use crate::channel::channel_val_map_view;
use crate::channel::enc_channel_val_map;
use crate::channel::dec_channel_val_map_entries;
use crate::channel::wf_channel_val_map;
use crate::channel::lemma_channel_val_map_round_trip;
use crate::channel::encode_channel_val_map_entries;
use crate::channel::decode_channel_val_map_entries;
use crate::components::Components;
use crate::components::ComponentsView;

verus! {

/// The root document object of the AsyncAPI specification: it aggregates
/// the metadata, servers, channels and reusable components that describe
/// an event-driven API.
#[derive(Debug, PartialEq)]
pub struct AsyncAPI {
    /// The AsyncAPI specification version of this document. Required.
    pub asyncapi: String,
    /// An identifier of the application the document is defining.
    pub id: Option<String>,
    /// Metadata about the API. Required.
    pub info: Info,
    /// Servers on which the API is available, by name.
    pub servers: Vec<(String, RefOr<Server>)>,
    /// Default content type to use when encoding or decoding a
    /// message's payload.
    pub default_content_type: Option<String>,
    /// The channels the API offers, by name. Required; it may be
    /// empty.
    pub channels: Vec<(String, Channel)>,
    /// A set of reusable objects for different aspects of the API.
    pub components: Option<Components>,
    /// Unrecognized sibling fields, preserved in source order.
    pub extensions: Vec<(String, Value)>,
}

/// Model of a [`AsyncAPI`].
#[verifier::ext_equal]
pub struct AsyncAPIView {
    pub asyncapi: Seq<char>,
    pub id: Option<Seq<char>>,
    pub info: InfoView,
    pub servers: Seq<(Seq<char>, RefOrView<ServerView>)>,
    pub default_content_type: Option<Seq<char>>,
    pub channels: Seq<(Seq<char>, ChannelView)>,
    pub components: Option<ComponentsView>,
    pub extensions: Seq<(Seq<char>, ValueView)>,
}

impl View for AsyncAPI {
    type V = AsyncAPIView;

    open spec fn view(&self) -> AsyncAPIView {
        AsyncAPIView {
            asyncapi: self.asyncapi@,
            id: view_opt_string(self.id),
            info: self.info@,
            servers: server_map_view(self.servers@),
            default_content_type: view_opt_string(self.default_content_type),
            channels: channel_val_map_view(self.channels@),
            components: match self.components {
                None => None,
                Some(x) => Some(x@),
            },
            extensions: obj_view(self.extensions@),
        }
    }
}

/// The declared keys are pairwise distinct.
pub proof fn lemma_async_api_keys_distinct()
    ensures
        forall|p: int, q: int|
            0 <= p < q < AsyncAPIView::known_keys().len() ==> AsyncAPIView::known_keys()[p]
                != AsyncAPIView::known_keys()[q],
{
    reveal_strlit("asyncapi");
    reveal_strlit("id");
    reveal_strlit("info");
    reveal_strlit("servers");
    reveal_strlit("defaultContentType");
    reveal_strlit("channels");
    reveal_strlit("components");
    assert("asyncapi"@.len() == 8);
    assert("id"@.len() == 2);
    assert("info"@.len() == 4);
    assert("servers"@.len() == 7);
    assert("defaultContentType"@.len() == 18);
    assert("channels"@.len() == 8);
    assert("components"@.len() == 10);
    assert("asyncapi"@[0] == 'a');
    assert("channels"@[0] == 'c');
}

impl AsyncAPIView {
    /// The declared wire keys.
    pub open spec fn known_keys() -> Seq<Seq<char>> {
        seq!["asyncapi"@, "id"@, "info"@, "servers"@, "defaultContentType"@, "channels"@, "components"@]
    }

    /// Declared fields in output order; absent options and empty
    /// sequences are omitted.
    pub open spec fn field_list(self) -> Seq<(Seq<char>, Option<ValueView>)> {
        seq![
            ("asyncapi"@, Some(ValueView::Str(self.asyncapi))),
            ("id"@, enc_opt_string(self.id)),
            ("info"@, Some(self.info.encode())),
            ("servers"@, if self.servers.len() == 0 {
                None
            } else {
                Some(ValueView::Object(enc_server_map(self.servers)))
            }),
            ("defaultContentType"@, enc_opt_string(self.default_content_type)),
            ("channels"@, Some(ValueView::Object(enc_channel_val_map(self.channels)))),
            ("components"@, match self.components {
                None => None,
                Some(m) => Some(m.encode()),
            }),
        ]
    }

    /// No extension key shadows a declared field, and every nested
    /// entity is well formed.
    pub open spec fn wf(self) -> bool {
        &&& forall|j: int|
            0 <= j < self.extensions.len() ==> !Self::known_keys().contains(
                (#[trigger] self.extensions[j]).0,
            )
        &&& self.info.wf()
        &&& wf_server_map(self.servers)
        &&& wf_channel_val_map(self.channels)
        &&& match self.components {
            None => true,
            Some(m) => m.wf(),
        }
    }

    /// The encoding: declared fields first, then the extensions.
    pub open spec fn encode(self) -> ValueView {
        ValueView::Object(present_fields(self.field_list()) + self.extensions)
    }

    /// The decoding of a structural value as this object.
    pub open spec fn decode(v: ValueView) -> Result<Self, DecodeError> {
        match v {
            ValueView::Object(entries) => {
                let asyncapi = dec_req_string(lookup(entries, "asyncapi"@));
                let id = dec_opt_string(lookup(entries, "id"@));
                let info = match lookup(entries, "info"@) {
                    None => Err(DecodeError::RequiredFieldMissing),
                    Some(pv) => InfoView::decode(pv),
                };
                let servers = match lookup(entries, "servers"@) {
                    None => Ok(Seq::<(Seq<char>, RefOrView<ServerView>)>::empty()),
                    Some(ValueView::Object(es)) => dec_server_map_entries(es),
                    Some(_) => Err(DecodeError::StructuralMismatch),
                };
                let default_content_type = dec_opt_string(lookup(entries, "defaultContentType"@));
                let channels = match lookup(entries, "channels"@) {
                    None => Err(DecodeError::RequiredFieldMissing),
                    Some(ValueView::Object(es)) => dec_channel_val_map_entries(es),
                    Some(_) => Err(DecodeError::StructuralMismatch),
                };
                let components = match lookup(entries, "components"@) {
                    None => Ok(None),
                    Some(pv) => match ComponentsView::decode(pv) {
                        Ok(m) => Ok(Some(m)),
                        Err(e) => Err(e),
                    },
                };
                if asyncapi is Err {
                    Err(asyncapi->Err_0)
                } else if id is Err {
                    Err(id->Err_0)
                } else if info is Err {
                    Err(info->Err_0)
                } else if servers is Err {
                    Err(servers->Err_0)
                } else if default_content_type is Err {
                    Err(default_content_type->Err_0)
                } else if channels is Err {
                    Err(channels->Err_0)
                } else if components is Err {
                    Err(components->Err_0)
                } else {
                    Ok(
                        AsyncAPIView {
                            asyncapi: asyncapi->Ok_0,
                            id: id->Ok_0,
                            info: info->Ok_0,
                            servers: servers->Ok_0,
                            default_content_type: default_content_type->Ok_0,
                            channels: channels->Ok_0,
                            components: components->Ok_0,
                            extensions: ext_of(entries, Self::known_keys()),
                        },
                    )
                }
            },
            _ => Err(DecodeError::StructuralMismatch),
        }
    }

    /// Decoding what a well-formed value encodes restores it exactly,
    /// extensions included.
    #[verifier::rlimit(100)]
    pub proof fn lemma_round_trip(m: AsyncAPIView)
        requires
            m.wf(),
        ensures
            Self::decode(m.encode()) == Ok::<_, DecodeError>(m),
    {
        reveal(dec_server_map_entries);
        reveal(dec_channel_val_map_entries);
        let fl = m.field_list();
        let keys = AsyncAPIView::known_keys();
        lemma_async_api_keys_distinct();
        assert(forall|p: int| 0 <= p < fl.len() ==> (#[trigger] fl[p]).0 == keys[p]);
        assert(distinct_keys(fl));
        assert(forall|k: Seq<char>| has_field_key(fl, k) ==> keys.contains(k));
        assert(forall|j: int|
            0 <= j < m.extensions.len() ==> !has_field_key(fl, (#[trigger] m.extensions[j]).0));
        lemma_lookup_encoded(fl, m.extensions, 0);
        lemma_lookup_encoded(fl, m.extensions, 1);
        lemma_lookup_encoded(fl, m.extensions, 2);
        lemma_lookup_encoded(fl, m.extensions, 3);
        lemma_lookup_encoded(fl, m.extensions, 4);
        lemma_lookup_encoded(fl, m.extensions, 5);
        lemma_lookup_encoded(fl, m.extensions, 6);
        lemma_ext_encoded(fl, m.extensions, keys);
        InfoView::lemma_round_trip(m.info);
        if m.servers.len() == 0 {
            assert(m.servers =~= Seq::<(Seq<char>, RefOrView<ServerView>)>::empty());
            assert(dec_server_map_entries(Seq::<(Seq<char>, ValueView)>::empty()) == Ok::<
                _,
                DecodeError,
            >(Seq::<(Seq<char>, RefOrView<ServerView>)>::empty()));
        } else {
            lemma_server_map_round_trip(m.servers);
        }
        if m.channels.len() == 0 {
            assert(m.channels =~= Seq::<(Seq<char>, ChannelView)>::empty());
            assert(dec_channel_val_map_entries(Seq::<(Seq<char>, ValueView)>::empty()) == Ok::<
                _,
                DecodeError,
            >(Seq::<(Seq<char>, ChannelView)>::empty()));
        } else {
            lemma_channel_val_map_round_trip(m.channels);
        }
        match m.components {
            None => {},
            Some(x) => {
                ComponentsView::lemma_round_trip(x);
            },
        }
        assert(Self::decode(m.encode())->Ok_0 =~= m);
    }
}

impl AsyncAPI {
    /// Decodes this object; unrecognized keys are collected into
    /// `extensions` in source order.
    #[verifier::rlimit(100)]
    pub fn decode(v: &Value) -> (r: Result<AsyncAPI, DecodeError>)
        ensures
            match r {
                Ok(m) => AsyncAPIView::decode(v@) == Ok::<_, DecodeError>(m@),
                Err(e) => AsyncAPIView::decode(v@) == Err::<AsyncAPIView, _>(e),
            },
    {
        match v {
            Value::Object(entries) => {
                let asyncapi = match get_req_string(find_field(entries, "asyncapi")) {
                    Ok(x) => x,
                    Err(e) => { return Err(e) },
                };
                let id = match get_opt_string(find_field(entries, "id")) {
                    Ok(x) => x,
                    Err(e) => { return Err(e) },
                };
                let info = match find_field(entries, "info") {
                    None => { return Err(DecodeError::RequiredFieldMissing) },
                    Some(x) => match Info::decode(x) {
                        Ok(m) => m,
                        Err(e) => { return Err(e) },
                    },
                };
                let servers = match find_field(entries, "servers") {
                    None => {
                        let p: Vec<(String, RefOr<Server>)> = Vec::new();
                        proof {
                            assert(server_map_view(p@) =~= Seq::<(Seq<char>, RefOrView<ServerView>)>::empty());
                        }
                        p
                    },
                    Some(x) => match x {
                        Value::Object(es) => match decode_server_map_entries(es) {
                            Ok(p) => p,
                            Err(e) => { return Err(e) },
                        },
                        _ => { return Err(DecodeError::StructuralMismatch) },
                    },
                };
                let default_content_type = match get_opt_string(find_field(entries, "defaultContentType")) {
                    Ok(x) => x,
                    Err(e) => { return Err(e) },
                };
                let channels = match find_field(entries, "channels") {
                    None => { return Err(DecodeError::RequiredFieldMissing) },
                    Some(x) => match x {
                        Value::Object(es) => match decode_channel_val_map_entries(es) {
                            Ok(p) => p,
                            Err(e) => { return Err(e) },
                        },
                        _ => { return Err(DecodeError::StructuralMismatch) },
                    },
                };
                let components = match find_field(entries, "components") {
                    None => None,
                    Some(x) => match Components::decode(x) {
                        Ok(m) => Some(m),
                        Err(e) => { return Err(e) },
                    },
                };
                let known: [&str; 7] = [
                    "asyncapi", "id", "info", "servers", "defaultContentType", "channels", "components",
                ];
                let ks: &[&str] = known.as_slice();
                let extensions = collect_extensions(entries, ks);
                proof {
                    assert(key_views(ks@) =~= AsyncAPIView::known_keys());
                }
                Ok(
                    AsyncAPI {
                        asyncapi,
                        id,
                        info,
                        servers,
                        default_content_type,
                        channels,
                        components,
                        extensions,
                    },
                )
            },
            _ => Err(DecodeError::StructuralMismatch),
        }
    }

    /// Encodes this object: declared fields, then extensions.
    #[verifier::rlimit(100)]
    pub fn encode(&self) -> (r: Value)
        ensures
            r@ == self@.encode(),
    {
        let ghost fl = self@.field_list();
        let mut out: Vec<(String, Value)> = Vec::new();
        proof {
            assert(fl.subrange(0, 0) =~= Seq::<(Seq<char>, Option<ValueView>)>::empty());
            assert(present_fields(fl.subrange(0, 0)) =~= Seq::<(Seq<char>, ValueView)>::empty());
            assert(fl.subrange(0, 1) =~= fl.subrange(0, 0).push(fl[0]));
            lemma_present_fields_snoc(fl.subrange(0, 0), fl[0]);
        }
        push_present(&mut out, "asyncapi", Value::Str(self.asyncapi.clone()));
        proof {
            assert(obj_view(out@) =~= present_fields(fl.subrange(0, 1)));
            assert(fl.subrange(0, 2) =~= fl.subrange(0, 1).push(fl[1]));
            lemma_present_fields_snoc(fl.subrange(0, 1), fl[1]);
        }
        if let Some(x) = &self.id {
            push_present(&mut out, "id", Value::Str(x.clone()));
        }
        proof {
            assert(obj_view(out@) =~= present_fields(fl.subrange(0, 2)));
            assert(fl.subrange(0, 3) =~= fl.subrange(0, 2).push(fl[2]));
            lemma_present_fields_snoc(fl.subrange(0, 2), fl[2]);
        }
        let info_value = self.info.encode();
        push_present(&mut out, "info", info_value);
        proof {
            assert(obj_view(out@) =~= present_fields(fl.subrange(0, 3)));
            assert(fl.subrange(0, 4) =~= fl.subrange(0, 3).push(fl[3]));
            lemma_present_fields_snoc(fl.subrange(0, 3), fl[3]);
        }
        if self.servers.len() > 0 {
            let es = encode_server_map_entries(&self.servers);
            push_present(&mut out, "servers", Value::Object(es));
        }
        proof {
            assert(obj_view(out@) =~= present_fields(fl.subrange(0, 4)));
            assert(fl.subrange(0, 5) =~= fl.subrange(0, 4).push(fl[4]));
            lemma_present_fields_snoc(fl.subrange(0, 4), fl[4]);
        }
        if let Some(x) = &self.default_content_type {
            push_present(&mut out, "defaultContentType", Value::Str(x.clone()));
        }
        proof {
            assert(obj_view(out@) =~= present_fields(fl.subrange(0, 5)));
            assert(fl.subrange(0, 6) =~= fl.subrange(0, 5).push(fl[5]));
            lemma_present_fields_snoc(fl.subrange(0, 5), fl[5]);
        }
        let channels_entries = encode_channel_val_map_entries(&self.channels);
        push_present(&mut out, "channels", Value::Object(channels_entries));
        proof {
            assert(obj_view(out@) =~= present_fields(fl.subrange(0, 6)));
            assert(fl.subrange(0, 7) =~= fl.subrange(0, 6).push(fl[6]));
            lemma_present_fields_snoc(fl.subrange(0, 6), fl[6]);
        }
        if let Some(m) = &self.components {
            let ev = m.encode();
            push_present(&mut out, "components", ev);
        }
        proof {
            assert(obj_view(out@) =~= present_fields(fl.subrange(0, 7)));
            assert(fl.subrange(0, 7) =~= fl);
        }
        push_entries(&mut out, &self.extensions);
        Value::Object(out)
    }
}

} // verus!
