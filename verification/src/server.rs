//! Servers: message brokers or other programs that send and receive
//! data.

#![allow(unused_imports)]

use vstd::prelude::*;

use crate::fields::dec_opt_bool;
use crate::fields::dec_opt_i32;
use crate::fields::dec_opt_string;
use crate::fields::dec_req_string;
use crate::fields::dec_value_list;
use crate::fields::dec_value_map;
use crate::fields::dec_vec_string;
use crate::fields::enc_opt_bool;
use crate::fields::enc_opt_i32;
use crate::fields::enc_opt_string;
use crate::fields::enc_string_list;
use crate::fields::encode_string_list;
use crate::fields::encode_value_list;
use crate::fields::encode_value_map;
use crate::fields::get_opt_bool;
use crate::fields::get_opt_i32;
use crate::fields::get_opt_string;
use crate::fields::get_req_string;
use crate::fields::get_value_list;
use crate::fields::get_value_map;
use crate::fields::get_vec_string;
use crate::fields::lemma_string_list_round_trip;
use crate::fields::view_opt_string;
use crate::fields::view_vec_string;
use crate::reference::Ref;
use crate::reference::RefOr;
use crate::reference::RefOrView;
use crate::reference::as_reference;
use crate::reference::enc_ref;
use crate::reference::encode_reference;
use crate::reference::lemma_ref_shape_enc;
use crate::reference::ref_shape;
use crate::value::DecodeError;
use crate::value::Value;
use crate::value::ValueView;
use crate::value::collect_extensions;
use crate::value::distinct_keys;
use crate::value::ext_of;
use crate::value::find_field;
use crate::value::has_field_key;
use crate::value::key_views;
use crate::value::lemma_ext_encoded;
use crate::value::lemma_list_view;
use crate::value::lemma_lookup_encoded;
use crate::value::lemma_obj_view;
use crate::value::lemma_present_fields_snoc;
use crate::value::list_view;
use crate::value::lookup;
use crate::value::obj_view;
use crate::value::present_fields;
use crate::value::push_entries;
use crate::value::push_present;

verus! {

/// A message broker, a server or any other kind of computer program
/// capable of sending or receiving data.
#[derive(Debug, PartialEq)]
pub struct Server {
    /// A URL to the target host. Required.
    pub url: String,
    /// The protocol this server supports for connection. Required.
    pub protocol: String,
    /// An optional string describing the host designated by the URL.
    pub description: Option<String>,
    /// Unrecognized sibling fields, preserved in source order.
    pub extensions: Vec<(String, Value)>,
}

/// Model of a [`Server`].
#[verifier::ext_equal]
pub struct ServerView {
    pub url: Seq<char>,
    pub protocol: Seq<char>,
    pub description: Option<Seq<char>>,
    pub extensions: Seq<(Seq<char>, ValueView)>,
}

impl View for Server {
    type V = ServerView;

    open spec fn view(&self) -> ServerView {
        ServerView {
            url: self.url@,
            protocol: self.protocol@,
            description: view_opt_string(self.description),
            extensions: obj_view(self.extensions@),
        }
    }
}

/// The declared keys are pairwise distinct.
pub proof fn lemma_server_keys_distinct()
    ensures
        forall|p: int, q: int|
            0 <= p < q < ServerView::known_keys().len() ==> ServerView::known_keys()[p]
                != ServerView::known_keys()[q],
{
    reveal_strlit("url");
    reveal_strlit("protocol");
    reveal_strlit("description");
    assert("url"@.len() == 3);
    assert("protocol"@.len() == 8);
    assert("description"@.len() == 11);
}

impl ServerView {
    /// The declared wire keys.
    pub open spec fn known_keys() -> Seq<Seq<char>> {
        seq!["url"@, "protocol"@, "description"@]
    }

    /// Declared fields in output order; absent options and empty
    /// sequences are omitted.
    pub open spec fn field_list(self) -> Seq<(Seq<char>, Option<ValueView>)> {
        seq![
            ("url"@, Some(ValueView::Str(self.url))),
            ("protocol"@, Some(ValueView::Str(self.protocol))),
            ("description"@, enc_opt_string(self.description)),
        ]
    }

    /// No extension key shadows a declared field, and every nested
    /// entity is well formed.
    pub open spec fn wf(self) -> bool {
        &&& forall|j: int|
            0 <= j < self.extensions.len() ==> !Self::known_keys().contains(
                (#[trigger] self.extensions[j]).0,
            )
    }

    /// The encoding: declared fields first, then the extensions.
    pub open spec fn encode(self) -> ValueView {
        ValueView::Object(present_fields(self.field_list()) + self.extensions)
    }

    /// The decoding of a structural value as this object.
    pub open spec fn decode(v: ValueView) -> Result<Self, DecodeError> {
        match v {
            ValueView::Object(entries) => {
                let url = dec_req_string(lookup(entries, "url"@));
                let protocol = dec_req_string(lookup(entries, "protocol"@));
                let description = dec_opt_string(lookup(entries, "description"@));
                if url is Err {
                    Err(url->Err_0)
                } else if protocol is Err {
                    Err(protocol->Err_0)
                } else if description is Err {
                    Err(description->Err_0)
                } else {
                    Ok(
                        ServerView {
                            url: url->Ok_0,
                            protocol: protocol->Ok_0,
                            description: description->Ok_0,
                            extensions: ext_of(entries, Self::known_keys()),
                        },
                    )
                }
            },
            _ => Err(DecodeError::StructuralMismatch),
        }
    }

    /// Decoding what a well-formed value encodes restores it exactly,
    /// extensions included.
    pub proof fn lemma_round_trip(m: ServerView)
        requires
            m.wf(),
        ensures
            Self::decode(m.encode()) == Ok::<_, DecodeError>(m),
    {
        let fl = m.field_list();
        let keys = ServerView::known_keys();
        lemma_server_keys_distinct();
        assert(forall|p: int| 0 <= p < fl.len() ==> (#[trigger] fl[p]).0 == keys[p]);
        assert(distinct_keys(fl));
        assert(forall|k: Seq<char>| has_field_key(fl, k) ==> keys.contains(k));
        assert(forall|j: int|
            0 <= j < m.extensions.len() ==> !has_field_key(fl, (#[trigger] m.extensions[j]).0));
        lemma_lookup_encoded(fl, m.extensions, 0);
        lemma_lookup_encoded(fl, m.extensions, 1);
        lemma_lookup_encoded(fl, m.extensions, 2);
        lemma_ext_encoded(fl, m.extensions, keys);
        assert(Self::decode(m.encode())->Ok_0 =~= m);
    }
}

impl Server {
    /// Decodes this object; unrecognized keys are collected into
    /// `extensions` in source order.
    pub fn decode(v: &Value) -> (r: Result<Server, DecodeError>)
        ensures
            match r {
                Ok(m) => ServerView::decode(v@) == Ok::<_, DecodeError>(m@),
                Err(e) => ServerView::decode(v@) == Err::<ServerView, _>(e),
            },
    {
        match v {
            Value::Object(entries) => {
                let url = match get_req_string(find_field(entries, "url")) {
                    Ok(x) => x,
                    Err(e) => { return Err(e) },
                };
                let protocol = match get_req_string(find_field(entries, "protocol")) {
                    Ok(x) => x,
                    Err(e) => { return Err(e) },
                };
                let description = match get_opt_string(find_field(entries, "description")) {
                    Ok(x) => x,
                    Err(e) => { return Err(e) },
                };
                let known: [&str; 3] = [
                    "url", "protocol", "description",
                ];
                let ks: &[&str] = known.as_slice();
                let extensions = collect_extensions(entries, ks);
                proof {
                    assert(key_views(ks@) =~= ServerView::known_keys());
                }
                Ok(
                    Server {
                        url,
                        protocol,
                        description,
                        extensions,
                    },
                )
            },
            _ => Err(DecodeError::StructuralMismatch),
        }
    }

    /// Encodes this object: declared fields, then extensions.
    pub fn encode(&self) -> (r: Value)
        ensures
            r@ == self@.encode(),
    {
        let ghost fl = self@.field_list();
        let mut out: Vec<(String, Value)> = Vec::new();
        proof {
            assert(fl.subrange(0, 0) =~= Seq::<(Seq<char>, Option<ValueView>)>::empty());
            assert(present_fields(fl.subrange(0, 0)) =~= Seq::<(Seq<char>, ValueView)>::empty());
            assert(fl.subrange(0, 1) =~= fl.subrange(0, 0).push(fl[0]));
            lemma_present_fields_snoc(fl.subrange(0, 0), fl[0]);
        }
        push_present(&mut out, "url", Value::Str(self.url.clone()));
        proof {
            assert(obj_view(out@) =~= present_fields(fl.subrange(0, 1)));
            assert(fl.subrange(0, 2) =~= fl.subrange(0, 1).push(fl[1]));
            lemma_present_fields_snoc(fl.subrange(0, 1), fl[1]);
        }
        push_present(&mut out, "protocol", Value::Str(self.protocol.clone()));
        proof {
            assert(obj_view(out@) =~= present_fields(fl.subrange(0, 2)));
            assert(fl.subrange(0, 3) =~= fl.subrange(0, 2).push(fl[2]));
            lemma_present_fields_snoc(fl.subrange(0, 2), fl[2]);
        }
        if let Some(x) = &self.description {
            push_present(&mut out, "description", Value::Str(x.clone()));
        }
        proof {
            assert(obj_view(out@) =~= present_fields(fl.subrange(0, 3)));
            assert(fl.subrange(0, 3) =~= fl);
        }
        push_entries(&mut out, &self.extensions);
        Value::Object(out)
    }
}

/// The decoding of a reference-or-server: the reference shape is tried
/// first, always; only a value that does not match it is read inline.
#[verifier::opaque]
pub open spec fn dec_ref_or_server(v: ValueView) -> Result<RefOrView<ServerView>, DecodeError> {
    match ref_shape(v) {
        Some(loc) => Ok(RefOrView::Ref(loc)),
        None => match ServerView::decode(v) {
            Ok(m) => Ok(RefOrView::Val(m)),
            Err(e) => Err(e),
        },
    }
}

/// The encoding of a reference-or-server: the reference object, or the
/// inline object.
pub open spec fn enc_ref_or_server(r: RefOrView<ServerView>) -> ValueView {
    match r {
        RefOrView::Ref(loc) => enc_ref(loc),
        RefOrView::Val(m) => m.encode(),
    }
}

/// A reference is well formed outright; an inline value must be well formed
/// and must not encode to the reference shape (such a value would decode as
/// a reference, by the fixed priority).
pub open spec fn wf_ref_or_server(r: RefOrView<ServerView>) -> bool {
    match r {
        RefOrView::Ref(_) => true,
        RefOrView::Val(m) => m.wf() && ref_shape(m.encode()) is None,
    }
}

/// Decoding what a well-formed reference-or-server encodes restores it.
pub proof fn lemma_ref_or_server_round_trip(r: RefOrView<ServerView>)
    requires
        wf_ref_or_server(r),
    ensures
        dec_ref_or_server(enc_ref_or_server(r)) == Ok::<_, DecodeError>(r),
{
    reveal(dec_ref_or_server);
    match r {
        RefOrView::Ref(loc) => {
            lemma_ref_shape_enc(loc);
        },
        RefOrView::Val(m) => {
            ServerView::lemma_round_trip(m);
        },
    }
}

/// Decodes a reference-or-server: the reference shape is tried first,
/// always.
pub fn decode_ref_or_server(v: &Value) -> (r: Result<RefOr<Server>, DecodeError>)
    ensures
        match r {
            Ok(x) => dec_ref_or_server(v@) == Ok::<_, DecodeError>(x@),
            Err(e) => dec_ref_or_server(v@) == Err::<RefOrView<ServerView>, _>(e),
        },
{
    proof {
        reveal(dec_ref_or_server);
    }
    match as_reference(v) {
        Some(rf) => Ok(RefOr::Ref(rf)),
        None => match Server::decode(v) {
            Ok(m) => Ok(RefOr::T(m)),
            Err(e) => Err(e),
        },
    }
}

/// Encodes a reference-or-server.
pub fn encode_ref_or_server(r: &RefOr<Server>) -> (res: Value)
    ensures
        res@ == enc_ref_or_server(r@),
{
    match r {
        RefOr::Ref(rf) => encode_reference(rf),
        RefOr::T(m) => m.encode(),
    }
}

/// Model of a named server mapping, entry by entry.
pub open spec fn server_map_view(m: Seq<(String, RefOr<Server>)>) -> Seq<(Seq<char>, RefOrView<ServerView>)>
    decreases m.len(),
{
    if m.len() == 0 {
        Seq::empty()
    } else {
        seq![(m[0].0@, m[0].1@)] + server_map_view(m.subrange(1, m.len() as int))
    }
}

/// `server_map_view` maps the entry sequence pointwise.
pub broadcast proof fn lemma_server_map_view(m: Seq<(String, RefOr<Server>)>)
    ensures
        (#[trigger] server_map_view(m)).len() == m.len(),
        forall|i: int|
            0 <= i < m.len() ==> server_map_view(m)[i] == (m[i].0@, m[i].1@),
    decreases m.len(),
{
    if m.len() > 0 {
        lemma_server_map_view(m.subrange(1, m.len() as int));
    }
}

/// The encoding of a named server mapping, entry by entry.
pub open spec fn enc_server_map(m: Seq<(Seq<char>, RefOrView<ServerView>)>) -> Seq<(Seq<char>, ValueView)>
    decreases m.len(),
{
    if m.len() == 0 {
        Seq::empty()
    } else {
        seq![(m[0].0, enc_ref_or_server(m[0].1))] + enc_server_map(m.subrange(1, m.len() as int))
    }
}

/// The decoding of a named server mapping, entry by entry.
#[verifier::opaque]
pub open spec fn dec_server_map_entries(entries: Seq<(Seq<char>, ValueView)>) -> Result<
    Seq<(Seq<char>, RefOrView<ServerView>)>,
    DecodeError,
>
    decreases entries.len(),
{
    if entries.len() == 0 {
        Ok(Seq::empty())
    } else {
        let head = dec_ref_or_server(entries[0].1);
        let rest = dec_server_map_entries(entries.subrange(1, entries.len() as int));
        if head is Err {
            Err(head->Err_0)
        } else if rest is Err {
            Err(rest->Err_0)
        } else {
            Ok(seq![(entries[0].0, head->Ok_0)] + rest->Ok_0)
        }
    }
}

/// Every entry of the mapping is well formed.
pub open spec fn wf_server_map(m: Seq<(Seq<char>, RefOrView<ServerView>)>) -> bool
    decreases m.len(),
{
    m.len() == 0 || (wf_ref_or_server(m[0].1) && wf_server_map(m.subrange(1, m.len() as int)))
}

/// Decoding an encoded server mapping restores it.
pub proof fn lemma_server_map_round_trip(m: Seq<(Seq<char>, RefOrView<ServerView>)>)
    requires
        wf_server_map(m),
    ensures
        dec_server_map_entries(enc_server_map(m)) == Ok::<_, DecodeError>(m),
    decreases m.len(),
{
    reveal(dec_server_map_entries);
    if m.len() > 0 {
        let rest = m.subrange(1, m.len() as int);
        lemma_ref_or_server_round_trip(m[0].1);
        lemma_server_map_round_trip(rest);
        let whole = enc_server_map(m);
        assert(whole[0] == (m[0].0, enc_ref_or_server(m[0].1)));
        assert(whole.subrange(1, whole.len() as int) =~= enc_server_map(rest));
        assert(dec_server_map_entries(whole)->Ok_0 =~= m);
    } else {
        assert(m =~= Seq::<(Seq<char>, RefOrView<ServerView>)>::empty());
        assert(enc_server_map(m) =~= Seq::<(Seq<char>, ValueView)>::empty());
        assert(dec_server_map_entries(enc_server_map(m))->Ok_0 =~= m);
    }
}

/// Encodes a named server mapping, entry by entry.
pub fn encode_server_map_entries(m: &Vec<(String, RefOr<Server>)>) -> (res: Vec<(String, Value)>)
    ensures
        obj_view(res@) == enc_server_map(server_map_view(m@)),
{
    let ghost mv = server_map_view(m@);
    proof {
        lemma_server_map_view(m@);
    }
    let n = m.len();
    let mut out: Vec<(String, Value)> = Vec::new();
    let mut i: usize = 0;
    proof {
        assert(mv.subrange(0, mv.len() as int) =~= mv);
        assert(obj_view(out@) + enc_server_map(mv) =~= enc_server_map(mv));
    }
    while i < n
        invariant
            n == m@.len(),
            0 <= i <= n,
            mv == server_map_view(m@),
            mv.len() == n,
            forall|j: int| 0 <= j < n ==> server_map_view(m@)[j] == (m@[j].0@, m@[j].1@),
            enc_server_map(mv) == obj_view(out@) + enc_server_map(mv.subrange(i as int, n as int)),
        decreases n - i,
    {
        let ghost prev = out@;
        let k = m[i].0.clone();
        let ev = encode_ref_or_server(&m[i].1);
        out.push((k, ev));
        proof {
            let tail = mv.subrange(i as int, n as int);
            assert(tail[0] == mv[i as int]);
            assert(tail.subrange(1, tail.len() as int) =~= mv.subrange(i as int + 1, n as int));
            lemma_obj_view(out@);
            lemma_obj_view(prev);
            assert(obj_view(out@) =~= obj_view(prev).push((mv[i as int].0, enc_ref_or_server(mv[i as int].1))));
            assert(obj_view(prev) + (seq![(mv[i as int].0, enc_ref_or_server(mv[i as int].1))] + enc_server_map(
                mv.subrange(i as int + 1, n as int),
            )) =~= obj_view(out@) + enc_server_map(mv.subrange(i as int + 1, n as int)));
        }
        i += 1;
    }
    proof {
        assert(mv.subrange(n as int, n as int) =~= Seq::<(Seq<char>, RefOrView<ServerView>)>::empty());
        assert(enc_server_map(mv.subrange(n as int, n as int)) =~= Seq::<(Seq<char>, ValueView)>::empty());
        assert(obj_view(out@) + Seq::<(Seq<char>, ValueView)>::empty() =~= obj_view(out@));
    }
    out
}

/// Decodes the entries of a named server mapping.
pub fn decode_server_map_entries(entries: &Vec<(String, Value)>) -> (r: Result<Vec<(String, RefOr<Server>)>, DecodeError>)
    ensures
        match r {
            Ok(x) => dec_server_map_entries(obj_view(entries@)) == Ok::<_, DecodeError>(server_map_view(x@)),
            Err(e) => dec_server_map_entries(obj_view(entries@)) == Err::<Seq<(Seq<char>, RefOrView<ServerView>)>, _>(e),
        },
{
    proof {
        reveal(dec_server_map_entries);
    }
    let ghost ov = obj_view(entries@);
    proof {
        lemma_obj_view(entries@);
    }
    let n = entries.len();
    let mut out: Vec<(String, RefOr<Server>)> = Vec::new();
    let mut i: usize = 0;
    proof {
        assert(ov.subrange(0, ov.len() as int) =~= ov);
        assert(server_map_view(out@) =~= Seq::<(Seq<char>, RefOrView<ServerView>)>::empty());
        lemma_server_map_view(out@);
    }
    while i < n
        invariant
            n == entries@.len(),
            0 <= i <= n,
            ov == obj_view(entries@),
            ov.len() == n,
            forall|j: int|
                0 <= j < n ==> ov[j] == (entries@[j].0@, crate::value::value_view(
                    entries@[j].1,
                )),
            dec_server_map_entries(ov) == (match dec_server_map_entries(ov.subrange(i as int, n as int)) {
                Ok(t) => Ok::<_, DecodeError>(server_map_view(out@) + t),
                Err(e) => Err(e),
            }),
        decreases n - i,
    {
        let ghost prev = out@;
        let ghost tail = ov.subrange(i as int, n as int);
        proof {
            reveal(dec_server_map_entries);
            assert(tail[0] == ov[i as int]);
            assert(tail.subrange(1, tail.len() as int) =~= ov.subrange(i as int + 1, n as int));
        }
        let k = entries[i].0.clone();
        match decode_ref_or_server(&entries[i].1) {
            Ok(x) => {
                out.push((k, x));
                proof {
                    reveal(dec_server_map_entries);
                    lemma_server_map_view(out@);
                    lemma_server_map_view(prev);
                    assert(server_map_view(out@) =~= server_map_view(prev).push((ov[i as int].0, x@)));
                    assert(server_map_view(prev) + (seq![(ov[i as int].0, x@)] + dec_server_map_entries(
                        ov.subrange(i as int + 1, n as int),
                    )->Ok_0) =~= server_map_view(out@) + dec_server_map_entries(
                        ov.subrange(i as int + 1, n as int),
                    )->Ok_0);
                }
            },
            Err(e) => {
                return Err(e);
            },
        }
        i += 1;
    }
    proof {
        reveal(dec_server_map_entries);
        assert(ov.subrange(n as int, n as int) =~= Seq::<(Seq<char>, ValueView)>::empty());
        assert(server_map_view(out@) + Seq::<(Seq<char>, RefOrView<ServerView>)>::empty() =~= server_map_view(out@));
    }
    Ok(out)
}

} // verus!
