//! Metadata about the described API.

#![allow(unused_imports)]

use vstd::prelude::*;

use crate::fields::dec_opt_bool;
use crate::fields::dec_opt_i32;
use crate::fields::dec_opt_string;
use crate::fields::dec_req_string;
use crate::fields::dec_value_list;
use crate::fields::dec_value_map;
use crate::fields::dec_vec_string;
use crate::fields::enc_opt_bool;
use crate::fields::enc_opt_i32;
use crate::fields::enc_opt_string;
use crate::fields::enc_string_list;
use crate::fields::encode_string_list;
use crate::fields::encode_value_list;
use crate::fields::encode_value_map;
use crate::fields::get_opt_bool;
use crate::fields::get_opt_i32;
use crate::fields::get_opt_string;
use crate::fields::get_req_string;
use crate::fields::get_value_list;
use crate::fields::get_value_map;
use crate::fields::get_vec_string;
use crate::fields::lemma_string_list_round_trip;
use crate::fields::view_opt_string;
use crate::fields::view_vec_string;
use crate::reference::Ref;
use crate::reference::RefOr;
use crate::reference::RefOrView;
use crate::reference::as_reference;
use crate::reference::enc_ref;
use crate::reference::encode_reference;
use crate::reference::lemma_ref_shape_enc;
use crate::reference::ref_shape;
use crate::value::DecodeError;
use crate::value::Value;
use crate::value::ValueView;
use crate::value::collect_extensions;
use crate::value::distinct_keys;
use crate::value::ext_of;
use crate::value::find_field;
use crate::value::has_field_key;
use crate::value::key_views;
use crate::value::lemma_ext_encoded;
use crate::value::lemma_list_view;
use crate::value::lemma_lookup_encoded;
use crate::value::lemma_obj_view;
use crate::value::lemma_present_fields_snoc;
use crate::value::list_view;
use crate::value::lookup;
use crate::value::obj_view;
use crate::value::present_fields;
use crate::value::push_entries;
use crate::value::push_present;

verus! {

/// Metadata about the API: the title and version are required.
#[derive(Debug, PartialEq)]
pub struct Info {
    /// The title of the application. Required.
    pub title: String,
    /// The version of the application API. Required.
    pub version: String,
    /// A short description of the application.
    pub description: Option<String>,
    /// Unrecognized sibling fields, preserved in source order.
    pub extensions: Vec<(String, Value)>,
}

/// Model of a [`Info`].
#[verifier::ext_equal]
pub struct InfoView {
    pub title: Seq<char>,
    pub version: Seq<char>,
    pub description: Option<Seq<char>>,
    pub extensions: Seq<(Seq<char>, ValueView)>,
}

impl View for Info {
    type V = InfoView;

    open spec fn view(&self) -> InfoView {
        InfoView {
            title: self.title@,
            version: self.version@,
            description: view_opt_string(self.description),
            extensions: obj_view(self.extensions@),
        }
    }
}

/// The declared keys are pairwise distinct.
pub proof fn lemma_info_keys_distinct()
    ensures
        forall|p: int, q: int|
            0 <= p < q < InfoView::known_keys().len() ==> InfoView::known_keys()[p]
                != InfoView::known_keys()[q],
{
    reveal_strlit("title");
    reveal_strlit("version");
    reveal_strlit("description");
    assert("title"@.len() == 5);
    assert("version"@.len() == 7);
    assert("description"@.len() == 11);
}

impl InfoView {
    /// The declared wire keys.
    pub open spec fn known_keys() -> Seq<Seq<char>> {
        seq!["title"@, "version"@, "description"@]
    }

    /// Declared fields in output order; absent options and empty
    /// sequences are omitted.
    pub open spec fn field_list(self) -> Seq<(Seq<char>, Option<ValueView>)> {
        seq![
            ("title"@, Some(ValueView::Str(self.title))),
            ("version"@, Some(ValueView::Str(self.version))),
            ("description"@, enc_opt_string(self.description)),
        ]
    }

    /// No extension key shadows a declared field, and every nested
    /// entity is well formed.
    pub open spec fn wf(self) -> bool {
        &&& forall|j: int|
            0 <= j < self.extensions.len() ==> !Self::known_keys().contains(
                (#[trigger] self.extensions[j]).0,
            )
    }

    /// The encoding: declared fields first, then the extensions.
    pub open spec fn encode(self) -> ValueView {
        ValueView::Object(present_fields(self.field_list()) + self.extensions)
    }

    /// The decoding of a structural value as this object.
    pub open spec fn decode(v: ValueView) -> Result<Self, DecodeError> {
        match v {
            ValueView::Object(entries) => {
                let title = dec_req_string(lookup(entries, "title"@));
                let version = dec_req_string(lookup(entries, "version"@));
                let description = dec_opt_string(lookup(entries, "description"@));
                if title is Err {
                    Err(title->Err_0)
                } else if version is Err {
                    Err(version->Err_0)
                } else if description is Err {
                    Err(description->Err_0)
                } else {
                    Ok(
                        InfoView {
                            title: title->Ok_0,
                            version: version->Ok_0,
                            description: description->Ok_0,
                            extensions: ext_of(entries, Self::known_keys()),
                        },
                    )
                }
            },
            _ => Err(DecodeError::StructuralMismatch),
        }
    }

    /// Decoding what a well-formed value encodes restores it exactly,
    /// extensions included.
    pub proof fn lemma_round_trip(m: InfoView)
        requires
            m.wf(),
        ensures
            Self::decode(m.encode()) == Ok::<_, DecodeError>(m),
    {
        let fl = m.field_list();
        let keys = InfoView::known_keys();
        lemma_info_keys_distinct();
        assert(forall|p: int| 0 <= p < fl.len() ==> (#[trigger] fl[p]).0 == keys[p]);
        assert(distinct_keys(fl));
        assert(forall|k: Seq<char>| has_field_key(fl, k) ==> keys.contains(k));
        assert(forall|j: int|
            0 <= j < m.extensions.len() ==> !has_field_key(fl, (#[trigger] m.extensions[j]).0));
        lemma_lookup_encoded(fl, m.extensions, 0);
        lemma_lookup_encoded(fl, m.extensions, 1);
        lemma_lookup_encoded(fl, m.extensions, 2);
        lemma_ext_encoded(fl, m.extensions, keys);
        assert(Self::decode(m.encode())->Ok_0 =~= m);
    }
}

impl Info {
    /// Decodes this object; unrecognized keys are collected into
    /// `extensions` in source order.
    pub fn decode(v: &Value) -> (r: Result<Info, DecodeError>)
        ensures
            match r {
                Ok(m) => InfoView::decode(v@) == Ok::<_, DecodeError>(m@),
                Err(e) => InfoView::decode(v@) == Err::<InfoView, _>(e),
            },
    {
        match v {
            Value::Object(entries) => {
                let title = match get_req_string(find_field(entries, "title")) {
                    Ok(x) => x,
                    Err(e) => { return Err(e) },
                };
                let version = match get_req_string(find_field(entries, "version")) {
                    Ok(x) => x,
                    Err(e) => { return Err(e) },
                };
                let description = match get_opt_string(find_field(entries, "description")) {
                    Ok(x) => x,
                    Err(e) => { return Err(e) },
                };
                let known: [&str; 3] = [
                    "title", "version", "description",
                ];
                let ks: &[&str] = known.as_slice();
                let extensions = collect_extensions(entries, ks);
                proof {
                    assert(key_views(ks@) =~= InfoView::known_keys());
                }
                Ok(
                    Info {
                        title,
                        version,
                        description,
                        extensions,
                    },
                )
            },
            _ => Err(DecodeError::StructuralMismatch),
        }
    }

    /// Encodes this object: declared fields, then extensions.
    pub fn encode(&self) -> (r: Value)
        ensures
            r@ == self@.encode(),
    {
        let ghost fl = self@.field_list();
        let mut out: Vec<(String, Value)> = Vec::new();
        proof {
            assert(fl.subrange(0, 0) =~= Seq::<(Seq<char>, Option<ValueView>)>::empty());
            assert(present_fields(fl.subrange(0, 0)) =~= Seq::<(Seq<char>, ValueView)>::empty());
            assert(fl.subrange(0, 1) =~= fl.subrange(0, 0).push(fl[0]));
            lemma_present_fields_snoc(fl.subrange(0, 0), fl[0]);
        }
        push_present(&mut out, "title", Value::Str(self.title.clone()));
        proof {
            assert(obj_view(out@) =~= present_fields(fl.subrange(0, 1)));
            assert(fl.subrange(0, 2) =~= fl.subrange(0, 1).push(fl[1]));
            lemma_present_fields_snoc(fl.subrange(0, 1), fl[1]);
        }
        push_present(&mut out, "version", Value::Str(self.version.clone()));
        proof {
            assert(obj_view(out@) =~= present_fields(fl.subrange(0, 2)));
            assert(fl.subrange(0, 3) =~= fl.subrange(0, 2).push(fl[2]));
            lemma_present_fields_snoc(fl.subrange(0, 2), fl[2]);
        }
        if let Some(x) = &self.description {
            push_present(&mut out, "description", Value::Str(x.clone()));
        }
        proof {
            assert(obj_view(out@) =~= present_fields(fl.subrange(0, 3)));
            assert(fl.subrange(0, 3) =~= fl);
        }
        push_entries(&mut out, &self.extensions);
        Value::Object(out)
    }
}

} // verus!
