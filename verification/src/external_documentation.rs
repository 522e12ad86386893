//! Additional external documentation attached to entities of the model.

#![allow(unused_imports)]

use vstd::prelude::*;

use crate::fields::dec_opt_bool;
use crate::fields::dec_opt_i32;
use crate::fields::dec_opt_string;
use crate::fields::dec_req_string;
use crate::fields::dec_value_list;
use crate::fields::dec_value_map;
use crate::fields::dec_vec_string;
use crate::fields::enc_opt_bool;
use crate::fields::enc_opt_i32;
use crate::fields::enc_opt_string;
use crate::fields::enc_string_list;
use crate::fields::encode_string_list;
use crate::fields::encode_value_list;
use crate::fields::encode_value_map;
use crate::fields::get_opt_bool;
use crate::fields::get_opt_i32;
use crate::fields::get_opt_string;
use crate::fields::get_req_string;
use crate::fields::get_value_list;
use crate::fields::get_value_map;
use crate::fields::get_vec_string;
use crate::fields::lemma_string_list_round_trip;
use crate::fields::view_opt_string;
use crate::fields::view_vec_string;
use crate::reference::Ref;
use crate::reference::RefOr;
use crate::reference::RefOrView;
use crate::reference::as_reference;
use crate::reference::enc_ref;
use crate::reference::encode_reference;
use crate::reference::lemma_ref_shape_enc;
use crate::reference::ref_shape;
use crate::value::DecodeError;
use crate::value::Value;
use crate::value::ValueView;
use crate::value::collect_extensions;
use crate::value::distinct_keys;
use crate::value::ext_of;
use crate::value::find_field;
use crate::value::has_field_key;
use crate::value::key_views;
use crate::value::lemma_ext_encoded;
use crate::value::lemma_list_view;
use crate::value::lemma_lookup_encoded;
use crate::value::lemma_obj_view;
use crate::value::lemma_present_fields_snoc;
use crate::value::list_view;
use crate::value::lookup;
use crate::value::obj_view;
use crate::value::present_fields;
use crate::value::push_entries;
use crate::value::push_present;

verus! {

/// Additional external documentation for an entity.
#[derive(Debug, PartialEq)]
pub struct ExternalDocumentation {
    /// A short description of the target documentation.
    pub description: Option<String>,
    /// The URL for the target documentation. Required.
    pub url: String,
    /// Unrecognized sibling fields, preserved in source order.
    pub extensions: Vec<(String, Value)>,
}

/// Model of a [`ExternalDocumentation`].
#[verifier::ext_equal]
pub struct ExternalDocumentationView {
    pub description: Option<Seq<char>>,
    pub url: Seq<char>,
    pub extensions: Seq<(Seq<char>, ValueView)>,
}

impl View for ExternalDocumentation {
    type V = ExternalDocumentationView;

    open spec fn view(&self) -> ExternalDocumentationView {
        ExternalDocumentationView {
            description: view_opt_string(self.description),
            url: self.url@,
            extensions: obj_view(self.extensions@),
        }
    }
}

/// The declared keys are pairwise distinct.
pub proof fn lemma_external_documentation_keys_distinct()
    ensures
        forall|p: int, q: int|
            0 <= p < q < ExternalDocumentationView::known_keys().len() ==> ExternalDocumentationView::known_keys()[p]
                != ExternalDocumentationView::known_keys()[q],
{
    reveal_strlit("description");
    reveal_strlit("url");
    assert("description"@.len() == 11);
    assert("url"@.len() == 3);
}

impl ExternalDocumentationView {
    /// The declared wire keys.
    pub open spec fn known_keys() -> Seq<Seq<char>> {
        seq!["description"@, "url"@]
    }

    /// Declared fields in output order; absent options and empty
    /// sequences are omitted.
    pub open spec fn field_list(self) -> Seq<(Seq<char>, Option<ValueView>)> {
        seq![
            ("description"@, enc_opt_string(self.description)),
            ("url"@, Some(ValueView::Str(self.url))),
        ]
    }

    /// No extension key shadows a declared field, and every nested
    /// entity is well formed.
    pub open spec fn wf(self) -> bool {
        &&& forall|j: int|
            0 <= j < self.extensions.len() ==> !Self::known_keys().contains(
                (#[trigger] self.extensions[j]).0,
            )
    }

    /// The encoding: declared fields first, then the extensions.
    pub open spec fn encode(self) -> ValueView {
        ValueView::Object(present_fields(self.field_list()) + self.extensions)
    }

    /// The decoding of a structural value as this object.
    pub open spec fn decode(v: ValueView) -> Result<Self, DecodeError> {
        match v {
            ValueView::Object(entries) => {
                let description = dec_opt_string(lookup(entries, "description"@));
                let url = dec_req_string(lookup(entries, "url"@));
                if description is Err {
                    Err(description->Err_0)
                } else if url is Err {
                    Err(url->Err_0)
                } else {
                    Ok(
                        ExternalDocumentationView {
                            description: description->Ok_0,
                            url: url->Ok_0,
                            extensions: ext_of(entries, Self::known_keys()),
                        },
                    )
                }
            },
            _ => Err(DecodeError::StructuralMismatch),
        }
    }

    /// Decoding what a well-formed value encodes restores it exactly,
    /// extensions included.
    pub proof fn lemma_round_trip(m: ExternalDocumentationView)
        requires
            m.wf(),
        ensures
            Self::decode(m.encode()) == Ok::<_, DecodeError>(m),
    {
        let fl = m.field_list();
        let keys = ExternalDocumentationView::known_keys();
        lemma_external_documentation_keys_distinct();
        assert(forall|p: int| 0 <= p < fl.len() ==> (#[trigger] fl[p]).0 == keys[p]);
        assert(distinct_keys(fl));
        assert(forall|k: Seq<char>| has_field_key(fl, k) ==> keys.contains(k));
        assert(forall|j: int|
            0 <= j < m.extensions.len() ==> !has_field_key(fl, (#[trigger] m.extensions[j]).0));
        lemma_lookup_encoded(fl, m.extensions, 0);
        lemma_lookup_encoded(fl, m.extensions, 1);
        lemma_ext_encoded(fl, m.extensions, keys);
        assert(Self::decode(m.encode())->Ok_0 =~= m);
    }
}

impl ExternalDocumentation {
    /// Decodes this object; unrecognized keys are collected into
    /// `extensions` in source order.
    pub fn decode(v: &Value) -> (r: Result<ExternalDocumentation, DecodeError>)
        ensures
            match r {
                Ok(m) => ExternalDocumentationView::decode(v@) == Ok::<_, DecodeError>(m@),
                Err(e) => ExternalDocumentationView::decode(v@) == Err::<ExternalDocumentationView, _>(e),
            },
    {
        match v {
            Value::Object(entries) => {
                let description = match get_opt_string(find_field(entries, "description")) {
                    Ok(x) => x,
                    Err(e) => { return Err(e) },
                };
                let url = match get_req_string(find_field(entries, "url")) {
                    Ok(x) => x,
                    Err(e) => { return Err(e) },
                };
                let known: [&str; 2] = [
                    "description", "url",
                ];
                let ks: &[&str] = known.as_slice();
                let extensions = collect_extensions(entries, ks);
                proof {
                    assert(key_views(ks@) =~= ExternalDocumentationView::known_keys());
                }
                Ok(
                    ExternalDocumentation {
                        description,
                        url,
                        extensions,
                    },
                )
            },
            _ => Err(DecodeError::StructuralMismatch),
        }
    }

    /// Encodes this object: declared fields, then extensions.
    pub fn encode(&self) -> (r: Value)
        ensures
            r@ == self@.encode(),
    {
        let ghost fl = self@.field_list();
        let mut out: Vec<(String, Value)> = Vec::new();
        proof {
            assert(fl.subrange(0, 0) =~= Seq::<(Seq<char>, Option<ValueView>)>::empty());
            assert(present_fields(fl.subrange(0, 0)) =~= Seq::<(Seq<char>, ValueView)>::empty());
            assert(fl.subrange(0, 1) =~= fl.subrange(0, 0).push(fl[0]));
            lemma_present_fields_snoc(fl.subrange(0, 0), fl[0]);
        }
        if let Some(x) = &self.description {
            push_present(&mut out, "description", Value::Str(x.clone()));
        }
        proof {
            assert(obj_view(out@) =~= present_fields(fl.subrange(0, 1)));
            assert(fl.subrange(0, 2) =~= fl.subrange(0, 1).push(fl[1]));
            lemma_present_fields_snoc(fl.subrange(0, 1), fl[1]);
        }
        push_present(&mut out, "url", Value::Str(self.url.clone()));
        proof {
            assert(obj_view(out@) =~= present_fields(fl.subrange(0, 2)));
            assert(fl.subrange(0, 2) =~= fl);
        }
        push_entries(&mut out, &self.extensions);
        Value::Object(out)
    }
}

} // verus!
