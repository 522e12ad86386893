//! The discriminator object: names the payload property that selects among
//! alternative schemas, with an optional value-to-schema mapping.

use vstd::prelude::*;

use crate::fields::dec_req_string;
use crate::fields::dec_string_map;
use crate::fields::enc_string_map;
use crate::fields::get_req_string;
use crate::fields::get_string_map;
use crate::fields::lemma_string_map_round_trip;
use crate::fields::view_string_map;
use crate::value::DecodeError;
use crate::value::Value;
use crate::value::ValueView;
use crate::value::collect_extensions;
use crate::value::distinct_keys;
use crate::value::ext_of;
use crate::value::find_field;
use crate::value::has_field_key;
use crate::value::key_views;
use crate::value::lemma_ext_encoded;
use crate::value::lemma_ext_of_keys;
use crate::value::lemma_lookup_encoded;
use crate::value::lemma_present_fields_snoc;
use crate::value::lookup;
use crate::value::obj_view;
use crate::value::present_fields;
use crate::value::push_entries;
use crate::value::push_present;

verus! {

/// Informs a consumer which alternative schema applies, by the value of a
/// named payload property.
#[derive(Debug, PartialEq)]
pub struct Discriminator {
    /// The name of the property in the payload that holds the discriminator
    /// value. Required.
    pub property_name: String,
    /// Mappings between payload values and schema names or references, in
    /// source order.
    pub mapping: Vec<(String, String)>,
    /// Unrecognized sibling fields, preserved in source order.
    pub extensions: Vec<(String, Value)>,
}

/// Model of a [`Discriminator`].
#[verifier::ext_equal]
pub struct DiscriminatorView {
    pub property_name: Seq<char>,
    pub mapping: Seq<(Seq<char>, Seq<char>)>,
    pub extensions: Seq<(Seq<char>, ValueView)>,
}

impl View for Discriminator {
    type V = DiscriminatorView;

    open spec fn view(&self) -> DiscriminatorView {
        DiscriminatorView {
            property_name: self.property_name@,
            mapping: view_string_map(self.mapping@),
            extensions: obj_view(self.extensions@),
        }
    }
}

impl DiscriminatorView {
    /// The declared wire keys.
    pub open spec fn known_keys() -> Seq<Seq<char>> {
        seq!["propertyName"@, "mapping"@]
    }

    /// Declared fields in output order; an empty mapping is omitted.
    pub open spec fn field_list(self) -> Seq<(Seq<char>, Option<ValueView>)> {
        seq![
            ("propertyName"@, Some(ValueView::Str(self.property_name))),
            (
                "mapping"@,
                if self.mapping.len() == 0 {
                    None
                } else {
                    Some(enc_string_map(self.mapping))
                },
            ),
        ]
    }

    /// No extension key shadows a declared field.
    pub open spec fn wf(self) -> bool {
        forall|j: int|
            0 <= j < self.extensions.len() ==> !Self::known_keys().contains(
                (#[trigger] self.extensions[j]).0,
            )
    }

    /// The encoding: declared fields first, then the extensions.
    pub open spec fn encode(self) -> ValueView {
        ValueView::Object(present_fields(self.field_list()) + self.extensions)
    }

    /// The decoding of a structural value as a discriminator object.
    pub open spec fn decode(v: ValueView) -> Result<Self, DecodeError> {
        match v {
            ValueView::Object(entries) => {
                let property_name = dec_req_string(lookup(entries, "propertyName"@));
                let mapping = dec_string_map(lookup(entries, "mapping"@));
                if property_name is Err {
                    Err(property_name->Err_0)
                } else if mapping is Err {
                    Err(mapping->Err_0)
                } else {
                    Ok(
                        DiscriminatorView {
                            property_name: property_name->Ok_0,
                            mapping: mapping->Ok_0,
                            extensions: ext_of(entries, Self::known_keys()),
                        },
                    )
                }
            },
            _ => Err(DecodeError::StructuralMismatch),
        }
    }

    /// Decoding what a well-formed discriminator encodes restores it
    /// exactly, extensions included.
    pub proof fn lemma_round_trip(m: DiscriminatorView)
        requires
            m.wf(),
        ensures
            Self::decode(m.encode()) == Ok::<_, DecodeError>(m),
    {
        let fl = m.field_list();
        let entries = present_fields(fl) + m.extensions;
        reveal_strlit("propertyName");
        reveal_strlit("mapping");
        assert("propertyName"@.len() == 12);
        assert("mapping"@.len() == 7);
        assert("propertyName"@ != "mapping"@);
        assert(distinct_keys(fl));
        assert(forall|k: Seq<char>| has_field_key(fl, k) ==> Self::known_keys().contains(k));
        assert(forall|j: int|
            0 <= j < m.extensions.len() ==> !has_field_key(fl, (#[trigger] m.extensions[j]).0));
        lemma_lookup_encoded(fl, m.extensions, 0);
        lemma_lookup_encoded(fl, m.extensions, 1);
        lemma_ext_encoded(fl, m.extensions, Self::known_keys());
        if m.mapping.len() == 0 {
            assert(m.mapping =~= Seq::<(Seq<char>, Seq<char>)>::empty());
        } else {
            lemma_string_map_round_trip(m.mapping);
        }
        assert(Self::decode(m.encode())->Ok_0 =~= m);
    }

    /// Whatever decodes successfully is well formed.
    pub proof fn lemma_decode_wf(v: ValueView)
        ensures
            Self::decode(v) matches Ok(m) ==> m.wf(),
    {
        match v {
            ValueView::Object(entries) => lemma_ext_of_keys(entries, Self::known_keys()),
            _ => (),
        }
    }
}

impl Discriminator {
    /// Decodes a discriminator object; unrecognized keys are collected into
    /// `extensions` in source order.
    pub fn decode(v: &Value) -> (r: Result<Discriminator, DecodeError>)
        ensures
            match r {
                Ok(m) => DiscriminatorView::decode(v@) == Ok::<_, DecodeError>(m@),
                Err(e) => DiscriminatorView::decode(v@) == Err::<DiscriminatorView, _>(e),
            },
    {
        match v {
            Value::Object(entries) => {
                let property_name = match get_req_string(find_field(entries, "propertyName")) {
                    Ok(x) => x,
                    Err(e) => { return Err(e) },
                };
                let mapping = match get_string_map(find_field(entries, "mapping")) {
                    Ok(x) => x,
                    Err(e) => { return Err(e) },
                };
                let known: [&str; 2] = ["propertyName", "mapping"];
                let ks: &[&str] = known.as_slice();
                let extensions = collect_extensions(entries, ks);
                proof {
                    assert(key_views(ks@) =~= DiscriminatorView::known_keys());
                }
                Ok(Discriminator { property_name, mapping, extensions })
            },
            _ => Err(DecodeError::StructuralMismatch),
        }
    }

    /// Encodes the discriminator: declared fields, then extensions.
    pub fn encode(&self) -> (r: Value)
        ensures
            r@ == self@.encode(),
    {
        let ghost fl = self@.field_list();
        let mut out: Vec<(String, Value)> = Vec::new();
        proof {
            assert(fl.subrange(0, 0) =~= Seq::<(Seq<char>, Option<ValueView>)>::empty());
            assert(present_fields(fl.subrange(0, 0)) =~= Seq::<(Seq<char>, ValueView)>::empty());
            assert(fl.subrange(0, 1) =~= fl.subrange(0, 0).push(fl[0]));
            lemma_present_fields_snoc(fl.subrange(0, 0), fl[0]);
        }
        push_present(&mut out, "propertyName", Value::Str(self.property_name.clone()));
        proof {
            assert(obj_view(out@) =~= present_fields(fl.subrange(0, 1)));
            assert(fl.subrange(0, 2) =~= fl.subrange(0, 1).push(fl[1]));
            lemma_present_fields_snoc(fl.subrange(0, 1), fl[1]);
        }
        if self.mapping.len() > 0 {
            push_present(&mut out, "mapping", crate::fields::encode_string_map(&self.mapping));
        }
        proof {
            assert(obj_view(out@) =~= present_fields(fl.subrange(0, 2)));
            assert(fl.subrange(0, 2) =~= fl);
        }
        push_entries(&mut out, &self.extensions);
        Value::Object(out)
    }
}

} // verus!
