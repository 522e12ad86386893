//! Tags for API documentation control.

#![allow(unused_imports)]

use vstd::prelude::*;

use crate::fields::dec_opt_bool;
use crate::fields::dec_opt_i32;
use crate::fields::dec_opt_string;
use crate::fields::dec_req_string;
use crate::fields::dec_value_list;
use crate::fields::dec_value_map;
use crate::fields::dec_vec_string;
use crate::fields::enc_opt_bool;
use crate::fields::enc_opt_i32;
use crate::fields::enc_opt_string;
use crate::fields::enc_string_list;
use crate::fields::encode_string_list;
use crate::fields::encode_value_list;
use crate::fields::encode_value_map;
use crate::fields::get_opt_bool;
use crate::fields::get_opt_i32;
use crate::fields::get_opt_string;
use crate::fields::get_req_string;
use crate::fields::get_value_list;
use crate::fields::get_value_map;
use crate::fields::get_vec_string;
use crate::fields::lemma_string_list_round_trip;
use crate::fields::view_opt_string;
use crate::fields::view_vec_string;
use crate::reference::Ref;
use crate::reference::RefOr;
use crate::reference::RefOrView;
use crate::reference::as_reference;
use crate::reference::enc_ref;
use crate::reference::encode_reference;
use crate::reference::lemma_ref_shape_enc;
use crate::reference::ref_shape;
use crate::value::DecodeError;
use crate::value::Value;
use crate::value::ValueView;
use crate::value::collect_extensions;
use crate::value::distinct_keys;
use crate::value::ext_of;
use crate::value::find_field;
use crate::value::has_field_key;
use crate::value::key_views;
use crate::value::lemma_ext_encoded;
use crate::value::lemma_list_view;
use crate::value::lemma_lookup_encoded;
use crate::value::lemma_obj_view;
use crate::value::lemma_present_fields_snoc;
use crate::value::list_view;
use crate::value::lookup;
use crate::value::obj_view;
use crate::value::present_fields;
use crate::value::push_entries;
use crate::value::push_present;
use crate::external_documentation::ExternalDocumentation;
use crate::external_documentation::ExternalDocumentationView;

verus! {

/// A tag for API documentation control: tags can be used for logical
/// grouping of entities.
#[derive(Debug, PartialEq)]
pub struct Tag {
    /// The name of the tag. Required.
    pub name: String,
    /// A short description for the tag.
    pub description: Option<String>,
    /// Additional external documentation for this tag.
    pub external_docs: Option<ExternalDocumentation>,
    /// Unrecognized sibling fields, preserved in source order.
    pub extensions: Vec<(String, Value)>,
}

/// Model of a [`Tag`].
#[verifier::ext_equal]
pub struct TagView {
    pub name: Seq<char>,
    pub description: Option<Seq<char>>,
    pub external_docs: Option<ExternalDocumentationView>,
    pub extensions: Seq<(Seq<char>, ValueView)>,
}

impl View for Tag {
    type V = TagView;

    open spec fn view(&self) -> TagView {
        TagView {
            name: self.name@,
            description: view_opt_string(self.description),
            external_docs: match self.external_docs {
                None => None,
                Some(x) => Some(x@),
            },
            extensions: obj_view(self.extensions@),
        }
    }
}

/// The declared keys are pairwise distinct.
pub proof fn lemma_tag_keys_distinct()
    ensures
        forall|p: int, q: int|
            0 <= p < q < TagView::known_keys().len() ==> TagView::known_keys()[p]
                != TagView::known_keys()[q],
{
    reveal_strlit("name");
    reveal_strlit("description");
    reveal_strlit("externalDocs");
    assert("name"@.len() == 4);
    assert("description"@.len() == 11);
    assert("externalDocs"@.len() == 12);
}

impl TagView {
    /// The declared wire keys.
    pub open spec fn known_keys() -> Seq<Seq<char>> {
        seq!["name"@, "description"@, "externalDocs"@]
    }

    /// Declared fields in output order; absent options and empty
    /// sequences are omitted.
    pub open spec fn field_list(self) -> Seq<(Seq<char>, Option<ValueView>)> {
        seq![
            ("name"@, Some(ValueView::Str(self.name))),
            ("description"@, enc_opt_string(self.description)),
            ("externalDocs"@, match self.external_docs {
                None => None,
                Some(m) => Some(m.encode()),
            }),
        ]
    }

    /// No extension key shadows a declared field, and every nested
    /// entity is well formed.
    pub open spec fn wf(self) -> bool {
        &&& forall|j: int|
            0 <= j < self.extensions.len() ==> !Self::known_keys().contains(
                (#[trigger] self.extensions[j]).0,
            )
        &&& match self.external_docs {
            None => true,
            Some(m) => m.wf(),
        }
    }

    /// The encoding: declared fields first, then the extensions.
    pub open spec fn encode(self) -> ValueView {
        ValueView::Object(present_fields(self.field_list()) + self.extensions)
    }

    /// The decoding of a structural value as this object.
    pub open spec fn decode(v: ValueView) -> Result<Self, DecodeError> {
        match v {
            ValueView::Object(entries) => {
                let name = dec_req_string(lookup(entries, "name"@));
                let description = dec_opt_string(lookup(entries, "description"@));
                let external_docs = match lookup(entries, "externalDocs"@) {
                    None => Ok(None),
                    Some(pv) => match ExternalDocumentationView::decode(pv) {
                        Ok(m) => Ok(Some(m)),
                        Err(e) => Err(e),
                    },
                };
                if name is Err {
                    Err(name->Err_0)
                } else if description is Err {
                    Err(description->Err_0)
                } else if external_docs is Err {
                    Err(external_docs->Err_0)
                } else {
                    Ok(
                        TagView {
                            name: name->Ok_0,
                            description: description->Ok_0,
                            external_docs: external_docs->Ok_0,
                            extensions: ext_of(entries, Self::known_keys()),
                        },
                    )
                }
            },
            _ => Err(DecodeError::StructuralMismatch),
        }
    }

    /// Decoding what a well-formed value encodes restores it exactly,
    /// extensions included.
    pub proof fn lemma_round_trip(m: TagView)
        requires
            m.wf(),
        ensures
            Self::decode(m.encode()) == Ok::<_, DecodeError>(m),
    {
        let fl = m.field_list();
        let keys = TagView::known_keys();
        lemma_tag_keys_distinct();
        assert(forall|p: int| 0 <= p < fl.len() ==> (#[trigger] fl[p]).0 == keys[p]);
        assert(distinct_keys(fl));
        assert(forall|k: Seq<char>| has_field_key(fl, k) ==> keys.contains(k));
        assert(forall|j: int|
            0 <= j < m.extensions.len() ==> !has_field_key(fl, (#[trigger] m.extensions[j]).0));
        lemma_lookup_encoded(fl, m.extensions, 0);
        lemma_lookup_encoded(fl, m.extensions, 1);
        lemma_lookup_encoded(fl, m.extensions, 2);
        lemma_ext_encoded(fl, m.extensions, keys);
        match m.external_docs {
            None => {},
            Some(x) => {
                ExternalDocumentationView::lemma_round_trip(x);
            },
        }
        assert(Self::decode(m.encode())->Ok_0 =~= m);
    }
}

impl Tag {
    /// Decodes this object; unrecognized keys are collected into
    /// `extensions` in source order.
    pub fn decode(v: &Value) -> (r: Result<Tag, DecodeError>)
        ensures
            match r {
                Ok(m) => TagView::decode(v@) == Ok::<_, DecodeError>(m@),
                Err(e) => TagView::decode(v@) == Err::<TagView, _>(e),
            },
    {
        match v {
            Value::Object(entries) => {
                let name = match get_req_string(find_field(entries, "name")) {
                    Ok(x) => x,
                    Err(e) => { return Err(e) },
                };
                let description = match get_opt_string(find_field(entries, "description")) {
                    Ok(x) => x,
                    Err(e) => { return Err(e) },
                };
                let external_docs = match find_field(entries, "externalDocs") {
                    None => None,
                    Some(x) => match ExternalDocumentation::decode(x) {
                        Ok(m) => Some(m),
                        Err(e) => { return Err(e) },
                    },
                };
                let known: [&str; 3] = [
                    "name", "description", "externalDocs",
                ];
                let ks: &[&str] = known.as_slice();
                let extensions = collect_extensions(entries, ks);
                proof {
                    assert(key_views(ks@) =~= TagView::known_keys());
                }
                Ok(
                    Tag {
                        name,
                        description,
                        external_docs,
                        extensions,
                    },
                )
            },
            _ => Err(DecodeError::StructuralMismatch),
        }
    }

    /// Encodes this object: declared fields, then extensions.
    pub fn encode(&self) -> (r: Value)
        ensures
            r@ == self@.encode(),
    {
        let ghost fl = self@.field_list();
        let mut out: Vec<(String, Value)> = Vec::new();
        proof {
            assert(fl.subrange(0, 0) =~= Seq::<(Seq<char>, Option<ValueView>)>::empty());
            assert(present_fields(fl.subrange(0, 0)) =~= Seq::<(Seq<char>, ValueView)>::empty());
            assert(fl.subrange(0, 1) =~= fl.subrange(0, 0).push(fl[0]));
            lemma_present_fields_snoc(fl.subrange(0, 0), fl[0]);
        }
        push_present(&mut out, "name", Value::Str(self.name.clone()));
        proof {
            assert(obj_view(out@) =~= present_fields(fl.subrange(0, 1)));
            assert(fl.subrange(0, 2) =~= fl.subrange(0, 1).push(fl[1]));
            lemma_present_fields_snoc(fl.subrange(0, 1), fl[1]);
        }
        if let Some(x) = &self.description {
            push_present(&mut out, "description", Value::Str(x.clone()));
        }
        proof {
            assert(obj_view(out@) =~= present_fields(fl.subrange(0, 2)));
            assert(fl.subrange(0, 3) =~= fl.subrange(0, 2).push(fl[2]));
            lemma_present_fields_snoc(fl.subrange(0, 2), fl[2]);
        }
        if let Some(m) = &self.external_docs {
            let ev = m.encode();
            push_present(&mut out, "externalDocs", ev);
        }
        proof {
            assert(obj_view(out@) =~= present_fields(fl.subrange(0, 3)));
            assert(fl.subrange(0, 3) =~= fl);
        }
        push_entries(&mut out, &self.extensions);
        Value::Object(out)
    }
}

/// Model of a list of tags, element by element.
pub open spec fn tag_list_view(l: Seq<Tag>) -> Seq<TagView>
    decreases l.len(),
{
    if l.len() == 0 {
        Seq::empty()
    } else {
        seq![l[0]@] + tag_list_view(l.subrange(1, l.len() as int))
    }
}

/// `tag_list_view` maps the sequence pointwise.
pub broadcast proof fn lemma_tag_list_view(l: Seq<Tag>)
    ensures
        (#[trigger] tag_list_view(l)).len() == l.len(),
        forall|i: int| 0 <= i < l.len() ==> tag_list_view(l)[i] == l[i]@,
    decreases l.len(),
{
    if l.len() > 0 {
        lemma_tag_list_view(l.subrange(1, l.len() as int));
    }
}

/// The encoding of a list of tags, element by element.
pub open spec fn enc_tag_list(l: Seq<TagView>) -> Seq<ValueView>
    decreases l.len(),
{
    if l.len() == 0 {
        Seq::empty()
    } else {
        seq![l[0].encode()] + enc_tag_list(l.subrange(1, l.len() as int))
    }
}

/// The decoding of a list of tags, element by element.
#[verifier::opaque]
pub open spec fn dec_tag_list_items(items: Seq<ValueView>) -> Result<Seq<TagView>, DecodeError>
    decreases items.len(),
{
    if items.len() == 0 {
        Ok(Seq::empty())
    } else {
        let head = TagView::decode(items[0]);
        let rest = dec_tag_list_items(items.subrange(1, items.len() as int));
        if head is Err {
            Err(head->Err_0)
        } else if rest is Err {
            Err(rest->Err_0)
        } else {
            Ok(seq![head->Ok_0] + rest->Ok_0)
        }
    }
}

/// Every member of the list is well formed.
pub open spec fn wf_tag_list(l: Seq<TagView>) -> bool
    decreases l.len(),
{
    l.len() == 0 || (l[0].wf() && wf_tag_list(l.subrange(1, l.len() as int)))
}

/// Decoding an encoded list of tags restores it.
pub proof fn lemma_tag_list_round_trip(l: Seq<TagView>)
    requires
        wf_tag_list(l),
    ensures
        dec_tag_list_items(enc_tag_list(l)) == Ok::<_, DecodeError>(l),
    decreases l.len(),
{
    reveal(dec_tag_list_items);
    if l.len() > 0 {
        let rest = l.subrange(1, l.len() as int);
        TagView::lemma_round_trip(l[0]);
        lemma_tag_list_round_trip(rest);
        let whole = enc_tag_list(l);
        assert(whole[0] == l[0].encode());
        assert(whole.subrange(1, whole.len() as int) =~= enc_tag_list(rest));
        assert(dec_tag_list_items(whole)->Ok_0 =~= l);
    } else {
        assert(l =~= Seq::<TagView>::empty());
        assert(enc_tag_list(l) =~= Seq::<ValueView>::empty());
        assert(dec_tag_list_items(enc_tag_list(l))->Ok_0 =~= l);
    }
}

/// Encodes a list of tags, element by element.
pub fn encode_tag_list_items(l: &Vec<Tag>) -> (res: Vec<Value>)
    ensures
        list_view(res@) == enc_tag_list(tag_list_view(l@)),
{
    let ghost lv = tag_list_view(l@);
    proof {
        lemma_tag_list_view(l@);
    }
    let n = l.len();
    let mut out: Vec<Value> = Vec::new();
    let mut i: usize = 0;
    proof {
        assert(lv.subrange(0, lv.len() as int) =~= lv);
        assert(list_view(out@) + enc_tag_list(lv) =~= enc_tag_list(lv));
    }
    while i < n
        invariant
            n == l@.len(),
            0 <= i <= n,
            lv == tag_list_view(l@),
            lv.len() == n,
            forall|j: int| 0 <= j < n ==> tag_list_view(l@)[j] == l@[j]@,
            enc_tag_list(lv) == list_view(out@) + enc_tag_list(
                lv.subrange(i as int, n as int),
            ),
        decreases n - i,
    {
        let ghost prev = out@;
        let ev = l[i].encode();
        out.push(ev);
        proof {
            let tail = lv.subrange(i as int, n as int);
            assert(tail[0] == lv[i as int]);
            assert(tail.subrange(1, tail.len() as int) =~= lv.subrange(i as int + 1, n as int));
            lemma_list_view(out@);
            lemma_list_view(prev);
            assert(list_view(out@) =~= list_view(prev).push(lv[i as int].encode()));
            assert(list_view(prev) + (seq![lv[i as int].encode()] + enc_tag_list(
                lv.subrange(i as int + 1, n as int),
            )) =~= list_view(out@) + enc_tag_list(lv.subrange(i as int + 1, n as int)));
        }
        i += 1;
    }
    proof {
        assert(lv.subrange(n as int, n as int) =~= Seq::<TagView>::empty());
        assert(enc_tag_list(lv.subrange(n as int, n as int)) =~= Seq::<ValueView>::empty());
        assert(list_view(out@) + Seq::<ValueView>::empty() =~= list_view(out@));
    }
    out
}

/// Decodes the elements of a list of tags.
pub fn decode_tag_list_items(items: &Vec<Value>) -> (r: Result<Vec<Tag>, DecodeError>)
    ensures
        match r {
            Ok(x) => dec_tag_list_items(list_view(items@)) == Ok::<_, DecodeError>(
                tag_list_view(x@),
            ),
            Err(e) => dec_tag_list_items(list_view(items@)) == Err::<Seq<TagView>, _>(e),
        },
{
    proof {
        reveal(dec_tag_list_items);
    }
    let ghost lv = list_view(items@);
    proof {
        lemma_list_view(items@);
    }
    let n = items.len();
    let mut out: Vec<Tag> = Vec::new();
    let mut i: usize = 0;
    proof {
        assert(lv.subrange(0, lv.len() as int) =~= lv);
        assert(tag_list_view(out@) =~= Seq::<TagView>::empty());
        lemma_tag_list_view(out@);
    }
    while i < n
        invariant
            n == items@.len(),
            0 <= i <= n,
            lv == list_view(items@),
            lv.len() == n,
            forall|j: int| 0 <= j < n ==> lv[j] == crate::value::value_view(items@[j]),
            dec_tag_list_items(lv) == (match dec_tag_list_items(
                lv.subrange(i as int, n as int),
            ) {
                Ok(t) => Ok::<_, DecodeError>(tag_list_view(out@) + t),
                Err(e) => Err(e),
            }),
        decreases n - i,
    {
        let ghost prev = out@;
        let ghost tail = lv.subrange(i as int, n as int);
        proof {
            reveal(dec_tag_list_items);
            assert(tail[0] == lv[i as int]);
            assert(tail.subrange(1, tail.len() as int) =~= lv.subrange(i as int + 1, n as int));
        }
        match Tag::decode(&items[i]) {
            Ok(x) => {
                out.push(x);
                proof {
                    reveal(dec_tag_list_items);
                    lemma_tag_list_view(out@);
                    lemma_tag_list_view(prev);
                    assert(tag_list_view(out@) =~= tag_list_view(prev).push(x@));
                    assert(tag_list_view(prev) + (seq![x@] + dec_tag_list_items(
                        lv.subrange(i as int + 1, n as int),
                    )->Ok_0) =~= tag_list_view(out@) + dec_tag_list_items(
                        lv.subrange(i as int + 1, n as int),
                    )->Ok_0);
                }
            },
            Err(e) => {
                return Err(e);
            },
        }
        i += 1;
    }
    proof {
        reveal(dec_tag_list_items);
        assert(lv.subrange(n as int, n as int) =~= Seq::<ValueView>::empty());
        assert(tag_list_view(out@) + Seq::<TagView>::empty() =~= tag_list_view(out@));
    }
    Ok(out)
}

} // verus!
