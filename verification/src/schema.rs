//! The schema object: a recursive, JSON-Schema-like description of payload
//! shape, whose children may be inline schemas or references.

use vstd::prelude::*;

use crate::discriminator::Discriminator;
use crate::discriminator::DiscriminatorView;
use crate::fields::dec_opt_string;
use crate::fields::dec_value_list;
use crate::fields::dec_vec_string;
use crate::fields::enc_opt_string;
use crate::fields::enc_string_list;
use crate::fields::view_opt_string;
use crate::fields::view_vec_string;
use crate::reference::Ref;
use crate::reference::RefOr;
use crate::reference::RefOrView;
use crate::reference::enc_ref;
use crate::reference::ref_shape;
use crate::value::DecodeError;
use crate::value::Value;
use crate::value::ValueView;
use crate::value::distinct_keys;
use crate::value::ext_of;
use crate::value::has_field_key;
use crate::value::lemma_ext_encoded;
use crate::value::lemma_lookup_encoded;
use crate::value::find_field;
use crate::value::lemma_lookup_decreases;
use crate::value::list_view;
use crate::value::lookup;
use crate::value::obj_view;
use crate::value::present_fields;

verus! {

/// A JSON-Schema-like description of data shape. Children under
/// `properties`, `items`, the composition keywords and `not` are either
/// inline schemas or references.
#[derive(Debug, PartialEq)]
pub struct Schema {
    /// The `type` keyword.
    pub schema_type: Option<String>,
    /// The `format` keyword.
    pub format: Option<String>,
    /// A human-friendly title.
    pub title: Option<String>,
    /// A verbose explanation.
    pub description: Option<String>,
    /// Names of required properties; empty means the keyword is absent.
    pub required: Vec<String>,
    /// The `enum` keyword: allowed values, untyped.
    pub enum_values: Vec<Value>,
    /// Named child schemas, in source order.
    pub properties: Vec<(String, RefOr<Schema>)>,
    /// The schema of sequence elements.
    pub items: Option<Box<RefOr<Schema>>>,
    /// The `oneOf` composition members.
    pub one_of: Vec<RefOr<Schema>>,
    /// The `anyOf` composition members.
    pub any_of: Vec<RefOr<Schema>>,
    /// The `allOf` composition members.
    pub all_of: Vec<RefOr<Schema>>,
    /// The `not` keyword.
    pub not: Option<Box<RefOr<Schema>>>,
    /// The discriminator for alternative schemas.
    pub discriminator: Option<Discriminator>,
    /// Unrecognized sibling fields, preserved in source order.
    pub extensions: Vec<(String, Value)>,
}

/// Model of a [`Schema`].
#[verifier::ext_equal]
pub struct SchemaView {
    pub schema_type: Option<Seq<char>>,
    pub format: Option<Seq<char>>,
    pub title: Option<Seq<char>>,
    pub description: Option<Seq<char>>,
    pub required: Seq<Seq<char>>,
    pub enum_values: Seq<ValueView>,
    pub properties: Seq<(Seq<char>, RefOrView<SchemaView>)>,
    pub items: Option<Box<RefOrView<SchemaView>>>,
    pub one_of: Seq<RefOrView<SchemaView>>,
    pub any_of: Seq<RefOrView<SchemaView>>,
    pub all_of: Seq<RefOrView<SchemaView>>,
    pub not: Option<Box<RefOrView<SchemaView>>>,
    pub discriminator: Option<DiscriminatorView>,
    pub extensions: Seq<(Seq<char>, ValueView)>,
}

/// Model of a schema value.
pub open spec fn schema_view(s: Schema) -> SchemaView
    decreases s, 1int,
{
    SchemaView {
        schema_type: view_opt_string(s.schema_type),
        format: view_opt_string(s.format),
        title: view_opt_string(s.title),
        description: view_opt_string(s.description),
        required: view_vec_string(s.required@),
        enum_values: list_view(s.enum_values@),
        properties: schema_map_view(s.properties@),
        items: match s.items {
            None => None,
            Some(b) => Some(Box::new(ref_or_schema_view(*b))),
        },
        one_of: schema_list_view(s.one_of@),
        any_of: schema_list_view(s.any_of@),
        all_of: schema_list_view(s.all_of@),
        not: match s.not {
            None => None,
            Some(b) => Some(Box::new(ref_or_schema_view(*b))),
        },
        discriminator: match s.discriminator {
            None => None,
            Some(d) => Some(d@),
        },
        extensions: obj_view(s.extensions@),
    }
}

/// Model of a reference-or-schema value.
pub open spec fn ref_or_schema_view(r: RefOr<Schema>) -> RefOrView<SchemaView>
    decreases r, 2int,
{
    match r {
        RefOr::Ref(rf) => RefOrView::Ref(rf.ref_location@),
        RefOr::T(s) => RefOrView::Val(schema_view(s)),
    }
}

/// Model of named child schemas, entry by entry.
pub open spec fn schema_map_view(m: Seq<(String, RefOr<Schema>)>) -> Seq<
    (Seq<char>, RefOrView<SchemaView>),
>
    decreases m, 0int,
{
    if m.len() == 0 {
        Seq::empty()
    } else {
        seq![(m[0].0@, ref_or_schema_view(m[0].1))] + schema_map_view(
            m.subrange(1, m.len() as int),
        )
    }
}

/// Model of a list of child schemas, element by element.
pub open spec fn schema_list_view(l: Seq<RefOr<Schema>>) -> Seq<RefOrView<SchemaView>>
    decreases l, 0int,
{
    if l.len() == 0 {
        Seq::empty()
    } else {
        seq![ref_or_schema_view(l[0])] + schema_list_view(l.subrange(1, l.len() as int))
    }
}

impl View for Schema {
    type V = SchemaView;

    open spec fn view(&self) -> SchemaView {
        schema_view(*self)
    }
}

/// The generic [`RefOr`] view agrees with the schema-specific model.
pub broadcast proof fn lemma_ref_or_schema_view(r: RefOr<Schema>)
    ensures
        #[trigger] r@ == ref_or_schema_view(r),
{
    match r {
        RefOr::Ref(_) => {},
        RefOr::T(_) => {},
    }
}

/// `schema_map_view` maps the entry sequence pointwise.
pub broadcast proof fn lemma_schema_map_view(m: Seq<(String, RefOr<Schema>)>)
    ensures
        (#[trigger] schema_map_view(m)).len() == m.len(),
        forall|i: int|
            0 <= i < m.len() ==> schema_map_view(m)[i] == (
            m[i].0@,
            ref_or_schema_view(m[i].1),
            ),
    decreases m,
{
    if m.len() > 0 {
        lemma_schema_map_view(m.subrange(1, m.len() as int));
    }
}

/// `schema_list_view` maps the sequence pointwise.
pub broadcast proof fn lemma_schema_list_view(l: Seq<RefOr<Schema>>)
    ensures
        (#[trigger] schema_list_view(l)).len() == l.len(),
        forall|i: int|
            0 <= i < l.len() ==> schema_list_view(l)[i] == ref_or_schema_view(l[i]),
    decreases l,
{
    if l.len() > 0 {
        lemma_schema_list_view(l.subrange(1, l.len() as int));
    }
}

/// The encoding of a reference-or-schema: the reference object, or the
/// schema's own object.
pub open spec fn enc_ref_or_schema(r: RefOrView<SchemaView>) -> ValueView
    decreases r, 2int,
{
    match r {
        RefOrView::Ref(loc) => enc_ref(loc),
        RefOrView::Val(m) => m.encode(),
    }
}

/// The encoding of named child schemas, entry by entry.
pub open spec fn enc_schema_map(m: Seq<(Seq<char>, RefOrView<SchemaView>)>) -> Seq<
    (Seq<char>, ValueView),
>
    decreases m, 0int,
{
    if m.len() == 0 {
        Seq::empty()
    } else {
        seq![(m[0].0, enc_ref_or_schema(m[0].1))] + enc_schema_map(m.subrange(1, m.len() as int))
    }
}

/// The encoding of a list of child schemas, element by element.
pub open spec fn enc_schema_list(l: Seq<RefOrView<SchemaView>>) -> Seq<ValueView>
    decreases l, 0int,
{
    if l.len() == 0 {
        Seq::empty()
    } else {
        seq![enc_ref_or_schema(l[0])] + enc_schema_list(l.subrange(1, l.len() as int))
    }
}

/// The decoding of a reference-or-schema: the reference shape is tried
/// first, always; only a value that does not match it is read as a schema.
#[verifier::opaque]
pub open spec fn dec_ref_or_schema(v: ValueView) -> Result<RefOrView<SchemaView>, DecodeError>
    decreases v, 1int,
{
    match ref_shape(v) {
        Some(loc) => Ok(RefOrView::Ref(loc)),
        None => match SchemaView::decode(v) {
            Ok(m) => Ok(RefOrView::Val(m)),
            Err(e) => Err(e),
        },
    }
}

/// The decoding of named child schemas, entry by entry.
pub open spec fn dec_schema_map_entries(entries: Seq<(Seq<char>, ValueView)>) -> Result<
    Seq<(Seq<char>, RefOrView<SchemaView>)>,
    DecodeError,
>
    decreases entries, 0int,
{
    if entries.len() == 0 {
        Ok(Seq::empty())
    } else {
        let head = dec_ref_or_schema(entries[0].1);
        let rest = dec_schema_map_entries(entries.subrange(1, entries.len() as int));
        if head is Err {
            Err(head->Err_0)
        } else if rest is Err {
            Err(rest->Err_0)
        } else {
            Ok(seq![(entries[0].0, head->Ok_0)] + rest->Ok_0)
        }
    }
}

/// The decoding of a list of child schemas, element by element.
pub open spec fn dec_schema_list_items(items: Seq<ValueView>) -> Result<
    Seq<RefOrView<SchemaView>>,
    DecodeError,
>
    decreases items, 0int,
{
    if items.len() == 0 {
        Ok(Seq::empty())
    } else {
        let head = dec_ref_or_schema(items[0]);
        let rest = dec_schema_list_items(items.subrange(1, items.len() as int));
        if head is Err {
            Err(head->Err_0)
        } else if rest is Err {
            Err(rest->Err_0)
        } else {
            Ok(seq![head->Ok_0] + rest->Ok_0)
        }
    }
}

impl SchemaView {
    /// The declared wire keys.
    pub open spec fn known_keys() -> Seq<Seq<char>> {
        seq![
            "type"@,
            "format"@,
            "title"@,
            "description"@,
            "required"@,
            "enum"@,
            "properties"@,
            "items"@,
            "oneOf"@,
            "anyOf"@,
            "allOf"@,
            "not"@,
            "discriminator"@,
        ]
    }

    /// Declared fields in output order; absent options and empty
    /// sequences and mappings are omitted.
    pub open spec fn field_list(self) -> Seq<(Seq<char>, Option<ValueView>)>
        decreases self, 0int,
    {
        seq![
            ("type"@, enc_opt_string(self.schema_type)),
            ("format"@, enc_opt_string(self.format)),
            ("title"@, enc_opt_string(self.title)),
            ("description"@, enc_opt_string(self.description)),
            (
                "required"@,
                if self.required.len() == 0 {
                    None
                } else {
                    Some(enc_string_list(self.required))
                },
            ),
            (
                "enum"@,
                if self.enum_values.len() == 0 {
                    None
                } else {
                    Some(ValueView::List(self.enum_values))
                },
            ),
            (
                "properties"@,
                if self.properties.len() == 0 {
                    None
                } else {
                    Some(ValueView::Object(enc_schema_map(self.properties)))
                },
            ),
            (
                "items"@,
                match self.items {
                    None => None,
                    Some(r) => Some(enc_ref_or_schema(*r)),
                },
            ),
            (
                "oneOf"@,
                if self.one_of.len() == 0 {
                    None
                } else {
                    Some(ValueView::List(enc_schema_list(self.one_of)))
                },
            ),
            (
                "anyOf"@,
                if self.any_of.len() == 0 {
                    None
                } else {
                    Some(ValueView::List(enc_schema_list(self.any_of)))
                },
            ),
            (
                "allOf"@,
                if self.all_of.len() == 0 {
                    None
                } else {
                    Some(ValueView::List(enc_schema_list(self.all_of)))
                },
            ),
            (
                "not"@,
                match self.not {
                    None => None,
                    Some(r) => Some(enc_ref_or_schema(*r)),
                },
            ),
            (
                "discriminator"@,
                match self.discriminator {
                    None => None,
                    Some(d) => Some(d.encode()),
                },
            ),
        ]
    }

    /// The encoding: declared fields first, then the extensions.
    pub open spec fn encode(self) -> ValueView
        decreases self, 1int,
    {
        ValueView::Object(present_fields(self.field_list()) + self.extensions)
    }

    /// The decoding of a structural value as a schema object.
    pub open spec fn decode(v: ValueView) -> Result<SchemaView, DecodeError>
        decreases v, 0int,
    {
        match v {
            ValueView::Object(entries) => {
                let schema_type = dec_opt_string(lookup(entries, "type"@));
                let format = dec_opt_string(lookup(entries, "format"@));
                let title = dec_opt_string(lookup(entries, "title"@));
                let description = dec_opt_string(lookup(entries, "description"@));
                let required = dec_vec_string(lookup(entries, "required"@));
                let enum_values = dec_value_list(lookup(entries, "enum"@));
                let properties = match lookup(entries, "properties"@) {
                    None => Ok(Seq::<(Seq<char>, RefOrView<SchemaView>)>::empty()),
                    Some(pv) => {
                        proof {
                            lemma_lookup_decreases(v, "properties"@);
                        }
                        match pv {
                            ValueView::Object(pes) => dec_schema_map_entries(pes),
                            _ => Err(DecodeError::StructuralMismatch),
                        }
                    },
                };
                let items = match lookup(entries, "items"@) {
                    None => Ok(None),
                    Some(pv) => {
                        proof {
                            lemma_lookup_decreases(v, "items"@);
                        }
                        match dec_ref_or_schema(pv) {
                            Ok(r) => Ok(Some(Box::new(r))),
                            Err(e) => Err(e),
                        }
                    },
                };
                let one_of = match lookup(entries, "oneOf"@) {
                    None => Ok(Seq::<RefOrView<SchemaView>>::empty()),
                    Some(pv) => {
                        proof {
                            lemma_lookup_decreases(v, "oneOf"@);
                        }
                        match pv {
                            ValueView::List(pis) => dec_schema_list_items(pis),
                            _ => Err(DecodeError::StructuralMismatch),
                        }
                    },
                };
                let any_of = match lookup(entries, "anyOf"@) {
                    None => Ok(Seq::<RefOrView<SchemaView>>::empty()),
                    Some(pv) => {
                        proof {
                            lemma_lookup_decreases(v, "anyOf"@);
                        }
                        match pv {
                            ValueView::List(pis) => dec_schema_list_items(pis),
                            _ => Err(DecodeError::StructuralMismatch),
                        }
                    },
                };
                let all_of = match lookup(entries, "allOf"@) {
                    None => Ok(Seq::<RefOrView<SchemaView>>::empty()),
                    Some(pv) => {
                        proof {
                            lemma_lookup_decreases(v, "allOf"@);
                        }
                        match pv {
                            ValueView::List(pis) => dec_schema_list_items(pis),
                            _ => Err(DecodeError::StructuralMismatch),
                        }
                    },
                };
                let not = match lookup(entries, "not"@) {
                    None => Ok(None),
                    Some(pv) => {
                        proof {
                            lemma_lookup_decreases(v, "not"@);
                        }
                        match dec_ref_or_schema(pv) {
                            Ok(r) => Ok(Some(Box::new(r))),
                            Err(e) => Err(e),
                        }
                    },
                };
                let discriminator = match lookup(entries, "discriminator"@) {
                    None => Ok(None),
                    Some(pv) => match DiscriminatorView::decode(pv) {
                        Ok(d) => Ok(Some(d)),
                        Err(e) => Err(e),
                    },
                };
                if schema_type is Err {
                    Err(schema_type->Err_0)
                } else if format is Err {
                    Err(format->Err_0)
                } else if title is Err {
                    Err(title->Err_0)
                } else if description is Err {
                    Err(description->Err_0)
                } else if required is Err {
                    Err(required->Err_0)
                } else if enum_values is Err {
                    Err(enum_values->Err_0)
                } else if properties is Err {
                    Err(properties->Err_0)
                } else if items is Err {
                    Err(items->Err_0)
                } else if one_of is Err {
                    Err(one_of->Err_0)
                } else if any_of is Err {
                    Err(any_of->Err_0)
                } else if all_of is Err {
                    Err(all_of->Err_0)
                } else if not is Err {
                    Err(not->Err_0)
                } else if discriminator is Err {
                    Err(discriminator->Err_0)
                } else {
                    Ok(
                        SchemaView {
                            schema_type: schema_type->Ok_0,
                            format: format->Ok_0,
                            title: title->Ok_0,
                            description: description->Ok_0,
                            required: required->Ok_0,
                            enum_values: enum_values->Ok_0,
                            properties: properties->Ok_0,
                            items: items->Ok_0,
                            one_of: one_of->Ok_0,
                            any_of: any_of->Ok_0,
                            all_of: all_of->Ok_0,
                            not: not->Ok_0,
                            discriminator: discriminator->Ok_0,
                            extensions: ext_of(entries, Self::known_keys()),
                        },
                    )
                }
            },
            _ => Err(DecodeError::StructuralMismatch),
        }
    }
}

/// A reference is well formed outright; an inline schema must be well
/// formed and must not encode to the reference shape (such a value would
/// decode as a reference, by the fixed priority).
pub open spec fn wf_ref_or_schema(r: RefOrView<SchemaView>) -> bool
    decreases r, 2int,
{
    match r {
        RefOrView::Ref(_) => true,
        RefOrView::Val(m) => m.wf() && ref_shape(m.encode()) is None,
    }
}

/// Every child of a named-schema mapping is well formed.
pub open spec fn wf_schema_map(m: Seq<(Seq<char>, RefOrView<SchemaView>)>) -> bool
    decreases m, 0int,
{
    m.len() == 0 || (wf_ref_or_schema(m[0].1) && wf_schema_map(m.subrange(1, m.len() as int)))
}

/// Every member of a schema list is well formed.
pub open spec fn wf_schema_list(l: Seq<RefOrView<SchemaView>>) -> bool
    decreases l, 0int,
{
    l.len() == 0 || (wf_ref_or_schema(l[0]) && wf_schema_list(l.subrange(1, l.len() as int)))
}

impl SchemaView {
    /// No extension key shadows a declared field, and every child is well
    /// formed.
    pub open spec fn wf(self) -> bool
        decreases self, 1int,
    {
        &&& forall|j: int|
            0 <= j < self.extensions.len() ==> !Self::known_keys().contains(
                (#[trigger] self.extensions[j]).0,
            )
        &&& wf_schema_map(self.properties)
        &&& match self.items {
            None => true,
            Some(b) => wf_ref_or_schema(*b),
        }
        &&& wf_schema_list(self.one_of)
        &&& wf_schema_list(self.any_of)
        &&& wf_schema_list(self.all_of)
        &&& match self.not {
            None => true,
            Some(b) => wf_ref_or_schema(*b),
        }
        &&& match self.discriminator {
            None => true,
            Some(d) => d.wf(),
        }
    }
}

/// The reference shape takes priority, always: any value matching it
/// decodes as a reference, never as an inline schema, even where a schema
/// could also accept the object.
pub proof fn lemma_ref_priority(v: ValueView)
    ensures
        ref_shape(v) matches Some(loc) ==> dec_ref_or_schema(v) == Ok::<_, DecodeError>(
            RefOrView::<SchemaView>::Ref(loc),
        ),
{
    reveal(dec_ref_or_schema);
}

/// Decoding what a well-formed reference-or-schema encodes restores it.
pub proof fn lemma_ref_or_schema_round_trip(r: RefOrView<SchemaView>)
    requires
        wf_ref_or_schema(r),
    ensures
        dec_ref_or_schema(enc_ref_or_schema(r)) == Ok::<_, DecodeError>(r),
    decreases r, 2int,
{
    reveal(dec_ref_or_schema);
    match r {
        RefOrView::Ref(loc) => {
            crate::reference::lemma_ref_shape_enc(loc);
        },
        RefOrView::Val(m) => {
            lemma_schema_round_trip(m);
        },
    }
}

/// Decoding an encoded named-schema mapping restores it.
pub proof fn lemma_schema_map_round_trip(m: Seq<(Seq<char>, RefOrView<SchemaView>)>)
    requires
        wf_schema_map(m),
    ensures
        dec_schema_map_entries(enc_schema_map(m)) == Ok::<_, DecodeError>(m),
    decreases m, 0int,
{
    reveal(dec_ref_or_schema);
    if m.len() > 0 {
        let rest = m.subrange(1, m.len() as int);
        lemma_ref_or_schema_round_trip(m[0].1);
        lemma_schema_map_round_trip(rest);
        let whole = enc_schema_map(m);
        assert(whole[0] == (m[0].0, enc_ref_or_schema(m[0].1)));
        assert(whole.subrange(1, whole.len() as int) =~= enc_schema_map(rest));
        assert(dec_schema_map_entries(whole)->Ok_0 =~= m);
    } else {
        assert(m =~= Seq::<(Seq<char>, RefOrView<SchemaView>)>::empty());
        assert(enc_schema_map(m) =~= Seq::<(Seq<char>, ValueView)>::empty());
        assert(dec_schema_map_entries(enc_schema_map(m))->Ok_0 =~= m);
    }
}

/// Decoding an encoded schema list restores it.
pub proof fn lemma_schema_list_round_trip(l: Seq<RefOrView<SchemaView>>)
    requires
        wf_schema_list(l),
    ensures
        dec_schema_list_items(enc_schema_list(l)) == Ok::<_, DecodeError>(l),
    decreases l, 0int,
{
    reveal(dec_ref_or_schema);
    if l.len() > 0 {
        let rest = l.subrange(1, l.len() as int);
        lemma_ref_or_schema_round_trip(l[0]);
        lemma_schema_list_round_trip(rest);
        let whole = enc_schema_list(l);
        assert(whole[0] == enc_ref_or_schema(l[0]));
        assert(whole.subrange(1, whole.len() as int) =~= enc_schema_list(rest));
        assert(dec_schema_list_items(whole)->Ok_0 =~= l);
    } else {
        assert(l =~= Seq::<RefOrView<SchemaView>>::empty());
        assert(enc_schema_list(l) =~= Seq::<ValueView>::empty());
        assert(dec_schema_list_items(enc_schema_list(l))->Ok_0 =~= l);
    }
}

/// The declared schema keys are pairwise distinct.
pub proof fn lemma_schema_keys_distinct()
    ensures
        forall|p: int, q: int|
            0 <= p < q < SchemaView::known_keys().len() ==> SchemaView::known_keys()[p]
                != SchemaView::known_keys()[q],
{
    reveal_strlit("type");
    reveal_strlit("format");
    reveal_strlit("title");
    reveal_strlit("description");
    reveal_strlit("required");
    reveal_strlit("enum");
    reveal_strlit("properties");
    reveal_strlit("items");
    reveal_strlit("oneOf");
    reveal_strlit("anyOf");
    reveal_strlit("allOf");
    reveal_strlit("not");
    reveal_strlit("discriminator");
    assert("type"@.len() == 4);
    assert("format"@.len() == 6);
    assert("title"@.len() == 5);
    assert("description"@.len() == 11);
    assert("required"@.len() == 8);
    assert("enum"@.len() == 4);
    assert("properties"@.len() == 10);
    assert("items"@.len() == 5);
    assert("oneOf"@.len() == 5);
    assert("anyOf"@.len() == 5);
    assert("allOf"@.len() == 5);
    assert("not"@.len() == 3);
    assert("discriminator"@.len() == 13);
    assert("type"@[0] == 't' && "enum"@[0] == 'e');
    assert("title"@[0] == 't' && "items"@[0] == 'i' && "oneOf"@[0] == 'o' && "anyOf"@[0] == 'a'
        && "allOf"@[0] == 'a');
    assert("anyOf"@[1] == 'n' && "allOf"@[1] == 'l');
}

/// Decoding what a well-formed schema encodes restores it exactly,
/// extensions included.
#[verifier::rlimit(60)]
pub proof fn lemma_schema_round_trip(m: SchemaView)
    requires
        m.wf(),
    ensures
        SchemaView::decode(m.encode()) == Ok::<_, DecodeError>(m),
    decreases m, 1int,
{
    reveal(dec_ref_or_schema);
    let fl = m.field_list();
    let keys = SchemaView::known_keys();
    lemma_schema_keys_distinct();
    assert(forall|p: int| 0 <= p < fl.len() ==> (#[trigger] fl[p]).0 == keys[p]);
    assert(distinct_keys(fl));
    assert(forall|k: Seq<char>| has_field_key(fl, k) ==> keys.contains(k));
    assert(forall|j: int|
        0 <= j < m.extensions.len() ==> !has_field_key(fl, (#[trigger] m.extensions[j]).0));
    lemma_lookup_encoded(fl, m.extensions, 0);
    lemma_lookup_encoded(fl, m.extensions, 1);
    lemma_lookup_encoded(fl, m.extensions, 2);
    lemma_lookup_encoded(fl, m.extensions, 3);
    lemma_lookup_encoded(fl, m.extensions, 4);
    lemma_lookup_encoded(fl, m.extensions, 5);
    lemma_lookup_encoded(fl, m.extensions, 6);
    lemma_lookup_encoded(fl, m.extensions, 7);
    lemma_lookup_encoded(fl, m.extensions, 8);
    lemma_lookup_encoded(fl, m.extensions, 9);
    lemma_lookup_encoded(fl, m.extensions, 10);
    lemma_lookup_encoded(fl, m.extensions, 11);
    lemma_lookup_encoded(fl, m.extensions, 12);
    lemma_ext_encoded(fl, m.extensions, keys);
    if m.required.len() == 0 {
        assert(m.required =~= Seq::<Seq<char>>::empty());
    } else {
        crate::fields::lemma_string_list_round_trip(m.required);
    }
    if m.enum_values.len() == 0 {
        assert(m.enum_values =~= Seq::<ValueView>::empty());
    }
    if m.properties.len() == 0 {
        assert(m.properties =~= Seq::<(Seq<char>, RefOrView<SchemaView>)>::empty());
        assert(dec_schema_map_entries(Seq::<(Seq<char>, ValueView)>::empty()) == Ok::<
            _,
            DecodeError,
        >(Seq::<(Seq<char>, RefOrView<SchemaView>)>::empty()));
    } else {
        lemma_schema_map_round_trip(m.properties);
    }
    match m.items {
        None => {},
        Some(b) => {
            lemma_ref_or_schema_round_trip(*b);
        },
    }
    if m.one_of.len() == 0 {
        assert(m.one_of =~= Seq::<RefOrView<SchemaView>>::empty());
        assert(dec_schema_list_items(Seq::<ValueView>::empty()) == Ok::<_, DecodeError>(
            Seq::<RefOrView<SchemaView>>::empty(),
        ));
    } else {
        lemma_schema_list_round_trip(m.one_of);
    }
    if m.any_of.len() == 0 {
        assert(m.any_of =~= Seq::<RefOrView<SchemaView>>::empty());
        assert(dec_schema_list_items(Seq::<ValueView>::empty()) == Ok::<_, DecodeError>(
            Seq::<RefOrView<SchemaView>>::empty(),
        ));
    } else {
        lemma_schema_list_round_trip(m.any_of);
    }
    if m.all_of.len() == 0 {
        assert(m.all_of =~= Seq::<RefOrView<SchemaView>>::empty());
        assert(dec_schema_list_items(Seq::<ValueView>::empty()) == Ok::<_, DecodeError>(
            Seq::<RefOrView<SchemaView>>::empty(),
        ));
    } else {
        lemma_schema_list_round_trip(m.all_of);
    }
    match m.not {
        None => {},
        Some(b) => {
            lemma_ref_or_schema_round_trip(*b);
        },
    }
    match m.discriminator {
        None => {},
        Some(d) => {
            DiscriminatorView::lemma_round_trip(d);
        },
    }
    assert(SchemaView::decode(m.encode())->Ok_0 =~= m);
}

impl Schema {
    /// Decodes a schema object; unrecognized keys are collected into
    /// `extensions` in source order.
    #[verifier::rlimit(100)]
    pub fn decode(v: &Value) -> (r: Result<Schema, DecodeError>)
        ensures
            match r {
                Ok(m) => SchemaView::decode(v@) == Ok::<_, DecodeError>(m@),
                Err(e) => SchemaView::decode(v@) == Err::<SchemaView, _>(e),
            },
        decreases *v, 0int,
    {
        match v {
            Value::Object(entries) => {
                proof {
                    reveal(dec_ref_or_schema);
                    assert(v->Object_0 == *entries);
                }
                let schema_type = match crate::fields::get_opt_string(
                    find_field(entries, "type"),
                ) {
                    Ok(x) => x,
                    Err(e) => { return Err(e) },
                };
                let format = match crate::fields::get_opt_string(find_field(entries, "format")) {
                    Ok(x) => x,
                    Err(e) => { return Err(e) },
                };
                let title = match crate::fields::get_opt_string(find_field(entries, "title")) {
                    Ok(x) => x,
                    Err(e) => { return Err(e) },
                };
                let description = match crate::fields::get_opt_string(
                    find_field(entries, "description"),
                ) {
                    Ok(x) => x,
                    Err(e) => { return Err(e) },
                };
                let required = match crate::fields::get_vec_string(
                    find_field(entries, "required"),
                ) {
                    Ok(x) => x,
                    Err(e) => { return Err(e) },
                };
                let enum_values = match crate::fields::get_value_list(
                    find_field(entries, "enum"),
                ) {
                    Ok(x) => x,
                    Err(e) => { return Err(e) },
                };
                let properties = match find_field(entries, "properties") {
                    None => {
                        let p: Vec<(String, RefOr<Schema>)> = Vec::new();
                        proof {
                            assert(schema_map_view(p@) =~= Seq::<
                                (Seq<char>, RefOrView<SchemaView>),
                            >::empty());
                        }
                        p
                    },
                    Some(x) => {
                        proof {
                            crate::value::lemma_entry_decreases(*v, *x);
                        }
                        match x {
                            Value::Object(pes) => {
                                proof {
                                    assert(decreases_to!(*x => x->Object_0));
                                }
                                match decode_schema_map_entries(pes) {
                                    Ok(p) => p,
                                    Err(e) => { return Err(e) },
                                }
                            },
                            _ => { return Err(DecodeError::StructuralMismatch) },
                        }
                    },
                };
                let items = match find_field(entries, "items") {
                    None => None,
                    Some(x) => {
                        proof {
                            crate::value::lemma_entry_decreases(*v, *x);
                        }
                        match decode_ref_or_schema(x) {
                            Ok(r) => Some(Box::new(r)),
                            Err(e) => { return Err(e) },
                        }
                    },
                };
                let one_of = match find_field(entries, "oneOf") {
                    None => {
                        let p: Vec<RefOr<Schema>> = Vec::new();
                        proof {
                            assert(schema_list_view(p@) =~= Seq::<RefOrView<SchemaView>>::empty());
                        }
                        p
                    },
                    Some(x) => {
                        proof {
                            crate::value::lemma_entry_decreases(*v, *x);
                        }
                        match x {
                            Value::List(pis) => {
                                proof {
                                    assert(decreases_to!(*x => x->List_0));
                                }
                                match decode_schema_list_items(pis) {
                                    Ok(p) => p,
                                    Err(e) => { return Err(e) },
                                }
                            },
                            _ => { return Err(DecodeError::StructuralMismatch) },
                        }
                    },
                };
                let any_of = match find_field(entries, "anyOf") {
                    None => {
                        let p: Vec<RefOr<Schema>> = Vec::new();
                        proof {
                            assert(schema_list_view(p@) =~= Seq::<RefOrView<SchemaView>>::empty());
                        }
                        p
                    },
                    Some(x) => {
                        proof {
                            crate::value::lemma_entry_decreases(*v, *x);
                        }
                        match x {
                            Value::List(pis) => {
                                proof {
                                    assert(decreases_to!(*x => x->List_0));
                                }
                                match decode_schema_list_items(pis) {
                                    Ok(p) => p,
                                    Err(e) => { return Err(e) },
                                }
                            },
                            _ => { return Err(DecodeError::StructuralMismatch) },
                        }
                    },
                };
                let all_of = match find_field(entries, "allOf") {
                    None => {
                        let p: Vec<RefOr<Schema>> = Vec::new();
                        proof {
                            assert(schema_list_view(p@) =~= Seq::<RefOrView<SchemaView>>::empty());
                        }
                        p
                    },
                    Some(x) => {
                        proof {
                            crate::value::lemma_entry_decreases(*v, *x);
                        }
                        match x {
                            Value::List(pis) => {
                                proof {
                                    assert(decreases_to!(*x => x->List_0));
                                }
                                match decode_schema_list_items(pis) {
                                    Ok(p) => p,
                                    Err(e) => { return Err(e) },
                                }
                            },
                            _ => { return Err(DecodeError::StructuralMismatch) },
                        }
                    },
                };
                let not = match find_field(entries, "not") {
                    None => None,
                    Some(x) => {
                        proof {
                            crate::value::lemma_entry_decreases(*v, *x);
                        }
                        match decode_ref_or_schema(x) {
                            Ok(r) => Some(Box::new(r)),
                            Err(e) => { return Err(e) },
                        }
                    },
                };
                let discriminator = match find_field(entries, "discriminator") {
                    None => None,
                    Some(x) => match Discriminator::decode(x) {
                        Ok(d) => Some(d),
                        Err(e) => { return Err(e) },
                    },
                };
                let known: [&str; 13] = [
                    "type",
                    "format",
                    "title",
                    "description",
                    "required",
                    "enum",
                    "properties",
                    "items",
                    "oneOf",
                    "anyOf",
                    "allOf",
                    "not",
                    "discriminator",
                ];
                let ks: &[&str] = known.as_slice();
                let extensions = crate::value::collect_extensions(entries, ks);
                proof {
                    assert(crate::value::key_views(ks@) =~= SchemaView::known_keys());
                }
                Ok(
                    Schema {
                        schema_type,
                        format,
                        title,
                        description,
                        required,
                        enum_values,
                        properties,
                        items,
                        one_of,
                        any_of,
                        all_of,
                        not,
                        discriminator,
                        extensions,
                    },
                )
            },
            _ => Err(DecodeError::StructuralMismatch),
        }
    }

    /// Encodes the schema: declared fields, then extensions.
    #[verifier::rlimit(100)]
    pub fn encode(&self) -> (r: Value)
        ensures
            r@ == self@.encode(),
        decreases *self, 1int,
    {
        let ghost fl = self@.field_list();
        let mut out: Vec<(String, Value)> = Vec::new();
        proof {
            lemma_schema_map_view(self.properties@);
            lemma_schema_list_view(self.one_of@);
            lemma_schema_list_view(self.any_of@);
            lemma_schema_list_view(self.all_of@);
            crate::value::lemma_list_view(self.enum_values@);
            assert(fl.subrange(0, 0) =~= Seq::<(Seq<char>, Option<ValueView>)>::empty());
            assert(present_fields(fl.subrange(0, 0)) =~= Seq::<(Seq<char>, ValueView)>::empty());
            assert(fl.subrange(0, 1) =~= fl.subrange(0, 0).push(fl[0]));
            crate::value::lemma_present_fields_snoc(fl.subrange(0, 0), fl[0]);
        }
        if let Some(x) = &self.schema_type {
            crate::value::push_present(&mut out, "type", Value::Str(x.clone()));
        }
        proof {
            assert(obj_view(out@) =~= present_fields(fl.subrange(0, 1)));
            assert(fl.subrange(0, 2) =~= fl.subrange(0, 1).push(fl[1]));
            crate::value::lemma_present_fields_snoc(fl.subrange(0, 1), fl[1]);
        }
        if let Some(x) = &self.format {
            crate::value::push_present(&mut out, "format", Value::Str(x.clone()));
        }
        proof {
            assert(obj_view(out@) =~= present_fields(fl.subrange(0, 2)));
            assert(fl.subrange(0, 3) =~= fl.subrange(0, 2).push(fl[2]));
            crate::value::lemma_present_fields_snoc(fl.subrange(0, 2), fl[2]);
        }
        if let Some(x) = &self.title {
            crate::value::push_present(&mut out, "title", Value::Str(x.clone()));
        }
        proof {
            assert(obj_view(out@) =~= present_fields(fl.subrange(0, 3)));
            assert(fl.subrange(0, 4) =~= fl.subrange(0, 3).push(fl[3]));
            crate::value::lemma_present_fields_snoc(fl.subrange(0, 3), fl[3]);
        }
        if let Some(x) = &self.description {
            crate::value::push_present(&mut out, "description", Value::Str(x.clone()));
        }
        proof {
            assert(obj_view(out@) =~= present_fields(fl.subrange(0, 4)));
            assert(fl.subrange(0, 5) =~= fl.subrange(0, 4).push(fl[4]));
            crate::value::lemma_present_fields_snoc(fl.subrange(0, 4), fl[4]);
        }
        if self.required.len() > 0 {
            crate::value::push_present(
                &mut out,
                "required",
                crate::fields::encode_string_list(&self.required),
            );
        }
        proof {
            assert(obj_view(out@) =~= present_fields(fl.subrange(0, 5)));
            assert(fl.subrange(0, 6) =~= fl.subrange(0, 5).push(fl[5]));
            crate::value::lemma_present_fields_snoc(fl.subrange(0, 5), fl[5]);
        }
        if self.enum_values.len() > 0 {
            crate::value::push_present(
                &mut out,
                "enum",
                crate::fields::encode_value_list(&self.enum_values),
            );
        }
        proof {
            assert(obj_view(out@) =~= present_fields(fl.subrange(0, 6)));
            assert(fl.subrange(0, 7) =~= fl.subrange(0, 6).push(fl[6]));
            crate::value::lemma_present_fields_snoc(fl.subrange(0, 6), fl[6]);
        }
        if self.properties.len() > 0 {
            proof {
                assert(decreases_to!(*self => self.properties));
            }
            let pes = encode_schema_map_entries(&self.properties);
            crate::value::push_present(&mut out, "properties", Value::Object(pes));
        }
        proof {
            assert(obj_view(out@) =~= present_fields(fl.subrange(0, 7)));
            assert(fl.subrange(0, 8) =~= fl.subrange(0, 7).push(fl[7]));
            crate::value::lemma_present_fields_snoc(fl.subrange(0, 7), fl[7]);
        }
        if let Some(b) = &self.items {
            proof {
                assert(decreases_to!(*self => self.items));
                assert(decreases_to!(self.items => **b));
            }
            let ev = encode_ref_or_schema(b);
            crate::value::push_present(&mut out, "items", ev);
        }
        proof {
            assert(obj_view(out@) =~= present_fields(fl.subrange(0, 8)));
            assert(fl.subrange(0, 9) =~= fl.subrange(0, 8).push(fl[8]));
            crate::value::lemma_present_fields_snoc(fl.subrange(0, 8), fl[8]);
        }
        if self.one_of.len() > 0 {
            proof {
                assert(decreases_to!(*self => self.one_of));
            }
            let pis = encode_schema_list_items(&self.one_of);
            crate::value::push_present(&mut out, "oneOf", Value::List(pis));
        }
        proof {
            assert(obj_view(out@) =~= present_fields(fl.subrange(0, 9)));
            assert(fl.subrange(0, 10) =~= fl.subrange(0, 9).push(fl[9]));
            crate::value::lemma_present_fields_snoc(fl.subrange(0, 9), fl[9]);
        }
        if self.any_of.len() > 0 {
            proof {
                assert(decreases_to!(*self => self.any_of));
            }
            let pis = encode_schema_list_items(&self.any_of);
            crate::value::push_present(&mut out, "anyOf", Value::List(pis));
        }
        proof {
            assert(obj_view(out@) =~= present_fields(fl.subrange(0, 10)));
            assert(fl.subrange(0, 11) =~= fl.subrange(0, 10).push(fl[10]));
            crate::value::lemma_present_fields_snoc(fl.subrange(0, 10), fl[10]);
        }
        if self.all_of.len() > 0 {
            proof {
                assert(decreases_to!(*self => self.all_of));
            }
            let pis = encode_schema_list_items(&self.all_of);
            crate::value::push_present(&mut out, "allOf", Value::List(pis));
        }
        proof {
            assert(obj_view(out@) =~= present_fields(fl.subrange(0, 11)));
            assert(fl.subrange(0, 12) =~= fl.subrange(0, 11).push(fl[11]));
            crate::value::lemma_present_fields_snoc(fl.subrange(0, 11), fl[11]);
        }
        if let Some(b) = &self.not {
            proof {
                assert(decreases_to!(*self => self.not));
                assert(decreases_to!(self.not => **b));
            }
            let ev = encode_ref_or_schema(b);
            crate::value::push_present(&mut out, "not", ev);
        }
        proof {
            assert(obj_view(out@) =~= present_fields(fl.subrange(0, 12)));
            assert(fl.subrange(0, 13) =~= fl.subrange(0, 12).push(fl[12]));
            crate::value::lemma_present_fields_snoc(fl.subrange(0, 12), fl[12]);
        }
        if let Some(d) = &self.discriminator {
            let ev = d.encode();
            crate::value::push_present(&mut out, "discriminator", ev);
        }
        proof {
            assert(obj_view(out@) =~= present_fields(fl.subrange(0, 13)));
            assert(fl.subrange(0, 13) =~= fl);
        }
        crate::value::push_entries(&mut out, &self.extensions);
        Value::Object(out)
    }
}

/// Encodes a reference-or-schema value.
pub fn encode_ref_or_schema(r: &RefOr<Schema>) -> (res: Value)
    ensures
        res@ == enc_ref_or_schema(ref_or_schema_view(*r)),
    decreases *r, 2int,
{
    match r {
        RefOr::Ref(rf) => crate::reference::encode_reference(rf),
        RefOr::T(s) => s.encode(),
    }
}

/// Encodes a named-schema mapping, entry by entry.
pub fn encode_schema_map_entries(m: &Vec<(String, RefOr<Schema>)>) -> (res: Vec<(String, Value)>)
    ensures
        obj_view(res@) == enc_schema_map(schema_map_view(m@)),
    decreases *m, 0int,
{
    let ghost smv = schema_map_view(m@);
    proof {
        lemma_schema_map_view(m@);
    }
    let n = m.len();
    let mut out: Vec<(String, Value)> = Vec::new();
    let mut i: usize = 0;
    proof {
        assert(smv.subrange(0, smv.len() as int) =~= smv);
        assert(obj_view(out@) + enc_schema_map(smv) =~= enc_schema_map(smv));
    }
    while i < n
        invariant
            n == m@.len(),
            0 <= i <= n,
            smv == schema_map_view(m@),
            smv.len() == n,
            forall|j: int|
                0 <= j < n ==> smv[j] == (m@[j].0@, ref_or_schema_view(m@[j].1)),
            enc_schema_map(smv) == obj_view(out@) + enc_schema_map(
                smv.subrange(i as int, n as int),
            ),
        decreases n - i,
    {
        proof {
            assert(decreases_to!(*m => m@[i as int].1));
        }
        let ghost prev = out@;
        let k = m[i].0.clone();
        let ev = encode_ref_or_schema(&m[i].1);
        out.push((k, ev));
        proof {
            let tail = smv.subrange(i as int, n as int);
            assert(tail[0] == smv[i as int]);
            assert(tail.subrange(1, tail.len() as int) =~= smv.subrange(i as int + 1, n as int));
            crate::value::lemma_obj_view(out@);
            crate::value::lemma_obj_view(prev);
            assert(obj_view(out@) =~= obj_view(prev).push((smv[i as int].0, enc_ref_or_schema(
                smv[i as int].1,
            ))));
            assert(obj_view(prev) + (seq![(smv[i as int].0, enc_ref_or_schema(smv[i as int].1))]
                + enc_schema_map(smv.subrange(i as int + 1, n as int))) =~= obj_view(out@)
                + enc_schema_map(smv.subrange(i as int + 1, n as int)));
        }
        i += 1;
    }
    proof {
        assert(smv.subrange(n as int, n as int) =~= Seq::<(Seq<char>, RefOrView<SchemaView>)>::empty());
        assert(enc_schema_map(smv.subrange(n as int, n as int)) =~= Seq::<
            (Seq<char>, ValueView),
        >::empty());
        assert(obj_view(out@) + Seq::<(Seq<char>, ValueView)>::empty() =~= obj_view(out@));
    }
    out
}

/// Encodes a schema list, element by element.
fn encode_schema_list_items(l: &Vec<RefOr<Schema>>) -> (res: Vec<Value>)
    ensures
        list_view(res@) == enc_schema_list(schema_list_view(l@)),
    decreases *l, 0int,
{
    let ghost slv = schema_list_view(l@);
    proof {
        lemma_schema_list_view(l@);
    }
    let n = l.len();
    let mut out: Vec<Value> = Vec::new();
    let mut i: usize = 0;
    proof {
        assert(slv.subrange(0, slv.len() as int) =~= slv);
        assert(list_view(out@) + enc_schema_list(slv) =~= enc_schema_list(slv));
    }
    while i < n
        invariant
            n == l@.len(),
            0 <= i <= n,
            slv == schema_list_view(l@),
            slv.len() == n,
            forall|j: int| 0 <= j < n ==> slv[j] == ref_or_schema_view(l@[j]),
            enc_schema_list(slv) == list_view(out@) + enc_schema_list(
                slv.subrange(i as int, n as int),
            ),
        decreases n - i,
    {
        proof {
            assert(decreases_to!(*l => l@[i as int]));
        }
        let ghost prev = out@;
        let ev = encode_ref_or_schema(&l[i]);
        out.push(ev);
        proof {
            let tail = slv.subrange(i as int, n as int);
            assert(tail[0] == slv[i as int]);
            assert(tail.subrange(1, tail.len() as int) =~= slv.subrange(i as int + 1, n as int));
            crate::value::lemma_list_view(out@);
            crate::value::lemma_list_view(prev);
            assert(list_view(out@) =~= list_view(prev).push(enc_ref_or_schema(slv[i as int])));
            assert(list_view(prev) + (seq![enc_ref_or_schema(slv[i as int])] + enc_schema_list(
                slv.subrange(i as int + 1, n as int),
            )) =~= list_view(out@) + enc_schema_list(slv.subrange(i as int + 1, n as int)));
        }
        i += 1;
    }
    proof {
        assert(slv.subrange(n as int, n as int) =~= Seq::<RefOrView<SchemaView>>::empty());
        assert(enc_schema_list(slv.subrange(n as int, n as int)) =~= Seq::<ValueView>::empty());
        assert(list_view(out@) + Seq::<ValueView>::empty() =~= list_view(out@));
    }
    out
}

/// Decodes a reference-or-schema: the reference shape is tried first,
/// always.
pub fn decode_ref_or_schema(v: &Value) -> (r: Result<RefOr<Schema>, DecodeError>)
    ensures
        match r {
            Ok(x) => dec_ref_or_schema(v@) == Ok::<_, DecodeError>(ref_or_schema_view(x)),
            Err(e) => dec_ref_or_schema(v@) == Err::<RefOrView<SchemaView>, _>(e),
        },
    decreases *v, 1int,
{
    proof {
        reveal(dec_ref_or_schema);
    }
    match crate::reference::as_reference(v) {
        Some(rf) => Ok(RefOr::Ref(rf)),
        None => match Schema::decode(v) {
            Ok(m) => Ok(RefOr::T(m)),
            Err(e) => Err(e),
        },
    }
}

/// Decodes the entries of a named-schema mapping.
pub fn decode_schema_map_entries(entries: &Vec<(String, Value)>) -> (r: Result<
    Vec<(String, RefOr<Schema>)>,
    DecodeError,
>)
    ensures
        match r {
            Ok(x) => dec_schema_map_entries(obj_view(entries@)) == Ok::<_, DecodeError>(
                schema_map_view(x@),
            ),
            Err(e) => dec_schema_map_entries(obj_view(entries@)) == Err::<
                Seq<(Seq<char>, RefOrView<SchemaView>)>,
                _,
            >(e),
        },
    decreases *entries, 0int,
{
    let ghost ov = obj_view(entries@);
    proof {
        reveal(dec_ref_or_schema);
        crate::value::lemma_obj_view(entries@);
    }
    let n = entries.len();
    let mut out: Vec<(String, RefOr<Schema>)> = Vec::new();
    let mut i: usize = 0;
    proof {
        assert(ov.subrange(0, ov.len() as int) =~= ov);
        assert(schema_map_view(out@) =~= Seq::<(Seq<char>, RefOrView<SchemaView>)>::empty());
        lemma_schema_map_view(out@);
    }
    while i < n
        invariant
            n == entries@.len(),
            0 <= i <= n,
            ov == obj_view(entries@),
            ov.len() == n,
            forall|j: int|
                0 <= j < n ==> ov[j] == (entries@[j].0@, crate::value::value_view(
                    entries@[j].1,
                )),
            dec_schema_map_entries(ov) == (match dec_schema_map_entries(
                ov.subrange(i as int, n as int),
            ) {
                Ok(t) => Ok::<_, DecodeError>(schema_map_view(out@) + t),
                Err(e) => Err(e),
            }),
        decreases n - i,
    {
        proof {
            assert(decreases_to!(*entries => entries@[i as int].1));
        }
        let ghost prev = out@;
        let ghost tail = ov.subrange(i as int, n as int);
        proof {
            reveal(dec_ref_or_schema);
            assert(tail[0] == ov[i as int]);
            assert(tail.subrange(1, tail.len() as int) =~= ov.subrange(i as int + 1, n as int));
        }
        let k = entries[i].0.clone();
        match decode_ref_or_schema(&entries[i].1) {
            Ok(x) => {
                out.push((k, x));
                proof {
                    lemma_schema_map_view(out@);
                    lemma_schema_map_view(prev);
                    assert(schema_map_view(out@) =~= schema_map_view(prev).push(
                        (ov[i as int].0, ref_or_schema_view(x)),
                    ));
                    assert(schema_map_view(prev) + (seq![
                        (ov[i as int].0, ref_or_schema_view(x)),
                    ] + dec_schema_map_entries(ov.subrange(i as int + 1, n as int))->Ok_0)
                        =~= schema_map_view(out@) + dec_schema_map_entries(
                        ov.subrange(i as int + 1, n as int),
                    )->Ok_0);
                }
            },
            Err(e) => {
                return Err(e);
            },
        }
        i += 1;
    }
    proof {
        reveal(dec_ref_or_schema);
        assert(ov.subrange(n as int, n as int) =~= Seq::<(Seq<char>, ValueView)>::empty());
        assert(schema_map_view(out@) + Seq::<(Seq<char>, RefOrView<SchemaView>)>::empty()
            =~= schema_map_view(out@));
    }
    Ok(out)
}

/// Decodes the elements of a schema list.
fn decode_schema_list_items(items: &Vec<Value>) -> (r: Result<Vec<RefOr<Schema>>, DecodeError>)
    ensures
        match r {
            Ok(x) => dec_schema_list_items(list_view(items@)) == Ok::<_, DecodeError>(
                schema_list_view(x@),
            ),
            Err(e) => dec_schema_list_items(list_view(items@)) == Err::<
                Seq<RefOrView<SchemaView>>,
                _,
            >(e),
        },
    decreases *items, 0int,
{
    let ghost lv = list_view(items@);
    proof {
        reveal(dec_ref_or_schema);
        crate::value::lemma_list_view(items@);
    }
    let n = items.len();
    let mut out: Vec<RefOr<Schema>> = Vec::new();
    let mut i: usize = 0;
    proof {
        assert(lv.subrange(0, lv.len() as int) =~= lv);
        assert(schema_list_view(out@) =~= Seq::<RefOrView<SchemaView>>::empty());
        lemma_schema_list_view(out@);
    }
    while i < n
        invariant
            n == items@.len(),
            0 <= i <= n,
            lv == list_view(items@),
            lv.len() == n,
            forall|j: int| 0 <= j < n ==> lv[j] == crate::value::value_view(items@[j]),
            dec_schema_list_items(lv) == (match dec_schema_list_items(
                lv.subrange(i as int, n as int),
            ) {
                Ok(t) => Ok::<_, DecodeError>(schema_list_view(out@) + t),
                Err(e) => Err(e),
            }),
        decreases n - i,
    {
        proof {
            assert(decreases_to!(*items => items@[i as int]));
        }
        let ghost prev = out@;
        let ghost tail = lv.subrange(i as int, n as int);
        proof {
            reveal(dec_ref_or_schema);
            assert(tail[0] == lv[i as int]);
            assert(tail.subrange(1, tail.len() as int) =~= lv.subrange(i as int + 1, n as int));
        }
        match decode_ref_or_schema(&items[i]) {
            Ok(x) => {
                out.push(x);
                proof {
                    lemma_schema_list_view(out@);
                    lemma_schema_list_view(prev);
                    assert(schema_list_view(out@) =~= schema_list_view(prev).push(
                        ref_or_schema_view(x),
                    ));
                    assert(schema_list_view(prev) + (seq![ref_or_schema_view(x)]
                        + dec_schema_list_items(lv.subrange(i as int + 1, n as int))->Ok_0)
                        =~= schema_list_view(out@) + dec_schema_list_items(
                        lv.subrange(i as int + 1, n as int),
                    )->Ok_0);
                }
            },
            Err(e) => {
                return Err(e);
            },
        }
        i += 1;
    }
    proof {
        reveal(dec_ref_or_schema);
        assert(lv.subrange(n as int, n as int) =~= Seq::<ValueView>::empty());
        assert(schema_list_view(out@) + Seq::<RefOrView<SchemaView>>::empty() =~= schema_list_view(
            out@,
        ));
    }
    Ok(out)
}

} // verus!
