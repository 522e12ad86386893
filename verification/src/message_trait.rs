//! Reusable traits that may be applied to message objects.

#![allow(unused_imports)]

use vstd::prelude::*;

use crate::fields::dec_opt_bool;
use crate::fields::dec_opt_i32;
use crate::fields::dec_opt_string;
use crate::fields::dec_req_string;
use crate::fields::dec_value_list;
use crate::fields::dec_value_map;
use crate::fields::dec_vec_string;
use crate::fields::enc_opt_bool;
use crate::fields::enc_opt_i32;
use crate::fields::enc_opt_string;
use crate::fields::enc_string_list;
use crate::fields::encode_string_list;
use crate::fields::encode_value_list;
use crate::fields::encode_value_map;
use crate::fields::get_opt_bool;
use crate::fields::get_opt_i32;
use crate::fields::get_opt_string;
use crate::fields::get_req_string;
use crate::fields::get_value_list;
use crate::fields::get_value_map;
use crate::fields::get_vec_string;
use crate::fields::lemma_string_list_round_trip;
use crate::fields::view_opt_string;
use crate::fields::view_vec_string;
use crate::reference::Ref;
use crate::reference::RefOr;
use crate::reference::RefOrView;
use crate::reference::as_reference;
use crate::reference::enc_ref;
use crate::reference::encode_reference;
use crate::reference::lemma_ref_shape_enc;
use crate::reference::ref_shape;
use crate::value::DecodeError;
use crate::value::Value;
use crate::value::ValueView;
use crate::value::collect_extensions;
use crate::value::distinct_keys;
use crate::value::ext_of;
use crate::value::find_field;
use crate::value::has_field_key;
use crate::value::key_views;
use crate::value::lemma_ext_encoded;
use crate::value::lemma_list_view;
use crate::value::lemma_lookup_encoded;
use crate::value::lemma_obj_view;
use crate::value::lemma_present_fields_snoc;
use crate::value::list_view;
use crate::value::lookup;
use crate::value::obj_view;
use crate::value::present_fields;
use crate::value::push_entries;
use crate::value::push_present;
use crate::schema::Schema;
use crate::schema::SchemaView;
use crate::schema::dec_ref_or_schema;
use crate::schema::dec_schema_map_entries;
use crate::schema::decode_ref_or_schema;
use crate::schema::decode_schema_map_entries;
use crate::schema::enc_ref_or_schema;
use crate::schema::enc_schema_map;
use crate::schema::encode_ref_or_schema;
use crate::schema::encode_schema_map_entries;
use crate::schema::lemma_ref_or_schema_round_trip;
use crate::schema::lemma_schema_map_round_trip;
use crate::schema::lemma_schema_round_trip;
use crate::schema::ref_or_schema_view;
use crate::schema::schema_map_view;
use crate::schema::schema_view;
use crate::schema::wf_ref_or_schema;
use crate::schema::wf_schema_map;
use crate::tag::Tag;
use crate::tag::TagView;
use crate::tag::tag_list_view;
use crate::tag::enc_tag_list;
use crate::tag::dec_tag_list_items;
use crate::tag::wf_tag_list;
use crate::tag::lemma_tag_list_round_trip;
use crate::tag::encode_tag_list_items;
use crate::tag::decode_tag_list_items;
use crate::tag::lemma_tag_list_view;
use crate::external_documentation::ExternalDocumentation;
use crate::external_documentation::ExternalDocumentationView;
use crate::correlation_id::CorrelationId;
use crate::correlation_id::CorrelationIdView;
use crate::correlation_id::dec_ref_or_correlation_id;
use crate::correlation_id::enc_ref_or_correlation_id;
use crate::correlation_id::wf_ref_or_correlation_id;
use crate::correlation_id::lemma_ref_or_correlation_id_round_trip;
use crate::correlation_id::decode_ref_or_correlation_id;
use crate::correlation_id::encode_ref_or_correlation_id;
use crate::message_binding::MessageBinding;
use crate::message_binding::MessageBindingView;
use crate::message_binding::dec_ref_or_message_binding;
use crate::message_binding::enc_ref_or_message_binding;
use crate::message_binding::wf_ref_or_message_binding;
use crate::message_binding::lemma_ref_or_message_binding_round_trip;
use crate::message_binding::decode_ref_or_message_binding;
use crate::message_binding::encode_ref_or_message_binding;

verus! {

/// A trait that may be applied to a message object: any property from the
/// message object except `payload` and `traits`.
#[derive(Debug, PartialEq)]
pub struct MessageTrait {
    /// Schema definition of the application headers. The schema must be
    /// of type object.
    pub headers: Option<RefOr<Schema>>,
    /// Definition of the correlation identifier used for message
    /// tracing or matching.
    pub correlation_id: Option<RefOr<CorrelationId>>,
    /// The name of the schema format or language used to define the
    /// message payload.
    pub schema_format: Option<String>,
    /// The content type to use when encoding or decoding a message's
    /// payload.
    pub content_type: Option<String>,
    /// A machine-friendly name for the message.
    pub name: Option<String>,
    /// A human-friendly title for the message.
    pub title: Option<String>,
    /// A short summary of what the message is about.
    pub summary: Option<String>,
    /// A verbose explanation of the message.
    pub description: Option<String>,
    /// A list of tags for API documentation control.
    pub tags: Vec<Tag>,
    /// Additional external documentation for this message.
    pub external_docs: Option<ExternalDocumentation>,
    /// Protocol-specific definitions for the message, keyed by protocol
    /// name.
    pub bindings: Option<RefOr<MessageBinding>>,
    /// Examples of valid message objects, keyed by example name.
    pub examples: Vec<(String, Value)>,
    /// Unrecognized sibling fields, preserved in source order.
    pub extensions: Vec<(String, Value)>,
}

/// Model of a [`MessageTrait`].
#[verifier::ext_equal]
pub struct MessageTraitView {
    pub headers: Option<RefOrView<SchemaView>>,
    pub correlation_id: Option<RefOrView<CorrelationIdView>>,
    pub schema_format: Option<Seq<char>>,
    pub content_type: Option<Seq<char>>,
    pub name: Option<Seq<char>>,
    pub title: Option<Seq<char>>,
    pub summary: Option<Seq<char>>,
    pub description: Option<Seq<char>>,
    pub tags: Seq<TagView>,
    pub external_docs: Option<ExternalDocumentationView>,
    pub bindings: Option<RefOrView<MessageBindingView>>,
    pub examples: Seq<(Seq<char>, ValueView)>,
    pub extensions: Seq<(Seq<char>, ValueView)>,
}

impl View for MessageTrait {
    type V = MessageTraitView;

    open spec fn view(&self) -> MessageTraitView {
        MessageTraitView {
            headers: match self.headers {
                None => None,
                Some(x) => Some(ref_or_schema_view(x)),
            },
            correlation_id: match self.correlation_id {
                None => None,
                Some(x) => Some(x@),
            },
            schema_format: view_opt_string(self.schema_format),
            content_type: view_opt_string(self.content_type),
            name: view_opt_string(self.name),
            title: view_opt_string(self.title),
            summary: view_opt_string(self.summary),
            description: view_opt_string(self.description),
            tags: tag_list_view(self.tags@),
            external_docs: match self.external_docs {
                None => None,
                Some(x) => Some(x@),
            },
            bindings: match self.bindings {
                None => None,
                Some(x) => Some(x@),
            },
            examples: obj_view(self.examples@),
            extensions: obj_view(self.extensions@),
        }
    }
}

/// The declared keys are pairwise distinct.
pub proof fn lemma_message_trait_keys_distinct()
    ensures
        forall|p: int, q: int|
            0 <= p < q < MessageTraitView::known_keys().len() ==> MessageTraitView::known_keys()[p]
                != MessageTraitView::known_keys()[q],
{
    reveal_strlit("headers");
    reveal_strlit("correlationId");
    reveal_strlit("schemaFormat");
    reveal_strlit("contentType");
    reveal_strlit("name");
    reveal_strlit("title");
    reveal_strlit("summary");
    reveal_strlit("description");
    reveal_strlit("tags");
    reveal_strlit("externalDocs");
    reveal_strlit("bindings");
    reveal_strlit("examples");
    assert("headers"@.len() == 7);
    assert("correlationId"@.len() == 13);
    assert("schemaFormat"@.len() == 12);
    assert("contentType"@.len() == 11);
    assert("name"@.len() == 4);
    assert("title"@.len() == 5);
    assert("summary"@.len() == 7);
    assert("description"@.len() == 11);
    assert("tags"@.len() == 4);
    assert("externalDocs"@.len() == 12);
    assert("bindings"@.len() == 8);
    assert("examples"@.len() == 8);
    assert("headers"@[0] == 'h');
    assert("summary"@[0] == 's');
    assert("schemaFormat"@[0] == 's');
    assert("externalDocs"@[0] == 'e');
    assert("contentType"@[0] == 'c');
    assert("description"@[0] == 'd');
    assert("name"@[0] == 'n');
    assert("tags"@[0] == 't');
    assert("bindings"@[0] == 'b');
    assert("examples"@[0] == 'e');
}

/// The decoding of the `headers` field.
#[verifier::opaque]
pub open spec fn dec_field_message_trait_headers(entries: Seq<(Seq<char>, ValueView)>) -> Result<Option<RefOrView<SchemaView>>, DecodeError> {
    match lookup(entries, "headers"@) {
        None => Ok(None),
        Some(pv) => match dec_ref_or_schema(pv) {
            Ok(x) => Ok(Some(x)),
            Err(e) => Err(e),
        },
    }
}

/// Decodes the `headers` field.
fn decode_field_message_trait_headers(entries: &Vec<(String, Value)>) -> (r: Result<Option<RefOr<Schema>>, DecodeError>)
    ensures
        match r {
            Ok(x) => dec_field_message_trait_headers(obj_view(entries@)) == Ok::<_, DecodeError>(match x {
    None => None,
    Some(x) => Some(ref_or_schema_view(x)),
            }),
            Err(e) => dec_field_message_trait_headers(obj_view(entries@)) == Err::<Option<RefOrView<SchemaView>>, _>(e),
        },
{
    proof {
        reveal(dec_field_message_trait_headers);
    }
    let x = match find_field(entries, "headers") {
        None => None,
        Some(x) => match decode_ref_or_schema(x) {
            Ok(m) => Some(m),
            Err(e) => { return Err(e) },
        },
    };
    Ok(x)
}

/// The decoding of the `correlationId` field.
#[verifier::opaque]
pub open spec fn dec_field_message_trait_correlation_id(entries: Seq<(Seq<char>, ValueView)>) -> Result<Option<RefOrView<CorrelationIdView>>, DecodeError> {
    match lookup(entries, "correlationId"@) {
        None => Ok(None),
        Some(pv) => match dec_ref_or_correlation_id(pv) {
            Ok(x) => Ok(Some(x)),
            Err(e) => Err(e),
        },
    }
}

/// Decodes the `correlationId` field.
fn decode_field_message_trait_correlation_id(entries: &Vec<(String, Value)>) -> (r: Result<Option<RefOr<CorrelationId>>, DecodeError>)
    ensures
        match r {
            Ok(x) => dec_field_message_trait_correlation_id(obj_view(entries@)) == Ok::<_, DecodeError>(match x {
    None => None,
    Some(x) => Some(x@),
            }),
            Err(e) => dec_field_message_trait_correlation_id(obj_view(entries@)) == Err::<Option<RefOrView<CorrelationIdView>>, _>(e),
        },
{
    proof {
        reveal(dec_field_message_trait_correlation_id);
    }
    let x = match find_field(entries, "correlationId") {
        None => None,
        Some(x) => match decode_ref_or_correlation_id(x) {
            Ok(m) => Some(m),
            Err(e) => { return Err(e) },
        },
    };
    Ok(x)
}

/// The decoding of the `schemaFormat` field.
#[verifier::opaque]
pub open spec fn dec_field_message_trait_schema_format(entries: Seq<(Seq<char>, ValueView)>) -> Result<Option<Seq<char>>, DecodeError> {
    dec_opt_string(lookup(entries, "schemaFormat"@))
}

/// Decodes the `schemaFormat` field.
fn decode_field_message_trait_schema_format(entries: &Vec<(String, Value)>) -> (r: Result<Option<String>, DecodeError>)
    ensures
        match r {
            Ok(x) => dec_field_message_trait_schema_format(obj_view(entries@)) == Ok::<_, DecodeError>(view_opt_string(x)),
            Err(e) => dec_field_message_trait_schema_format(obj_view(entries@)) == Err::<Option<Seq<char>>, _>(e),
        },
{
    proof {
        reveal(dec_field_message_trait_schema_format);
    }
    let x = match get_opt_string(find_field(entries, "schemaFormat")) {
        Ok(x) => x,
        Err(e) => { return Err(e) },
    };
    Ok(x)
}

/// The decoding of the `contentType` field.
#[verifier::opaque]
pub open spec fn dec_field_message_trait_content_type(entries: Seq<(Seq<char>, ValueView)>) -> Result<Option<Seq<char>>, DecodeError> {
    dec_opt_string(lookup(entries, "contentType"@))
}

/// Decodes the `contentType` field.
fn decode_field_message_trait_content_type(entries: &Vec<(String, Value)>) -> (r: Result<Option<String>, DecodeError>)
    ensures
        match r {
            Ok(x) => dec_field_message_trait_content_type(obj_view(entries@)) == Ok::<_, DecodeError>(view_opt_string(x)),
            Err(e) => dec_field_message_trait_content_type(obj_view(entries@)) == Err::<Option<Seq<char>>, _>(e),
        },
{
    proof {
        reveal(dec_field_message_trait_content_type);
    }
    let x = match get_opt_string(find_field(entries, "contentType")) {
        Ok(x) => x,
        Err(e) => { return Err(e) },
    };
    Ok(x)
}

/// The decoding of the `name` field.
#[verifier::opaque]
pub open spec fn dec_field_message_trait_name(entries: Seq<(Seq<char>, ValueView)>) -> Result<Option<Seq<char>>, DecodeError> {
    dec_opt_string(lookup(entries, "name"@))
}

/// Decodes the `name` field.
fn decode_field_message_trait_name(entries: &Vec<(String, Value)>) -> (r: Result<Option<String>, DecodeError>)
    ensures
        match r {
            Ok(x) => dec_field_message_trait_name(obj_view(entries@)) == Ok::<_, DecodeError>(view_opt_string(x)),
            Err(e) => dec_field_message_trait_name(obj_view(entries@)) == Err::<Option<Seq<char>>, _>(e),
        },
{
    proof {
        reveal(dec_field_message_trait_name);
    }
    let x = match get_opt_string(find_field(entries, "name")) {
        Ok(x) => x,
        Err(e) => { return Err(e) },
    };
    Ok(x)
}

/// The decoding of the `title` field.
#[verifier::opaque]
pub open spec fn dec_field_message_trait_title(entries: Seq<(Seq<char>, ValueView)>) -> Result<Option<Seq<char>>, DecodeError> {
    dec_opt_string(lookup(entries, "title"@))
}

/// Decodes the `title` field.
fn decode_field_message_trait_title(entries: &Vec<(String, Value)>) -> (r: Result<Option<String>, DecodeError>)
    ensures
        match r {
            Ok(x) => dec_field_message_trait_title(obj_view(entries@)) == Ok::<_, DecodeError>(view_opt_string(x)),
            Err(e) => dec_field_message_trait_title(obj_view(entries@)) == Err::<Option<Seq<char>>, _>(e),
        },
{
    proof {
        reveal(dec_field_message_trait_title);
    }
    let x = match get_opt_string(find_field(entries, "title")) {
        Ok(x) => x,
        Err(e) => { return Err(e) },
    };
    Ok(x)
}

/// The decoding of the `summary` field.
#[verifier::opaque]
pub open spec fn dec_field_message_trait_summary(entries: Seq<(Seq<char>, ValueView)>) -> Result<Option<Seq<char>>, DecodeError> {
    dec_opt_string(lookup(entries, "summary"@))
}

/// Decodes the `summary` field.
fn decode_field_message_trait_summary(entries: &Vec<(String, Value)>) -> (r: Result<Option<String>, DecodeError>)
    ensures
        match r {
            Ok(x) => dec_field_message_trait_summary(obj_view(entries@)) == Ok::<_, DecodeError>(view_opt_string(x)),
            Err(e) => dec_field_message_trait_summary(obj_view(entries@)) == Err::<Option<Seq<char>>, _>(e),
        },
{
    proof {
        reveal(dec_field_message_trait_summary);
    }
    let x = match get_opt_string(find_field(entries, "summary")) {
        Ok(x) => x,
        Err(e) => { return Err(e) },
    };
    Ok(x)
}

/// The decoding of the `description` field.
#[verifier::opaque]
pub open spec fn dec_field_message_trait_description(entries: Seq<(Seq<char>, ValueView)>) -> Result<Option<Seq<char>>, DecodeError> {
    dec_opt_string(lookup(entries, "description"@))
}

/// Decodes the `description` field.
fn decode_field_message_trait_description(entries: &Vec<(String, Value)>) -> (r: Result<Option<String>, DecodeError>)
    ensures
        match r {
            Ok(x) => dec_field_message_trait_description(obj_view(entries@)) == Ok::<_, DecodeError>(view_opt_string(x)),
            Err(e) => dec_field_message_trait_description(obj_view(entries@)) == Err::<Option<Seq<char>>, _>(e),
        },
{
    proof {
        reveal(dec_field_message_trait_description);
    }
    let x = match get_opt_string(find_field(entries, "description")) {
        Ok(x) => x,
        Err(e) => { return Err(e) },
    };
    Ok(x)
}

/// The decoding of the `tags` field.
#[verifier::opaque]
pub open spec fn dec_field_message_trait_tags(entries: Seq<(Seq<char>, ValueView)>) -> Result<Seq<TagView>, DecodeError> {
    match lookup(entries, "tags"@) {
        None => Ok(Seq::<TagView>::empty()),
        Some(ValueView::List(items)) => dec_tag_list_items(items),
        Some(_) => Err(DecodeError::StructuralMismatch),
    }
}

/// Decodes the `tags` field.
fn decode_field_message_trait_tags(entries: &Vec<(String, Value)>) -> (r: Result<Vec<Tag>, DecodeError>)
    ensures
        match r {
            Ok(x) => dec_field_message_trait_tags(obj_view(entries@)) == Ok::<_, DecodeError>(tag_list_view(x@)),
            Err(e) => dec_field_message_trait_tags(obj_view(entries@)) == Err::<Seq<TagView>, _>(e),
        },
{
    proof {
        reveal(dec_field_message_trait_tags);
    }
    let x = match find_field(entries, "tags") {
        None => {
            let p: Vec<Tag> = Vec::new();
            proof {
                assert(tag_list_view(p@) =~= Seq::<TagView>::empty());
            }
            p
        },
        Some(x) => match x {
            Value::List(items) => match decode_tag_list_items(items) {
                Ok(p) => p,
                Err(e) => { return Err(e) },
            },
            _ => { return Err(DecodeError::StructuralMismatch) },
        },
    };
    Ok(x)
}

/// The decoding of the `externalDocs` field.
#[verifier::opaque]
pub open spec fn dec_field_message_trait_external_docs(entries: Seq<(Seq<char>, ValueView)>) -> Result<Option<ExternalDocumentationView>, DecodeError> {
    match lookup(entries, "externalDocs"@) {
        None => Ok(None),
        Some(pv) => match ExternalDocumentationView::decode(pv) {
            Ok(m) => Ok(Some(m)),
            Err(e) => Err(e),
        },
    }
}

/// Decodes the `externalDocs` field.
fn decode_field_message_trait_external_docs(entries: &Vec<(String, Value)>) -> (r: Result<Option<ExternalDocumentation>, DecodeError>)
    ensures
        match r {
            Ok(x) => dec_field_message_trait_external_docs(obj_view(entries@)) == Ok::<_, DecodeError>(match x {
    None => None,
    Some(x) => Some(x@),
            }),
            Err(e) => dec_field_message_trait_external_docs(obj_view(entries@)) == Err::<Option<ExternalDocumentationView>, _>(e),
        },
{
    proof {
        reveal(dec_field_message_trait_external_docs);
    }
    let x = match find_field(entries, "externalDocs") {
        None => None,
        Some(x) => match ExternalDocumentation::decode(x) {
            Ok(m) => Some(m),
            Err(e) => { return Err(e) },
        },
    };
    Ok(x)
}

/// The decoding of the `bindings` field.
#[verifier::opaque]
pub open spec fn dec_field_message_trait_bindings(entries: Seq<(Seq<char>, ValueView)>) -> Result<Option<RefOrView<MessageBindingView>>, DecodeError> {
    match lookup(entries, "bindings"@) {
        None => Ok(None),
        Some(pv) => match dec_ref_or_message_binding(pv) {
            Ok(x) => Ok(Some(x)),
            Err(e) => Err(e),
        },
    }
}

/// Decodes the `bindings` field.
fn decode_field_message_trait_bindings(entries: &Vec<(String, Value)>) -> (r: Result<Option<RefOr<MessageBinding>>, DecodeError>)
    ensures
        match r {
            Ok(x) => dec_field_message_trait_bindings(obj_view(entries@)) == Ok::<_, DecodeError>(match x {
    None => None,
    Some(x) => Some(x@),
            }),
            Err(e) => dec_field_message_trait_bindings(obj_view(entries@)) == Err::<Option<RefOrView<MessageBindingView>>, _>(e),
        },
{
    proof {
        reveal(dec_field_message_trait_bindings);
    }
    let x = match find_field(entries, "bindings") {
        None => None,
        Some(x) => match decode_ref_or_message_binding(x) {
            Ok(m) => Some(m),
            Err(e) => { return Err(e) },
        },
    };
    Ok(x)
}

/// The decoding of the `examples` field.
#[verifier::opaque]
pub open spec fn dec_field_message_trait_examples(entries: Seq<(Seq<char>, ValueView)>) -> Result<Seq<(Seq<char>, ValueView)>, DecodeError> {
    dec_value_map(lookup(entries, "examples"@))
}

/// Decodes the `examples` field.
fn decode_field_message_trait_examples(entries: &Vec<(String, Value)>) -> (r: Result<Vec<(String, Value)>, DecodeError>)
    ensures
        match r {
            Ok(x) => dec_field_message_trait_examples(obj_view(entries@)) == Ok::<_, DecodeError>(obj_view(x@)),
            Err(e) => dec_field_message_trait_examples(obj_view(entries@)) == Err::<Seq<(Seq<char>, ValueView)>, _>(e),
        },
{
    proof {
        reveal(dec_field_message_trait_examples);
    }
    let x = match get_value_map(find_field(entries, "examples")) {
        Ok(x) => x,
        Err(e) => { return Err(e) },
    };
    Ok(x)
}

impl MessageTraitView {
    /// The declared wire keys.
    pub open spec fn known_keys() -> Seq<Seq<char>> {
        seq!["headers"@, "correlationId"@, "schemaFormat"@, "contentType"@, "name"@, "title"@, "summary"@, "description"@, "tags"@, "externalDocs"@, "bindings"@, "examples"@]
    }

    /// Declared fields in output order; absent options and empty
    /// sequences are omitted.
    pub open spec fn field_list(self) -> Seq<(Seq<char>, Option<ValueView>)> {
        seq![
            ("headers"@, match self.headers {
                None => None,
                Some(x) => Some(enc_ref_or_schema(x)),
            }),
            ("correlationId"@, match self.correlation_id {
                None => None,
                Some(x) => Some(enc_ref_or_correlation_id(x)),
            }),
            ("schemaFormat"@, enc_opt_string(self.schema_format)),
            ("contentType"@, enc_opt_string(self.content_type)),
            ("name"@, enc_opt_string(self.name)),
            ("title"@, enc_opt_string(self.title)),
            ("summary"@, enc_opt_string(self.summary)),
            ("description"@, enc_opt_string(self.description)),
            ("tags"@, if self.tags.len() == 0 {
                None
            } else {
                Some(ValueView::List(enc_tag_list(self.tags)))
            }),
            ("externalDocs"@, match self.external_docs {
                None => None,
                Some(m) => Some(m.encode()),
            }),
            ("bindings"@, match self.bindings {
                None => None,
                Some(x) => Some(enc_ref_or_message_binding(x)),
            }),
            ("examples"@, if self.examples.len() == 0 {
                None
            } else {
                Some(ValueView::Object(self.examples))
            }),
        ]
    }

    /// No extension key shadows a declared field, and every nested
    /// entity is well formed.
    pub open spec fn wf(self) -> bool {
        &&& forall|j: int|
            0 <= j < self.extensions.len() ==> !Self::known_keys().contains(
                (#[trigger] self.extensions[j]).0,
            )
        &&& match self.headers {
            None => true,
            Some(x) => wf_ref_or_schema(x),
        }
        &&& match self.correlation_id {
            None => true,
            Some(x) => wf_ref_or_correlation_id(x),
        }
        &&& wf_tag_list(self.tags)
        &&& match self.external_docs {
            None => true,
            Some(m) => m.wf(),
        }
        &&& match self.bindings {
            None => true,
            Some(x) => wf_ref_or_message_binding(x),
        }
    }

    /// The encoding: declared fields first, then the extensions.
    pub open spec fn encode(self) -> ValueView {
        ValueView::Object(present_fields(self.field_list()) + self.extensions)
    }

    /// The decoding of a structural value as this object.
    pub open spec fn decode(v: ValueView) -> Result<Self, DecodeError> {
        match v {
            ValueView::Object(entries) => {
                let headers = dec_field_message_trait_headers(entries);
                let correlation_id = dec_field_message_trait_correlation_id(entries);
                let schema_format = dec_field_message_trait_schema_format(entries);
                let content_type = dec_field_message_trait_content_type(entries);
                let name = dec_field_message_trait_name(entries);
                let title = dec_field_message_trait_title(entries);
                let summary = dec_field_message_trait_summary(entries);
                let description = dec_field_message_trait_description(entries);
                let tags = dec_field_message_trait_tags(entries);
                let external_docs = dec_field_message_trait_external_docs(entries);
                let bindings = dec_field_message_trait_bindings(entries);
                let examples = dec_field_message_trait_examples(entries);
                if headers is Err {
                    Err(headers->Err_0)
                } else if correlation_id is Err {
                    Err(correlation_id->Err_0)
                } else if schema_format is Err {
                    Err(schema_format->Err_0)
                } else if content_type is Err {
                    Err(content_type->Err_0)
                } else if name is Err {
                    Err(name->Err_0)
                } else if title is Err {
                    Err(title->Err_0)
                } else if summary is Err {
                    Err(summary->Err_0)
                } else if description is Err {
                    Err(description->Err_0)
                } else if tags is Err {
                    Err(tags->Err_0)
                } else if external_docs is Err {
                    Err(external_docs->Err_0)
                } else if bindings is Err {
                    Err(bindings->Err_0)
                } else if examples is Err {
                    Err(examples->Err_0)
                } else {
                    Ok(
                        MessageTraitView {
                            headers: headers->Ok_0,
                            correlation_id: correlation_id->Ok_0,
                            schema_format: schema_format->Ok_0,
                            content_type: content_type->Ok_0,
                            name: name->Ok_0,
                            title: title->Ok_0,
                            summary: summary->Ok_0,
                            description: description->Ok_0,
                            tags: tags->Ok_0,
                            external_docs: external_docs->Ok_0,
                            bindings: bindings->Ok_0,
                            examples: examples->Ok_0,
                            extensions: ext_of(entries, Self::known_keys()),
                        },
                    )
                }
            },
            _ => Err(DecodeError::StructuralMismatch),
        }
    }

    /// Decoding what a well-formed value encodes restores it exactly,
    /// extensions included.
    #[verifier::rlimit(100)]
    pub proof fn lemma_round_trip(m: MessageTraitView)
        requires
            m.wf(),
        ensures
            Self::decode(m.encode()) == Ok::<_, DecodeError>(m),
    {
        reveal(dec_field_message_trait_headers);
        reveal(dec_field_message_trait_correlation_id);
        reveal(dec_field_message_trait_schema_format);
        reveal(dec_field_message_trait_content_type);
        reveal(dec_field_message_trait_name);
        reveal(dec_field_message_trait_title);
        reveal(dec_field_message_trait_summary);
        reveal(dec_field_message_trait_description);
        reveal(dec_field_message_trait_tags);
        reveal(dec_field_message_trait_external_docs);
        reveal(dec_field_message_trait_bindings);
        reveal(dec_field_message_trait_examples);
        reveal(dec_ref_or_schema);
        reveal(dec_ref_or_correlation_id);
        reveal(dec_tag_list_items);
        reveal(dec_ref_or_message_binding);
        let fl = m.field_list();
        let keys = MessageTraitView::known_keys();
        lemma_message_trait_keys_distinct();
        assert(forall|p: int| 0 <= p < fl.len() ==> (#[trigger] fl[p]).0 == keys[p]);
        assert(distinct_keys(fl));
        assert(forall|k: Seq<char>| has_field_key(fl, k) ==> keys.contains(k));
        assert(forall|j: int|
            0 <= j < m.extensions.len() ==> !has_field_key(fl, (#[trigger] m.extensions[j]).0));
        lemma_lookup_encoded(fl, m.extensions, 0);
        lemma_lookup_encoded(fl, m.extensions, 1);
        lemma_lookup_encoded(fl, m.extensions, 2);
        lemma_lookup_encoded(fl, m.extensions, 3);
        lemma_lookup_encoded(fl, m.extensions, 4);
        lemma_lookup_encoded(fl, m.extensions, 5);
        lemma_lookup_encoded(fl, m.extensions, 6);
        lemma_lookup_encoded(fl, m.extensions, 7);
        lemma_lookup_encoded(fl, m.extensions, 8);
        lemma_lookup_encoded(fl, m.extensions, 9);
        lemma_lookup_encoded(fl, m.extensions, 10);
        lemma_lookup_encoded(fl, m.extensions, 11);
        lemma_ext_encoded(fl, m.extensions, keys);
        match m.headers {
            None => {},
            Some(x) => {
                lemma_ref_or_schema_round_trip(x);
            },
        }
        match m.correlation_id {
            None => {},
            Some(x) => {
                lemma_ref_or_correlation_id_round_trip(x);
            },
        }
        if m.tags.len() == 0 {
            assert(m.tags =~= Seq::<TagView>::empty());
            assert(dec_tag_list_items(Seq::<ValueView>::empty()) == Ok::<_, DecodeError>(
                Seq::<TagView>::empty(),
            ));
        } else {
            lemma_tag_list_round_trip(m.tags);
        }
        match m.external_docs {
            None => {},
            Some(x) => {
                ExternalDocumentationView::lemma_round_trip(x);
            },
        }
        match m.bindings {
            None => {},
            Some(x) => {
                lemma_ref_or_message_binding_round_trip(x);
            },
        }
        if m.examples.len() == 0 {
            assert(m.examples =~= Seq::<(Seq<char>, ValueView)>::empty());
        }
        assert(Self::decode(m.encode())->Ok_0 =~= m);
    }
}

impl MessageTrait {
    /// Decodes this object; unrecognized keys are collected into
    /// `extensions` in source order.
    #[verifier::rlimit(100)]
    pub fn decode(v: &Value) -> (r: Result<MessageTrait, DecodeError>)
        ensures
            match r {
                Ok(m) => MessageTraitView::decode(v@) == Ok::<_, DecodeError>(m@),
                Err(e) => MessageTraitView::decode(v@) == Err::<MessageTraitView, _>(e),
            },
    {
        match v {
            Value::Object(entries) => {
                let headers = match decode_field_message_trait_headers(entries) {
                    Ok(x) => x,
                    Err(e) => { return Err(e) },
                };
                let correlation_id = match decode_field_message_trait_correlation_id(entries) {
                    Ok(x) => x,
                    Err(e) => { return Err(e) },
                };
                let schema_format = match decode_field_message_trait_schema_format(entries) {
                    Ok(x) => x,
                    Err(e) => { return Err(e) },
                };
                let content_type = match decode_field_message_trait_content_type(entries) {
                    Ok(x) => x,
                    Err(e) => { return Err(e) },
                };
                let name = match decode_field_message_trait_name(entries) {
                    Ok(x) => x,
                    Err(e) => { return Err(e) },
                };
                let title = match decode_field_message_trait_title(entries) {
                    Ok(x) => x,
                    Err(e) => { return Err(e) },
                };
                let summary = match decode_field_message_trait_summary(entries) {
                    Ok(x) => x,
                    Err(e) => { return Err(e) },
                };
                let description = match decode_field_message_trait_description(entries) {
                    Ok(x) => x,
                    Err(e) => { return Err(e) },
                };
                let tags = match decode_field_message_trait_tags(entries) {
                    Ok(x) => x,
                    Err(e) => { return Err(e) },
                };
                let external_docs = match decode_field_message_trait_external_docs(entries) {
                    Ok(x) => x,
                    Err(e) => { return Err(e) },
                };
                let bindings = match decode_field_message_trait_bindings(entries) {
                    Ok(x) => x,
                    Err(e) => { return Err(e) },
                };
                let examples = match decode_field_message_trait_examples(entries) {
                    Ok(x) => x,
                    Err(e) => { return Err(e) },
                };
                let known: [&str; 12] = [
                    "headers", "correlationId", "schemaFormat", "contentType", "name", "title", "summary", "description", "tags", "externalDocs", "bindings", "examples",
                ];
                let ks: &[&str] = known.as_slice();
                let extensions = collect_extensions(entries, ks);
                proof {
                    assert(key_views(ks@) =~= MessageTraitView::known_keys());
                }
                Ok(
                    MessageTrait {
                        headers,
                        correlation_id,
                        schema_format,
                        content_type,
                        name,
                        title,
                        summary,
                        description,
                        tags,
                        external_docs,
                        bindings,
                        examples,
                        extensions,
                    },
                )
            },
            _ => Err(DecodeError::StructuralMismatch),
        }
    }

    /// Emits the first declared slots onto the output object.
    #[verifier::rlimit(100)]
    fn encode_slots_low(&self, out: &mut Vec<(String, Value)>)
        requires
            obj_view(old(out)@) == Seq::<(Seq<char>, ValueView)>::empty(),
        ensures
            obj_view(final(out)@) == present_fields(self@.field_list().subrange(0, 6)),
    {
        let ghost fl = self@.field_list();
        proof {
            assert(fl.subrange(0, 0) =~= Seq::<(Seq<char>, Option<ValueView>)>::empty());
            assert(present_fields(fl.subrange(0, 0)) =~= Seq::<(Seq<char>, ValueView)>::empty());
            assert(fl.subrange(0, 1) =~= fl.subrange(0, 0).push(fl[0]));
            lemma_present_fields_snoc(fl.subrange(0, 0), fl[0]);
        }
        if let Some(x) = &self.headers {
            let ev = encode_ref_or_schema(x);
            push_present(out, "headers", ev);
        }
        proof {
            assert(obj_view(out@) =~= present_fields(fl.subrange(0, 1)));
            assert(fl.subrange(0, 2) =~= fl.subrange(0, 1).push(fl[1]));
            lemma_present_fields_snoc(fl.subrange(0, 1), fl[1]);
        }
        if let Some(x) = &self.correlation_id {
            let ev = encode_ref_or_correlation_id(x);
            push_present(out, "correlationId", ev);
        }
        proof {
            assert(obj_view(out@) =~= present_fields(fl.subrange(0, 2)));
            assert(fl.subrange(0, 3) =~= fl.subrange(0, 2).push(fl[2]));
            lemma_present_fields_snoc(fl.subrange(0, 2), fl[2]);
        }
        if let Some(x) = &self.schema_format {
            push_present(out, "schemaFormat", Value::Str(x.clone()));
        }
        proof {
            assert(obj_view(out@) =~= present_fields(fl.subrange(0, 3)));
            assert(fl.subrange(0, 4) =~= fl.subrange(0, 3).push(fl[3]));
            lemma_present_fields_snoc(fl.subrange(0, 3), fl[3]);
        }
        if let Some(x) = &self.content_type {
            push_present(out, "contentType", Value::Str(x.clone()));
        }
        proof {
            assert(obj_view(out@) =~= present_fields(fl.subrange(0, 4)));
            assert(fl.subrange(0, 5) =~= fl.subrange(0, 4).push(fl[4]));
            lemma_present_fields_snoc(fl.subrange(0, 4), fl[4]);
        }
        if let Some(x) = &self.name {
            push_present(out, "name", Value::Str(x.clone()));
        }
        proof {
            assert(obj_view(out@) =~= present_fields(fl.subrange(0, 5)));
            assert(fl.subrange(0, 6) =~= fl.subrange(0, 5).push(fl[5]));
            lemma_present_fields_snoc(fl.subrange(0, 5), fl[5]);
        }
        if let Some(x) = &self.title {
            push_present(out, "title", Value::Str(x.clone()));
        }
        proof {
            assert(obj_view(out@) =~= present_fields(fl.subrange(0, 6)));
        }
    }

    /// Emits the remaining declared slots onto the output object.
    #[verifier::rlimit(100)]
    fn encode_slots_high(&self, out: &mut Vec<(String, Value)>)
        requires
            obj_view(old(out)@) == present_fields(self@.field_list().subrange(0, 6)),
        ensures
            obj_view(final(out)@) == present_fields(self@.field_list()),
    {
        let ghost fl = self@.field_list();
        proof {
            assert(fl.subrange(0, 7) =~= fl.subrange(0, 6).push(fl[6]));
            lemma_present_fields_snoc(fl.subrange(0, 6), fl[6]);
        }
        if let Some(x) = &self.summary {
            push_present(out, "summary", Value::Str(x.clone()));
        }
        proof {
            assert(obj_view(out@) =~= present_fields(fl.subrange(0, 7)));
            assert(fl.subrange(0, 8) =~= fl.subrange(0, 7).push(fl[7]));
            lemma_present_fields_snoc(fl.subrange(0, 7), fl[7]);
        }
        if let Some(x) = &self.description {
            push_present(out, "description", Value::Str(x.clone()));
        }
        proof {
            assert(obj_view(out@) =~= present_fields(fl.subrange(0, 8)));
            assert(fl.subrange(0, 9) =~= fl.subrange(0, 8).push(fl[8]));
            lemma_present_fields_snoc(fl.subrange(0, 8), fl[8]);
        }
        if self.tags.len() > 0 {
            let items = encode_tag_list_items(&self.tags);
            push_present(out, "tags", Value::List(items));
        }
        proof {
            assert(obj_view(out@) =~= present_fields(fl.subrange(0, 9)));
            assert(fl.subrange(0, 10) =~= fl.subrange(0, 9).push(fl[9]));
            lemma_present_fields_snoc(fl.subrange(0, 9), fl[9]);
        }
        if let Some(m) = &self.external_docs {
            let ev = m.encode();
            push_present(out, "externalDocs", ev);
        }
        proof {
            assert(obj_view(out@) =~= present_fields(fl.subrange(0, 10)));
            assert(fl.subrange(0, 11) =~= fl.subrange(0, 10).push(fl[10]));
            lemma_present_fields_snoc(fl.subrange(0, 10), fl[10]);
        }
        if let Some(x) = &self.bindings {
            let ev = encode_ref_or_message_binding(x);
            push_present(out, "bindings", ev);
        }
        proof {
            assert(obj_view(out@) =~= present_fields(fl.subrange(0, 11)));
            assert(fl.subrange(0, 12) =~= fl.subrange(0, 11).push(fl[11]));
            lemma_present_fields_snoc(fl.subrange(0, 11), fl[11]);
        }
        if self.examples.len() > 0 {
            push_present(out, "examples", encode_value_map(&self.examples));
        }
        proof {
            assert(obj_view(out@) =~= present_fields(fl.subrange(0, 12)));
            assert(fl.subrange(0, 12) =~= fl);
        }
    }

    /// Encodes this object: declared slots, then extensions.
    pub fn encode(&self) -> (r: Value)
        ensures
            r@ == self@.encode(),
    {
        let mut out: Vec<(String, Value)> = Vec::new();
        proof {
            assert(obj_view(out@) =~= Seq::<(Seq<char>, ValueView)>::empty());
        }
        self.encode_slots_low(&mut out);
        self.encode_slots_high(&mut out);
        push_entries(&mut out, &self.extensions);
        Value::Object(out)
    }
}

/// The decoding of a reference-or-message trait: the reference shape is tried
/// first, always; only a value that does not match it is read inline.
#[verifier::opaque]
pub open spec fn dec_ref_or_message_trait(v: ValueView) -> Result<RefOrView<MessageTraitView>, DecodeError> {
    match ref_shape(v) {
        Some(loc) => Ok(RefOrView::Ref(loc)),
        None => match MessageTraitView::decode(v) {
            Ok(m) => Ok(RefOrView::Val(m)),
            Err(e) => Err(e),
        },
    }
}

/// The encoding of a reference-or-message trait: the reference object, or the
/// inline object.
pub open spec fn enc_ref_or_message_trait(r: RefOrView<MessageTraitView>) -> ValueView {
    match r {
        RefOrView::Ref(loc) => enc_ref(loc),
        RefOrView::Val(m) => m.encode(),
    }
}

/// A reference is well formed outright; an inline value must be well formed
/// and must not encode to the reference shape (such a value would decode as
/// a reference, by the fixed priority).
pub open spec fn wf_ref_or_message_trait(r: RefOrView<MessageTraitView>) -> bool {
    match r {
        RefOrView::Ref(_) => true,
        RefOrView::Val(m) => m.wf() && ref_shape(m.encode()) is None,
    }
}

/// Decoding what a well-formed reference-or-message trait encodes restores it.
pub proof fn lemma_ref_or_message_trait_round_trip(r: RefOrView<MessageTraitView>)
    requires
        wf_ref_or_message_trait(r),
    ensures
        dec_ref_or_message_trait(enc_ref_or_message_trait(r)) == Ok::<_, DecodeError>(r),
{
    reveal(dec_ref_or_message_trait);
    match r {
        RefOrView::Ref(loc) => {
            lemma_ref_shape_enc(loc);
        },
        RefOrView::Val(m) => {
            MessageTraitView::lemma_round_trip(m);
        },
    }
}

/// Decodes a reference-or-message trait: the reference shape is tried first,
/// always.
pub fn decode_ref_or_message_trait(v: &Value) -> (r: Result<RefOr<MessageTrait>, DecodeError>)
    ensures
        match r {
            Ok(x) => dec_ref_or_message_trait(v@) == Ok::<_, DecodeError>(x@),
            Err(e) => dec_ref_or_message_trait(v@) == Err::<RefOrView<MessageTraitView>, _>(e),
        },
{
    proof {
        reveal(dec_ref_or_message_trait);
    }
    match as_reference(v) {
        Some(rf) => Ok(RefOr::Ref(rf)),
        None => match MessageTrait::decode(v) {
            Ok(m) => Ok(RefOr::T(m)),
            Err(e) => Err(e),
        },
    }
}

/// Encodes a reference-or-message trait.
pub fn encode_ref_or_message_trait(r: &RefOr<MessageTrait>) -> (res: Value)
    ensures
        res@ == enc_ref_or_message_trait(r@),
{
    match r {
        RefOr::Ref(rf) => encode_reference(rf),
        RefOr::T(m) => m.encode(),
    }
}

/// Model of a named message trait mapping, entry by entry.
pub open spec fn message_trait_map_view(m: Seq<(String, RefOr<MessageTrait>)>) -> Seq<(Seq<char>, RefOrView<MessageTraitView>)>
    decreases m.len(),
{
    if m.len() == 0 {
        Seq::empty()
    } else {
        seq![(m[0].0@, m[0].1@)] + message_trait_map_view(m.subrange(1, m.len() as int))
    }
}

/// `message_trait_map_view` maps the entry sequence pointwise.
pub broadcast proof fn lemma_message_trait_map_view(m: Seq<(String, RefOr<MessageTrait>)>)
    ensures
        (#[trigger] message_trait_map_view(m)).len() == m.len(),
        forall|i: int|
            0 <= i < m.len() ==> message_trait_map_view(m)[i] == (m[i].0@, m[i].1@),
    decreases m.len(),
{
    if m.len() > 0 {
        lemma_message_trait_map_view(m.subrange(1, m.len() as int));
    }
}

/// The encoding of a named message trait mapping, entry by entry.
pub open spec fn enc_message_trait_map(m: Seq<(Seq<char>, RefOrView<MessageTraitView>)>) -> Seq<(Seq<char>, ValueView)>
    decreases m.len(),
{
    if m.len() == 0 {
        Seq::empty()
    } else {
        seq![(m[0].0, enc_ref_or_message_trait(m[0].1))] + enc_message_trait_map(m.subrange(1, m.len() as int))
    }
}

/// The decoding of a named message trait mapping, entry by entry.
#[verifier::opaque]
pub open spec fn dec_message_trait_map_entries(entries: Seq<(Seq<char>, ValueView)>) -> Result<
    Seq<(Seq<char>, RefOrView<MessageTraitView>)>,
    DecodeError,
>
    decreases entries.len(),
{
    if entries.len() == 0 {
        Ok(Seq::empty())
    } else {
        let head = dec_ref_or_message_trait(entries[0].1);
        let rest = dec_message_trait_map_entries(entries.subrange(1, entries.len() as int));
        if head is Err {
            Err(head->Err_0)
        } else if rest is Err {
            Err(rest->Err_0)
        } else {
            Ok(seq![(entries[0].0, head->Ok_0)] + rest->Ok_0)
        }
    }
}

/// Every entry of the mapping is well formed.
pub open spec fn wf_message_trait_map(m: Seq<(Seq<char>, RefOrView<MessageTraitView>)>) -> bool
    decreases m.len(),
{
    m.len() == 0 || (wf_ref_or_message_trait(m[0].1) && wf_message_trait_map(m.subrange(1, m.len() as int)))
}

/// Decoding an encoded message trait mapping restores it.
pub proof fn lemma_message_trait_map_round_trip(m: Seq<(Seq<char>, RefOrView<MessageTraitView>)>)
    requires
        wf_message_trait_map(m),
    ensures
        dec_message_trait_map_entries(enc_message_trait_map(m)) == Ok::<_, DecodeError>(m),
    decreases m.len(),
{
    reveal(dec_message_trait_map_entries);
    if m.len() > 0 {
        let rest = m.subrange(1, m.len() as int);
        lemma_ref_or_message_trait_round_trip(m[0].1);
        lemma_message_trait_map_round_trip(rest);
        let whole = enc_message_trait_map(m);
        assert(whole[0] == (m[0].0, enc_ref_or_message_trait(m[0].1)));
        assert(whole.subrange(1, whole.len() as int) =~= enc_message_trait_map(rest));
        assert(dec_message_trait_map_entries(whole)->Ok_0 =~= m);
    } else {
        assert(m =~= Seq::<(Seq<char>, RefOrView<MessageTraitView>)>::empty());
        assert(enc_message_trait_map(m) =~= Seq::<(Seq<char>, ValueView)>::empty());
        assert(dec_message_trait_map_entries(enc_message_trait_map(m))->Ok_0 =~= m);
    }
}

/// Encodes a named message trait mapping, entry by entry.
pub fn encode_message_trait_map_entries(m: &Vec<(String, RefOr<MessageTrait>)>) -> (res: Vec<(String, Value)>)
    ensures
        obj_view(res@) == enc_message_trait_map(message_trait_map_view(m@)),
{
    let ghost mv = message_trait_map_view(m@);
    proof {
        lemma_message_trait_map_view(m@);
    }
    let n = m.len();
    let mut out: Vec<(String, Value)> = Vec::new();
    let mut i: usize = 0;
    proof {
        assert(mv.subrange(0, mv.len() as int) =~= mv);
        assert(obj_view(out@) + enc_message_trait_map(mv) =~= enc_message_trait_map(mv));
    }
    while i < n
        invariant
            n == m@.len(),
            0 <= i <= n,
            mv == message_trait_map_view(m@),
            mv.len() == n,
            forall|j: int| 0 <= j < n ==> message_trait_map_view(m@)[j] == (m@[j].0@, m@[j].1@),
            enc_message_trait_map(mv) == obj_view(out@) + enc_message_trait_map(mv.subrange(i as int, n as int)),
        decreases n - i,
    {
        let ghost prev = out@;
        let k = m[i].0.clone();
        let ev = encode_ref_or_message_trait(&m[i].1);
        out.push((k, ev));
        proof {
            let tail = mv.subrange(i as int, n as int);
            assert(tail[0] == mv[i as int]);
            assert(tail.subrange(1, tail.len() as int) =~= mv.subrange(i as int + 1, n as int));
            lemma_obj_view(out@);
            lemma_obj_view(prev);
            assert(obj_view(out@) =~= obj_view(prev).push((mv[i as int].0, enc_ref_or_message_trait(mv[i as int].1))));
            assert(obj_view(prev) + (seq![(mv[i as int].0, enc_ref_or_message_trait(mv[i as int].1))] + enc_message_trait_map(
                mv.subrange(i as int + 1, n as int),
            )) =~= obj_view(out@) + enc_message_trait_map(mv.subrange(i as int + 1, n as int)));
        }
        i += 1;
    }
    proof {
        assert(mv.subrange(n as int, n as int) =~= Seq::<(Seq<char>, RefOrView<MessageTraitView>)>::empty());
        assert(enc_message_trait_map(mv.subrange(n as int, n as int)) =~= Seq::<(Seq<char>, ValueView)>::empty());
        assert(obj_view(out@) + Seq::<(Seq<char>, ValueView)>::empty() =~= obj_view(out@));
    }
    out
}

/// Decodes the entries of a named message trait mapping.
pub fn decode_message_trait_map_entries(entries: &Vec<(String, Value)>) -> (r: Result<Vec<(String, RefOr<MessageTrait>)>, DecodeError>)
    ensures
        match r {
            Ok(x) => dec_message_trait_map_entries(obj_view(entries@)) == Ok::<_, DecodeError>(message_trait_map_view(x@)),
            Err(e) => dec_message_trait_map_entries(obj_view(entries@)) == Err::<Seq<(Seq<char>, RefOrView<MessageTraitView>)>, _>(e),
        },
{
    proof {
        reveal(dec_message_trait_map_entries);
    }
    let ghost ov = obj_view(entries@);
    proof {
        lemma_obj_view(entries@);
    }
    let n = entries.len();
    let mut out: Vec<(String, RefOr<MessageTrait>)> = Vec::new();
    let mut i: usize = 0;
    proof {
        assert(ov.subrange(0, ov.len() as int) =~= ov);
        assert(message_trait_map_view(out@) =~= Seq::<(Seq<char>, RefOrView<MessageTraitView>)>::empty());
        lemma_message_trait_map_view(out@);
    }
    while i < n
        invariant
            n == entries@.len(),
            0 <= i <= n,
            ov == obj_view(entries@),
            ov.len() == n,
            forall|j: int|
                0 <= j < n ==> ov[j] == (entries@[j].0@, crate::value::value_view(
                    entries@[j].1,
                )),
            dec_message_trait_map_entries(ov) == (match dec_message_trait_map_entries(ov.subrange(i as int, n as int)) {
                Ok(t) => Ok::<_, DecodeError>(message_trait_map_view(out@) + t),
                Err(e) => Err(e),
            }),
        decreases n - i,
    {
        let ghost prev = out@;
        let ghost tail = ov.subrange(i as int, n as int);
        proof {
            reveal(dec_message_trait_map_entries);
            assert(tail[0] == ov[i as int]);
            assert(tail.subrange(1, tail.len() as int) =~= ov.subrange(i as int + 1, n as int));
        }
        let k = entries[i].0.clone();
        match decode_ref_or_message_trait(&entries[i].1) {
            Ok(x) => {
                out.push((k, x));
                proof {
                    reveal(dec_message_trait_map_entries);
                    lemma_message_trait_map_view(out@);
                    lemma_message_trait_map_view(prev);
                    assert(message_trait_map_view(out@) =~= message_trait_map_view(prev).push((ov[i as int].0, x@)));
                    assert(message_trait_map_view(prev) + (seq![(ov[i as int].0, x@)] + dec_message_trait_map_entries(
                        ov.subrange(i as int + 1, n as int),
                    )->Ok_0) =~= message_trait_map_view(out@) + dec_message_trait_map_entries(
                        ov.subrange(i as int + 1, n as int),
                    )->Ok_0);
                }
            },
            Err(e) => {
                return Err(e);
            },
        }
        i += 1;
    }
    proof {
        reveal(dec_message_trait_map_entries);
        assert(ov.subrange(n as int, n as int) =~= Seq::<(Seq<char>, ValueView)>::empty());
        assert(message_trait_map_view(out@) + Seq::<(Seq<char>, RefOrView<MessageTraitView>)>::empty() =~= message_trait_map_view(out@));
    }
    Ok(out)
}

} // verus!
