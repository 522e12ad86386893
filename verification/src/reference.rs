//! References: a value in the document tree is either an inline instance or
//! a JSON-Reference-style pointer to a reusable definition.

use vstd::prelude::*;

use crate::value::Value;
use crate::value::ValueView;
use crate::value::lemma_obj_view;
use crate::value::obj_view;
use crate::value::str_equal;

verus! {

/// A value that is either a reference to another component of the
/// specification or an inline item.
///
/// Decoding tries the reference shape first, always: an object holding
/// exactly the reserved `$ref` key with a string location. Only when that
/// shape does not match is the value read as an inline `T`.
#[derive(Debug, PartialEq)]
pub enum RefOr<T> {
    /// A simple object to allow referencing other components in the
    /// specification, internally and externally.
    Ref(Ref),
    T(T),
}

/// A reference object: a single string pointer into the document, written
/// under the reserved `$ref` key.
#[derive(Debug, PartialEq)]
pub struct Ref {
    /// Reference location of the actual component.
    pub ref_location: String,
}

/// Model of a [`RefOr`] value.
#[verifier::ext_equal]
pub enum RefOrView<V> {
    Ref(Seq<char>),
    Val(V),
}

impl View for Ref {
    type V = Seq<char>;

    open spec fn view(&self) -> Seq<char> {
        self.ref_location@
    }
}

impl<T: View> View for RefOr<T> {
    type V = RefOrView<T::V>;

    open spec fn view(&self) -> RefOrView<T::V> {
        match self {
            RefOr::Ref(r) => RefOrView::Ref(r.ref_location@),
            RefOr::T(t) => RefOrView::Val(t@),
        }
    }
}

impl<T> RefOr<T> {
    /// A reference to the given location.
    pub fn ref_(r: &str) -> (res: Self)
        ensures
            res matches RefOr::Ref(rf) && rf.ref_location@ == r@,
    {
        RefOr::Ref(Ref { ref_location: r.to_owned() })
    }

    /// Wraps an item in the inline variant, boxed.
    pub fn boxed_item(item: T) -> (res: RefOr<Box<T>>)
        ensures
            res matches RefOr::T(b) && *b == item,
    {
        RefOr::T(Box::new(item))
    }
}

impl<T> RefOr<Box<T>> {
    /// Moves the inline item out of its box.
    pub fn unbox(self) -> (res: RefOr<T>)
        ensures
            match self {
                RefOr::Ref(r) => res == RefOr::<T>::Ref(r),
                RefOr::T(b) => res matches RefOr::T(x) && x == *b,
            },
    {
        match self {
            RefOr::Ref(reference) => RefOr::Ref(reference),
            RefOr::T(boxed) => RefOr::T(*boxed),
        }
    }
}

/// The reference shape: an object holding exactly the reserved `$ref` key
/// with a string location.
pub open spec fn ref_shape(v: ValueView) -> Option<Seq<char>> {
    match v {
        ValueView::Object(entries) => if entries.len() == 1 && entries[0].0 == "$ref"@
            && entries[0].1 is Str {
            Some(entries[0].1->Str_0)
        } else {
            None
        },
        _ => None,
    }
}

/// The encoding of a reference: `{ "$ref": location }`.
pub open spec fn enc_ref(loc: Seq<char>) -> ValueView {
    ValueView::Object(seq![("$ref"@, ValueView::Str(loc))])
}

/// A reference encoding always matches the reference shape.
pub proof fn lemma_ref_shape_enc(loc: Seq<char>)
    ensures
        ref_shape(enc_ref(loc)) == Some(loc),
{
}

/// Reads the reference shape from a structural value, if it matches.
pub fn as_reference(v: &Value) -> (r: Option<Ref>)
    ensures
        match r {
            Some(rf) => ref_shape(v@) == Some(rf.ref_location@),
            None => ref_shape(v@) is None,
        },
{
    match v {
        Value::Object(entries) => {
            proof {
                lemma_obj_view(entries@);
            }
            if entries.len() == 1 {
                if str_equal(&entries[0].0, "$ref") {
                    match &entries[0].1 {
                        Value::Str(s) => {
                            return Some(Ref { ref_location: s.clone() });
                        },
                        _ => {
                            return None;
                        },
                    }
                }
            }
            None
        },
        _ => None,
    }
}

/// Encodes a reference object.
pub fn encode_reference(r: &Ref) -> (res: Value)
    ensures
        res@ == enc_ref(r.ref_location@),
{
    let mut out: Vec<(String, Value)> = Vec::new();
    out.push(("$ref".to_owned(), Value::Str(r.ref_location.clone())));
    proof {
        lemma_obj_view(out@);
        assert(obj_view(out@) =~= seq![("$ref"@, ValueView::Str(r.ref_location@))]);
    }
    Value::Object(out)
}

} // verus!
