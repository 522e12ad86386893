//! Field-level codecs: every entity decodes its declared fields from looked
//! up object values through these helpers, and encodes them back.

use vstd::prelude::*;

use crate::value::DecodeError;
use crate::value::Value;
use crate::value::ValueView;
use crate::value::list_view;
use crate::value::lemma_list_view;
use crate::value::lemma_obj_view;
use crate::value::obj_view;
use crate::value::value_view;

verus! {

/// Model of an optional borrowed field value.
pub open spec fn opt_view(o: Option<&Value>) -> Option<ValueView> {
    match o {
        None => None,
        Some(v) => Some(value_view(*v)),
    }
}

/// Model of an optional owned string.
pub open spec fn view_opt_string(x: Option<String>) -> Option<Seq<char>> {
    match x {
        None => None,
        Some(s) => Some(s@),
    }
}

/// Model of a list of owned strings.
pub open spec fn view_vec_string(x: Seq<String>) -> Seq<Seq<char>> {
    x.map_values(|s: String| s@)
}

/// Model of an ordered string-to-string mapping.
pub open spec fn view_string_map(x: Seq<(String, String)>) -> Seq<(Seq<char>, Seq<char>)> {
    x.map_values(|p: (String, String)| (p.0@, p.1@))
}

/// An optional string field: absent, or a string value.
pub open spec fn dec_opt_string(o: Option<ValueView>) -> Result<Option<Seq<char>>, DecodeError> {
    match o {
        None => Ok(None),
        Some(ValueView::Str(s)) => Ok(Some(s)),
        Some(_) => Err(DecodeError::StructuralMismatch),
    }
}

/// A required string field: must be present and a string value.
pub open spec fn dec_req_string(o: Option<ValueView>) -> Result<Seq<char>, DecodeError> {
    match o {
        None => Err(DecodeError::RequiredFieldMissing),
        Some(ValueView::Str(s)) => Ok(s),
        Some(_) => Err(DecodeError::StructuralMismatch),
    }
}

/// An optional boolean field.
pub open spec fn dec_opt_bool(o: Option<ValueView>) -> Result<Option<bool>, DecodeError> {
    match o {
        None => Ok(None),
        Some(ValueView::Bool(b)) => Ok(Some(b)),
        Some(_) => Err(DecodeError::StructuralMismatch),
    }
}

/// An optional integer field that must fit a 32-bit signed integer.
pub open spec fn dec_opt_i32(o: Option<ValueView>) -> Result<Option<i32>, DecodeError> {
    match o {
        None => Ok(None),
        Some(ValueView::Int(i)) => if -0x8000_0000 <= i <= 0x7fff_ffff {
            Ok(Some(i as i32))
        } else {
            Err(DecodeError::StructuralMismatch)
        },
        Some(_) => Err(DecodeError::StructuralMismatch),
    }
}

/// A list-of-strings field: absent means empty, otherwise every element must
/// be a string.
pub open spec fn dec_vec_string(o: Option<ValueView>) -> Result<Seq<Seq<char>>, DecodeError> {
    match o {
        None => Ok(Seq::empty()),
        Some(ValueView::List(items)) => if forall|i: int|
            0 <= i < items.len() ==> (#[trigger] items[i]) is Str {
            Ok(items.map_values(|v: ValueView| v->Str_0))
        } else {
            Err(DecodeError::StructuralMismatch)
        },
        Some(_) => Err(DecodeError::StructuralMismatch),
    }
}

/// A string-to-string mapping field: absent means empty, otherwise an object
/// whose every value is a string.
pub open spec fn dec_string_map(o: Option<ValueView>) -> Result<
    Seq<(Seq<char>, Seq<char>)>,
    DecodeError,
> {
    match o {
        None => Ok(Seq::empty()),
        Some(ValueView::Object(entries)) => if forall|i: int|
            0 <= i < entries.len() ==> (#[trigger] entries[i]).1 is Str {
            Ok(entries.map_values(|p: (Seq<char>, ValueView)| (p.0, p.1->Str_0)))
        } else {
            Err(DecodeError::StructuralMismatch)
        },
        Some(_) => Err(DecodeError::StructuralMismatch),
    }
}

/// An untyped list field: absent means empty; any list is kept as is.
pub open spec fn dec_value_list(o: Option<ValueView>) -> Result<Seq<ValueView>, DecodeError> {
    match o {
        None => Ok(Seq::empty()),
        Some(ValueView::List(items)) => Ok(items),
        Some(_) => Err(DecodeError::StructuralMismatch),
    }
}

/// An untyped mapping field: absent means empty; any object is kept as is.
pub open spec fn dec_value_map(o: Option<ValueView>) -> Result<
    Seq<(Seq<char>, ValueView)>,
    DecodeError,
> {
    match o {
        None => Ok(Seq::empty()),
        Some(ValueView::Object(entries)) => Ok(entries),
        Some(_) => Err(DecodeError::StructuralMismatch),
    }
}

/// The encoding of an optional string.
pub open spec fn enc_opt_string(o: Option<Seq<char>>) -> Option<ValueView> {
    match o {
        None => None,
        Some(s) => Some(ValueView::Str(s)),
    }
}

/// The encoding of an optional boolean.
pub open spec fn enc_opt_bool(o: Option<bool>) -> Option<ValueView> {
    match o {
        None => None,
        Some(b) => Some(ValueView::Bool(b)),
    }
}

/// The encoding of an optional 32-bit integer.
pub open spec fn enc_opt_i32(o: Option<i32>) -> Option<ValueView> {
    match o {
        None => None,
        Some(i) => Some(ValueView::Int(i as int)),
    }
}

/// The encoding of a list of strings.
pub open spec fn enc_string_list(ss: Seq<Seq<char>>) -> ValueView {
    ValueView::List(ss.map_values(|s: Seq<char>| ValueView::Str(s)))
}

/// The encoding of an ordered string-to-string mapping.
pub open spec fn enc_string_map(m: Seq<(Seq<char>, Seq<char>)>) -> ValueView {
    ValueView::Object(m.map_values(|p: (Seq<char>, Seq<char>)| (p.0, ValueView::Str(p.1))))
}

/// Decoding an encoded list of strings restores it.
pub proof fn lemma_string_list_round_trip(ss: Seq<Seq<char>>)
    ensures
        dec_vec_string(Some(enc_string_list(ss))) == Ok::<_, DecodeError>(ss),
{
    let items = ss.map_values(|s: Seq<char>| ValueView::Str(s));
    assert(forall|i: int| 0 <= i < items.len() ==> (#[trigger] items[i]) is Str);
    assert(items.map_values(|v: ValueView| v->Str_0) =~= ss);
}

/// Decoding an encoded string-to-string mapping restores it.
pub proof fn lemma_string_map_round_trip(m: Seq<(Seq<char>, Seq<char>)>)
    ensures
        dec_string_map(Some(enc_string_map(m))) == Ok::<_, DecodeError>(m),
{
    let entries = m.map_values(|p: (Seq<char>, Seq<char>)| (p.0, ValueView::Str(p.1)));
    assert(forall|i: int| 0 <= i < entries.len() ==> (#[trigger] entries[i]).1 is Str);
    assert(entries.map_values(|p: (Seq<char>, ValueView)| (p.0, p.1->Str_0)) =~= m);
}

/// Decodes an optional string field.
pub fn get_opt_string(o: Option<&Value>) -> (r: Result<Option<String>, DecodeError>)
    ensures
        match r {
            Ok(x) => dec_opt_string(opt_view(o)) == Ok::<_, DecodeError>(view_opt_string(x)),
            Err(e) => dec_opt_string(opt_view(o)) == Err::<Option<Seq<char>>, _>(e),
        },
{
    match o {
        None => Ok(None),
        Some(Value::Str(s)) => Ok(Some(s.clone())),
        Some(_) => Err(DecodeError::StructuralMismatch),
    }
}

/// Decodes a required string field.
pub fn get_req_string(o: Option<&Value>) -> (r: Result<String, DecodeError>)
    ensures
        match r {
            Ok(x) => dec_req_string(opt_view(o)) == Ok::<_, DecodeError>(x@),
            Err(e) => dec_req_string(opt_view(o)) == Err::<Seq<char>, _>(e),
        },
{
    match o {
        None => Err(DecodeError::RequiredFieldMissing),
        Some(Value::Str(s)) => Ok(s.clone()),
        Some(_) => Err(DecodeError::StructuralMismatch),
    }
}

/// Decodes an optional boolean field.
pub fn get_opt_bool(o: Option<&Value>) -> (r: Result<Option<bool>, DecodeError>)
    ensures
        match r {
            Ok(x) => dec_opt_bool(opt_view(o)) == Ok::<_, DecodeError>(x),
            Err(e) => dec_opt_bool(opt_view(o)) == Err::<Option<bool>, _>(e),
        },
{
    match o {
        None => Ok(None),
        Some(Value::Bool(b)) => Ok(Some(*b)),
        Some(_) => Err(DecodeError::StructuralMismatch),
    }
}

/// Decodes an optional 32-bit integer field.
pub fn get_opt_i32(o: Option<&Value>) -> (r: Result<Option<i32>, DecodeError>)
    ensures
        match r {
            Ok(x) => dec_opt_i32(opt_view(o)) == Ok::<_, DecodeError>(x),
            Err(e) => dec_opt_i32(opt_view(o)) == Err::<Option<i32>, _>(e),
        },
{
    match o {
        None => Ok(None),
        Some(Value::Int(i)) => if -0x8000_0000i64 <= *i && *i <= 0x7fff_ffffi64 {
            Ok(Some(*i as i32))
        } else {
            Err(DecodeError::StructuralMismatch)
        },
        Some(_) => Err(DecodeError::StructuralMismatch),
    }
}

/// Decodes a list-of-strings field.
pub fn get_vec_string(o: Option<&Value>) -> (r: Result<Vec<String>, DecodeError>)
    ensures
        match r {
            Ok(x) => dec_vec_string(opt_view(o)) == Ok::<_, DecodeError>(view_vec_string(x@)),
            Err(e) => dec_vec_string(opt_view(o)) == Err::<Seq<Seq<char>>, _>(e),
        },
{
    match o {
        None => {
            let r: Vec<String> = Vec::new();
            proof {
                assert(view_vec_string(r@) =~= Seq::<Seq<char>>::empty());
            }
            Ok(r)
        },
        Some(Value::List(items)) => {
            proof {
                lemma_list_view(items@);
            }
            let n = items.len();
            let mut out: Vec<String> = Vec::new();
            let mut i: usize = 0;
            while i < n
                invariant
                    opt_view(o) == Some(ValueView::List(list_view(items@))),
                    n == items@.len(),
                    0 <= i <= n,
                    out@.len() == i,
                    forall|j: int|
                        0 <= j < i ==> #[trigger] list_view(items@)[j] == ValueView::Str(
                            out@[j]@,
                        ),
                    forall|j: int| 0 <= j < items@.len() ==> list_view(items@)[j] == value_view(
                        items@[j],
                    ),
                    list_view(items@).len() == items@.len(),
                decreases n - i,
            {
                match &items[i] {
                    Value::Str(s) => {
                        out.push(s.clone());
                    },
                    _ => {
                        proof {
                            assert(!(list_view(items@)[i as int] is Str));
                        }
                        return Err(DecodeError::StructuralMismatch);
                    },
                }
                i += 1;
            }
            proof {
                let lv = list_view(items@);
                assert(forall|j: int| 0 <= j < lv.len() ==> (#[trigger] lv[j]) is Str);
                assert(view_vec_string(out@) =~= lv.map_values(|v: ValueView| v->Str_0));
            }
            Ok(out)
        },
        Some(_) => Err(DecodeError::StructuralMismatch),
    }
}

/// Decodes a string-to-string mapping field.
pub fn get_string_map(o: Option<&Value>) -> (r: Result<Vec<(String, String)>, DecodeError>)
    ensures
        match r {
            Ok(x) => dec_string_map(opt_view(o)) == Ok::<_, DecodeError>(view_string_map(x@)),
            Err(e) => dec_string_map(opt_view(o)) == Err::<Seq<(Seq<char>, Seq<char>)>, _>(e),
        },
{
    match o {
        None => {
            let r: Vec<(String, String)> = Vec::new();
            proof {
                assert(view_string_map(r@) =~= Seq::<(Seq<char>, Seq<char>)>::empty());
            }
            Ok(r)
        },
        Some(Value::Object(entries)) => {
            proof {
                lemma_obj_view(entries@);
            }
            let n = entries.len();
            let mut out: Vec<(String, String)> = Vec::new();
            let mut i: usize = 0;
            while i < n
                invariant
                    opt_view(o) == Some(ValueView::Object(obj_view(entries@))),
                    n == entries@.len(),
                    0 <= i <= n,
                    out@.len() == i,
                    forall|j: int|
                        0 <= j < i ==> #[trigger] obj_view(entries@)[j] == (
                        out@[j].0@,
                        ValueView::Str(out@[j].1@),
                        ),
                    forall|j: int|
                        0 <= j < entries@.len() ==> obj_view(entries@)[j] == (
                        entries@[j].0@,
                        value_view(entries@[j].1),
                        ),
                    obj_view(entries@).len() == entries@.len(),
                decreases n - i,
            {
                match &entries[i].1 {
                    Value::Str(s) => {
                        out.push((entries[i].0.clone(), s.clone()));
                    },
                    _ => {
                        proof {
                            assert(!(obj_view(entries@)[i as int].1 is Str));
                        }
                        return Err(DecodeError::StructuralMismatch);
                    },
                }
                i += 1;
            }
            proof {
                let ov = obj_view(entries@);
                assert(forall|j: int| 0 <= j < ov.len() ==> (#[trigger] ov[j]).1 is Str);
                assert(view_string_map(out@) =~= ov.map_values(
                    |p: (Seq<char>, ValueView)| (p.0, p.1->Str_0),
                ));
            }
            Ok(out)
        },
        Some(_) => Err(DecodeError::StructuralMismatch),
    }
}

/// Decodes an untyped list field, copying its elements.
pub fn get_value_list(o: Option<&Value>) -> (r: Result<Vec<Value>, DecodeError>)
    ensures
        match r {
            Ok(x) => dec_value_list(opt_view(o)) == Ok::<_, DecodeError>(list_view(x@)),
            Err(e) => dec_value_list(opt_view(o)) == Err::<Seq<ValueView>, _>(e),
        },
{
    match o {
        None => {
            let r: Vec<Value> = Vec::new();
            proof {
                assert(list_view(r@) =~= Seq::<ValueView>::empty());
            }
            Ok(r)
        },
        Some(Value::List(items)) => {
            let n = items.len();
            let mut out: Vec<Value> = Vec::new();
            let mut i: usize = 0;
            while i < n
                invariant
                    n == items@.len(),
                    0 <= i <= n,
                    out@.len() == i,
                    forall|j: int|
                        0 <= j < i ==> value_view(#[trigger] out@[j]) == value_view(items@[j]),
                decreases n - i,
            {
                let c = items[i].deep_clone();
                out.push(c);
                i += 1;
            }
            proof {
                lemma_list_view(out@);
                lemma_list_view(items@);
                assert(list_view(out@) =~= list_view(items@));
            }
            Ok(out)
        },
        Some(_) => Err(DecodeError::StructuralMismatch),
    }
}

/// Decodes an untyped mapping field, copying its entries.
pub fn get_value_map(o: Option<&Value>) -> (r: Result<Vec<(String, Value)>, DecodeError>)
    ensures
        match r {
            Ok(x) => dec_value_map(opt_view(o)) == Ok::<_, DecodeError>(obj_view(x@)),
            Err(e) => dec_value_map(opt_view(o)) == Err::<Seq<(Seq<char>, ValueView)>, _>(e),
        },
{
    match o {
        None => {
            let r: Vec<(String, Value)> = Vec::new();
            proof {
                assert(obj_view(r@) =~= Seq::<(Seq<char>, ValueView)>::empty());
            }
            Ok(r)
        },
        Some(Value::Object(entries)) => {
            let n = entries.len();
            let mut out: Vec<(String, Value)> = Vec::new();
            let mut i: usize = 0;
            while i < n
                invariant
                    n == entries@.len(),
                    0 <= i <= n,
                    out@.len() == i,
                    forall|j: int|
                        0 <= j < i ==> (#[trigger] out@[j]).0@ == entries@[j].0@ && value_view(
                            out@[j].1,
                        ) == value_view(entries@[j].1),
                decreases n - i,
            {
                let k = entries[i].0.clone();
                let c = entries[i].1.deep_clone();
                out.push((k, c));
                i += 1;
            }
            proof {
                lemma_obj_view(out@);
                lemma_obj_view(entries@);
                assert(obj_view(out@) =~= obj_view(entries@));
            }
            Ok(out)
        },
        Some(_) => Err(DecodeError::StructuralMismatch),
    }
}

/// Encodes an untyped list of values, copying its elements.
pub fn encode_value_list(items: &Vec<Value>) -> (r: Value)
    ensures
        r@ == ValueView::List(list_view(items@)),
{
    let n = items.len();
    let mut out: Vec<Value> = Vec::new();
    let mut i: usize = 0;
    while i < n
        invariant
            n == items@.len(),
            0 <= i <= n,
            out@.len() == i,
            forall|j: int|
                0 <= j < i ==> value_view(#[trigger] out@[j]) == value_view(items@[j]),
        decreases n - i,
    {
        let c = items[i].deep_clone();
        out.push(c);
        i += 1;
    }
    proof {
        lemma_list_view(out@);
        lemma_list_view(items@);
        assert(list_view(out@) =~= list_view(items@));
    }
    Value::List(out)
}

/// Encodes an untyped mapping of values, copying its entries.
pub fn encode_value_map(entries: &Vec<(String, Value)>) -> (r: Value)
    ensures
        r@ == ValueView::Object(obj_view(entries@)),
{
    let n = entries.len();
    let mut out: Vec<(String, Value)> = Vec::new();
    let mut i: usize = 0;
    while i < n
        invariant
            n == entries@.len(),
            0 <= i <= n,
            out@.len() == i,
            forall|j: int|
                0 <= j < i ==> (#[trigger] out@[j]).0@ == entries@[j].0@ && value_view(
                    out@[j].1,
                ) == value_view(entries@[j].1),
        decreases n - i,
    {
        let k = entries[i].0.clone();
        let c = entries[i].1.deep_clone();
        out.push((k, c));
        i += 1;
    }
    proof {
        lemma_obj_view(out@);
        lemma_obj_view(entries@);
        assert(obj_view(out@) =~= obj_view(entries@));
    }
    Value::Object(out)
}

/// Encodes a list of strings.
pub fn encode_string_list(ss: &Vec<String>) -> (r: Value)
    ensures
        r@ == enc_string_list(view_vec_string(ss@)),
{
    let n = ss.len();
    let mut out: Vec<Value> = Vec::new();
    let mut i: usize = 0;
    while i < n
        invariant
            n == ss@.len(),
            0 <= i <= n,
            out@.len() == i,
            forall|j: int|
                0 <= j < i ==> value_view(#[trigger] out@[j]) == ValueView::Str(ss@[j]@),
        decreases n - i,
    {
        out.push(Value::Str(ss[i].clone()));
        i += 1;
    }
    proof {
        lemma_list_view(out@);
        assert(list_view(out@) =~= view_vec_string(ss@).map_values(
            |s: Seq<char>| ValueView::Str(s),
        ));
    }
    Value::List(out)
}

/// Encodes an ordered string-to-string mapping.
pub fn encode_string_map(m: &Vec<(String, String)>) -> (r: Value)
    ensures
        r@ == enc_string_map(view_string_map(m@)),
{
    let n = m.len();
    let mut out: Vec<(String, Value)> = Vec::new();
    let mut i: usize = 0;
    while i < n
        invariant
            n == m@.len(),
            0 <= i <= n,
            out@.len() == i,
            forall|j: int|
                0 <= j < i ==> (#[trigger] out@[j]).0@ == m@[j].0@ && value_view(out@[j].1)
                    == ValueView::Str(m@[j].1@),
        decreases n - i,
    {
        out.push((m[i].0.clone(), Value::Str(m[i].1.clone())));
        i += 1;
    }
    proof {
        lemma_obj_view(out@);
        assert(obj_view(out@) =~= view_string_map(m@).map_values(
            |p: (Seq<char>, Seq<char>)| (p.0, ValueView::Str(p.1)),
        ));
    }
    Value::Object(out)
}

} // verus!
