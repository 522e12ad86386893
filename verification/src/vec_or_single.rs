//! The vector-or-single normalizer: a field whose wire form may be a bare
//! value or a list is always a sequence in memory; a one-element sequence
//! collapses back to a bare value on output.

use vstd::prelude::*;

use crate::value::Value;
use crate::value::ValueView;
use crate::value::lemma_list_view;
use crate::value::list_view;

verus! {

/// A field value as written on the wire: one bare item, or a list of items.
#[derive(Debug, PartialEq)]
pub enum VecOrSingle<T> {
    Single(T),
    Many(Vec<T>),
}

impl<T> VecOrSingle<T> {
    /// Normalizes to a sequence: one bare item becomes a one-element list.
    pub fn into_vec(self) -> (r: Vec<T>)
        ensures
            match self {
                VecOrSingle::Single(x) => r@ == seq![x],
                VecOrSingle::Many(xs) => r == xs,
            },
    {
        match self {
            VecOrSingle::Single(x) => {
                let mut v: Vec<T> = Vec::new();
                v.push(x);
                v
            },
            VecOrSingle::Many(xs) => xs,
        }
    }
}

/// Reading: a list keeps its elements; any other value becomes a
/// one-element sequence.
pub open spec fn dec_vec_or_single(v: ValueView) -> Seq<ValueView> {
    match v {
        ValueView::List(items) => items,
        _ => seq![v],
    }
}

/// Writing: a one-element sequence collapses to its bare element; any other
/// sequence is written as a list.
pub open spec fn enc_vec_or_single(items: Seq<ValueView>) -> ValueView {
    if items.len() == 1 {
        items[0]
    } else {
        ValueView::List(items)
    }
}

/// Reading after writing restores the in-memory sequence, as long as a lone
/// element is not itself a list (a lone list would be read back as its own
/// elements).
pub proof fn lemma_vec_or_single_round_trip(items: Seq<ValueView>)
    requires
        items.len() == 1 ==> !(items[0] is List),
    ensures
        dec_vec_or_single(enc_vec_or_single(items)) == items,
{
    if items.len() == 1 {
        assert(seq![items[0]] =~= items);
    }
}

/// The one-way normalization: a one-element list reads as its element
/// alone, so writing it back yields the bare element, not the list.
pub proof fn lemma_vec_or_single_asymmetry(v: ValueView)
    ensures
        dec_vec_or_single(ValueView::List(seq![v])) == seq![v],
        enc_vec_or_single(dec_vec_or_single(ValueView::List(seq![v]))) == v,
{
}

/// Reads a wire value into the normalized sequence form.
pub fn deserialize(v: &Value) -> (r: Vec<Value>)
    ensures
        list_view(r@) == dec_vec_or_single(v@),
{
    match v {
        Value::List(items) => {
            let n = items.len();
            let mut out: Vec<Value> = Vec::new();
            let mut i: usize = 0;
            while i < n
                invariant
                    n == items@.len(),
                    0 <= i <= n,
                    out@.len() == i,
                    forall|j: int|
                        0 <= j < i ==> crate::value::value_view(#[trigger] out@[j])
                            == crate::value::value_view(items@[j]),
                decreases n - i,
            {
                let c = items[i].deep_clone();
                out.push(c);
                i += 1;
            }
            proof {
                lemma_list_view(out@);
                lemma_list_view(items@);
                assert(list_view(out@) =~= list_view(items@));
            }
            out
        },
        _ => {
            let mut out: Vec<Value> = Vec::new();
            out.push(v.deep_clone());
            proof {
                lemma_list_view(out@);
                assert(list_view(out@) =~= seq![v@]);
            }
            out
        },
    }
}

/// Writes the normalized sequence back to its wire form.
pub fn serialize(items: &Vec<Value>) -> (r: Value)
    ensures
        r@ == enc_vec_or_single(list_view(items@)),
{
    proof {
        lemma_list_view(items@);
    }
    if items.len() == 1 {
        items[0].deep_clone()
    } else {
        let n = items.len();
        let mut out: Vec<Value> = Vec::new();
        let mut i: usize = 0;
        while i < n
            invariant
                n == items@.len(),
                0 <= i <= n,
                out@.len() == i,
                forall|j: int|
                    0 <= j < i ==> crate::value::value_view(#[trigger] out@[j])
                        == crate::value::value_view(items@[j]),
            decreases n - i,
        {
            let c = items[i].deep_clone();
            out.push(c);
            i += 1;
        }
        proof {
            lemma_list_view(out@);
            lemma_list_view(items@);
            assert(list_view(out@) =~= list_view(items@));
        }
        Value::List(out)
    }
}

} // verus!
