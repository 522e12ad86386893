//! Structural document values: the JSON-equivalent data model that every
//! entity of the library decodes from and encodes to.

use vstd::prelude::*;

verus! {

/// A structural document value: null, boolean, integer, string, sequence, or
/// string-keyed mapping (with insertion order preserved).
#[derive(Debug, PartialEq)]
pub enum Value {
    Null,
    Bool(bool),
    Int(i64),
    Str(String),
    List(Vec<Value>),
    Object(Vec<(String, Value)>),
}

/// The mathematical model of a [`Value`].
#[verifier::ext_equal]
pub enum ValueView {
    Null,
    Bool(bool),
    Int(int),
    Str(Seq<char>),
    List(Seq<ValueView>),
    Object(Seq<(Seq<char>, ValueView)>),
}

/// Model of a list of values, element by element.
pub open spec fn list_view(items: Seq<Value>) -> Seq<ValueView>
    decreases items,
{
    if items.len() == 0 {
        Seq::empty()
    } else {
        seq![value_view(items[0])] + list_view(items.subrange(1, items.len() as int))
    }
}

/// Model of a list of object entries, entry by entry.
pub open spec fn obj_view(entries: Seq<(String, Value)>) -> Seq<(Seq<char>, ValueView)>
    decreases entries,
{
    if entries.len() == 0 {
        Seq::empty()
    } else {
        seq![(entries[0].0@, value_view(entries[0].1))] + obj_view(
            entries.subrange(1, entries.len() as int),
        )
    }
}

/// Model of a single value.
pub open spec fn value_view(v: Value) -> ValueView
    decreases v,
{
    match v {
        Value::Null => ValueView::Null,
        Value::Bool(b) => ValueView::Bool(b),
        Value::Int(i) => ValueView::Int(i as int),
        Value::Str(s) => ValueView::Str(s@),
        Value::List(items) => ValueView::List(list_view(items@)),
        Value::Object(entries) => ValueView::Object(obj_view(entries@)),
    }
}

impl View for Value {
    type V = ValueView;

    open spec fn view(&self) -> ValueView {
        value_view(*self)
    }
}

/// `list_view` maps the sequence pointwise.
pub broadcast proof fn lemma_list_view(items: Seq<Value>)
    ensures
        (#[trigger] list_view(items)).len() == items.len(),
        forall|i: int|
            0 <= i < items.len() ==> list_view(items)[i] == value_view(items[i]),
    decreases items,
{
    if items.len() > 0 {
        lemma_list_view(items.subrange(1, items.len() as int));
    }
}

/// `obj_view` maps the entry sequence pointwise.
pub broadcast proof fn lemma_obj_view(entries: Seq<(String, Value)>)
    ensures
        (#[trigger] obj_view(entries)).len() == entries.len(),
        forall|i: int|
            0 <= i < entries.len() ==> obj_view(entries)[i] == (
            entries[i].0@,
            value_view(entries[i].1),
            ),
    decreases entries,
{
    if entries.len() > 0 {
        lemma_obj_view(entries.subrange(1, entries.len() as int));
    }
}

/// The value under the first occurrence of `key` in an object's entry list,
/// if any.
pub open spec fn lookup(entries: Seq<(Seq<char>, ValueView)>, key: Seq<char>) -> Option<ValueView>
    decreases entries.len(),
{
    if entries.len() == 0 {
        None
    } else if entries[0].0 == key {
        Some(entries[0].1)
    } else {
        lookup(entries.subrange(1, entries.len() as int), key)
    }
}

/// The entries whose keys are outside the `known` set, in order: the
/// specification extensions of an object.
pub open spec fn ext_of(
    entries: Seq<(Seq<char>, ValueView)>,
    known: Seq<Seq<char>>,
) -> Seq<(Seq<char>, ValueView)>
    decreases entries.len(),
{
    if entries.len() == 0 {
        Seq::empty()
    } else {
        let rest = ext_of(entries.subrange(1, entries.len() as int), known);
        if known.contains(entries[0].0) {
            rest
        } else {
            seq![entries[0]] + rest
        }
    }
}

/// If no key among the first `i` entries matches, the lookup is decided by
/// the remaining entries.
pub proof fn lemma_lookup_skip(entries: Seq<(Seq<char>, ValueView)>, key: Seq<char>, i: int)
    requires
        0 <= i <= entries.len(),
        forall|j: int| 0 <= j < i ==> entries[j].0 != key,
    ensures
        lookup(entries, key) == lookup(entries.subrange(i, entries.len() as int), key),
    decreases i,
{
    if i > 0 {
        let rest = entries.subrange(1, entries.len() as int);
        assert(entries[0].0 != key);
        assert(forall|j: int| 0 <= j < i - 1 ==> #[trigger] rest[j].0 != key) by {
            assert(forall|j: int| 0 <= j < i - 1 ==> rest[j] == entries[j + 1]);
        }
        lemma_lookup_skip(rest, key, i - 1);
        assert(lookup(entries, key) == lookup(rest, key));
        assert(rest.subrange(i - 1, rest.len() as int) =~= entries.subrange(
            i,
            entries.len() as int,
        ));
        assert(lookup(rest, key) == lookup(entries.subrange(i, entries.len() as int), key));
    } else {
        assert(entries.subrange(0, entries.len() as int) =~= entries);
    }
}

/// A found value is one of the entry values.
pub proof fn lemma_lookup_element(entries: Seq<(Seq<char>, ValueView)>, key: Seq<char>)
    ensures
        lookup(entries, key) matches Some(x) ==> exists|i: int|
            0 <= i < entries.len() && x == (#[trigger] entries[i]).1,
    decreases entries.len(),
{
    if entries.len() > 0 {
        let rest = entries.subrange(1, entries.len() as int);
        lemma_lookup_element(rest, key);
        if entries[0].0 != key {
            match lookup(entries, key) {
                Some(x) => {
                    let i = choose|i: int| 0 <= i < rest.len() && x == (#[trigger] rest[i]).1;
                    assert(entries[i + 1].1 == x);
                },
                None => {},
            }
        }
    }
}

/// A value looked up in an object model is structurally smaller than the
/// object: decoding may recurse into it.
pub proof fn lemma_lookup_decreases(v: ValueView, key: Seq<char>)
    requires
        v is Object,
        lookup(v->Object_0, key) is Some,
    ensures
        decreases_to!(v => lookup(v->Object_0, key)->Some_0),
{
    let entries = v->Object_0;
    lemma_lookup_element(entries, key);
    let c = lookup(entries, key)->Some_0;
    let i = choose|i: int| 0 <= i < entries.len() && c == (#[trigger] entries[i]).1;
    assert(decreases_to!(v => v->Object_0));
    assert(decreases_to!(v->Object_0 => v->Object_0[i]));
    assert(decreases_to!(v->Object_0[i] => v->Object_0[i].1));
}

/// An entry value of an object is structurally smaller than the object:
/// decoding may recurse into it.
pub proof fn lemma_entry_decreases(v: Value, x: Value)
    requires
        v is Object,
        exists|i: int| 0 <= i < v->Object_0@.len() && x == (#[trigger] v->Object_0@[i]).1,
    ensures
        decreases_to!(v => x),
{
    let i = choose|i: int| 0 <= i < v->Object_0@.len() && x == (#[trigger] v->Object_0@[i]).1;
    assert(decreases_to!(v => v->Object_0));
    assert(decreases_to!(v->Object_0 => v->Object_0@[i]));
    assert(decreases_to!(v->Object_0@[i] => v->Object_0@[i].1));
}

/// A key that no entry carries is not found.
pub proof fn lemma_lookup_absent(entries: Seq<(Seq<char>, ValueView)>, key: Seq<char>)
    ensures
        (forall|j: int| 0 <= j < entries.len() ==> entries[j].0 != key) ==> lookup(entries, key)
            is None,
    decreases entries.len(),
{
    if entries.len() > 0 {
        lemma_lookup_absent(entries.subrange(1, entries.len() as int), key)
    }
}

/// String comparison, specified over the character sequences.
pub fn str_equal(a: &String, b: &str) -> (r: bool)
    ensures
        r == (a@ == b@),
{
    let bs: String = b.to_owned();
    *a == bs
}

/// The borrowed value under the first occurrence of `key` in an object's
/// entry list, if any.
pub fn find_field<'a>(entries: &'a Vec<(String, Value)>, key: &str) -> (r: Option<&'a Value>)
    ensures
        match r {
            Some(x) => {
                &&& exists|i: int| 0 <= i < entries@.len() && *x == #[trigger] entries@[i].1
                &&& lookup(obj_view(entries@), key@) == Some(value_view(*x))
            },
            None => lookup(obj_view(entries@), key@) is None,
        },
{
    proof {
        lemma_obj_view(entries@);
    }
    let n = entries.len();
    let mut i: usize = 0;
    while i < n
        invariant
            n == entries@.len(),
            0 <= i <= n,
            forall|j: int| 0 <= j < i ==> #[trigger] entries@[j].0@ != key@,
        decreases n - i,
    {
        if str_equal(&entries[i].0, key) {
            proof {
                lemma_obj_view(entries@);
                let m = obj_view(entries@);
                lemma_lookup_skip(m, key@, i as int);
                assert(m.subrange(i as int, m.len() as int)[0] == m[i as int]);
            }
            return Some(&entries[i].1);
        }
        i += 1;
    }
    proof {
        lemma_obj_view(entries@);
        lemma_lookup_absent(obj_view(entries@), key@);
    }
    None
}

impl Value {
    /// A structurally identical copy.
    pub fn deep_clone(&self) -> (r: Value)
        ensures
            r@ == self@,
        decreases *self,
    {
        match self {
            Value::Null => Value::Null,
            Value::Bool(b) => Value::Bool(*b),
            Value::Int(i) => Value::Int(*i),
            Value::Str(s) => Value::Str(s.clone()),
            Value::List(items) => {
                let n = items.len();
                let mut out: Vec<Value> = Vec::new();
                let mut i: usize = 0;
                while i < n
                    invariant
                        n == items@.len(),
                        0 <= i <= n,
                        out@.len() == i,
                        forall|j: int|
                            0 <= j < i ==> value_view(#[trigger] out@[j]) == value_view(
                                items@[j],
                            ),
                        *self == Value::List(*items),
                    decreases n - i,
                {
                    proof {
                        assert(decreases_to!(*self => self->List_0));
                        assert(decreases_to!(self->List_0 => self->List_0[i as int]));
                        assert(decreases_to!(*self => items@[i as int]));
                    }
                    let c = items[i].deep_clone();
                    out.push(c);
                    i += 1;
                }
                proof {
                    lemma_list_view(out@);
                    lemma_list_view(items@);
                    assert(list_view(out@) =~= list_view(items@));
                }
                Value::List(out)
            },
            Value::Object(entries) => {
                let n = entries.len();
                let mut out: Vec<(String, Value)> = Vec::new();
                let mut i: usize = 0;
                while i < n
                    invariant
                        n == entries@.len(),
                        0 <= i <= n,
                        out@.len() == i,
                        forall|j: int|
                            0 <= j < i ==> (#[trigger] out@[j]).0@ == entries@[j].0@
                                && value_view(out@[j].1) == value_view(entries@[j].1),
                        *self == Value::Object(*entries),
                    decreases n - i,
                {
                    proof {
                        assert(decreases_to!(*self => self->Object_0));
                        assert(decreases_to!(self->Object_0 => self->Object_0[i as int]));
                        assert(decreases_to!(*self => entries@[i as int].1));
                    }
                    let k = entries[i].0.clone();
                    let c = entries[i].1.deep_clone();
                    out.push((k, c));
                    i += 1;
                }
                proof {
                    lemma_obj_view(out@);
                    lemma_obj_view(entries@);
                    assert(obj_view(out@) =~= obj_view(entries@));
                }
                Value::Object(out)
            },
        }
    }

    /// Structural equality of two values, decided over their models.
    pub fn deep_eq(&self, other: &Value) -> (r: bool)
        ensures
            r == (self@ == other@),
        decreases *self,
    {
        match (self, other) {
            (Value::Null, Value::Null) => true,
            (Value::Bool(a), Value::Bool(b)) => *a == *b,
            (Value::Int(a), Value::Int(b)) => *a == *b,
            (Value::Str(a), Value::Str(b)) => str_equal(a, b.as_str()),
            (Value::List(xs), Value::List(ys)) => {
                proof {
                    lemma_list_view(xs@);
                    lemma_list_view(ys@);
                }
                let n = xs.len();
                if n != ys.len() {
                    return false;
                }
                let mut i: usize = 0;
                while i < n
                    invariant
                        n == xs@.len() == ys@.len(),
                        0 <= i <= n,
                        forall|j: int|
                            0 <= j < i ==> value_view(#[trigger] xs@[j]) == value_view(ys@[j]),
                        *self == Value::List(*xs),
                        *other == Value::List(*ys),
                    decreases n - i,
                {
                    proof {
                        assert(decreases_to!(*self => self->List_0));
                        assert(decreases_to!(self->List_0 => self->List_0[i as int]));
                        assert(decreases_to!(*self => xs@[i as int]));
                    }
                    if !xs[i].deep_eq(&ys[i]) {
                        proof {
                            lemma_list_view(xs@);
                            lemma_list_view(ys@);
                            assert(list_view(xs@)[i as int] != list_view(ys@)[i as int]);
                        }
                        return false;
                    }
                    i += 1;
                }
                proof {
                    lemma_list_view(xs@);
                    lemma_list_view(ys@);
                    assert(list_view(xs@) =~= list_view(ys@));
                }
                true
            },
            (Value::Object(xs), Value::Object(ys)) => {
                proof {
                    lemma_obj_view(xs@);
                    lemma_obj_view(ys@);
                }
                let n = xs.len();
                if n != ys.len() {
                    return false;
                }
                let mut i: usize = 0;
                while i < n
                    invariant
                        n == xs@.len() == ys@.len(),
                        0 <= i <= n,
                        forall|j: int|
                            0 <= j < i ==> (#[trigger] xs@[j]).0@ == ys@[j].0@ && value_view(
                                xs@[j].1,
                            ) == value_view(ys@[j].1),
                        *self == Value::Object(*xs),
                        *other == Value::Object(*ys),
                    decreases n - i,
                {
                    proof {
                        assert(decreases_to!(*self => self->Object_0));
                        assert(decreases_to!(self->Object_0 => self->Object_0[i as int]));
                        assert(decreases_to!(*self => xs@[i as int].1));
                    }
                    if !str_equal(&xs[i].0, ys[i].0.as_str()) {
                        proof {
                            lemma_obj_view(xs@);
                            lemma_obj_view(ys@);
                            assert(obj_view(xs@)[i as int] != obj_view(ys@)[i as int]);
                        }
                        return false;
                    }
                    if !xs[i].1.deep_eq(&ys[i].1) {
                        proof {
                            lemma_obj_view(xs@);
                            lemma_obj_view(ys@);
                            assert(obj_view(xs@)[i as int] != obj_view(ys@)[i as int]);
                        }
                        return false;
                    }
                    i += 1;
                }
                proof {
                    lemma_obj_view(xs@);
                    lemma_obj_view(ys@);
                    assert(obj_view(xs@) =~= obj_view(ys@));
                }
                true
            },
            _ => {
                proof {
                    assert(self@ != other@);
                }
                false
            },
        }
    }
}

/// `ext_of` distributes over concatenation.
pub proof fn lemma_ext_of_append(
    a: Seq<(Seq<char>, ValueView)>,
    b: Seq<(Seq<char>, ValueView)>,
    known: Seq<Seq<char>>,
)
    ensures
        ext_of(a + b, known) == ext_of(a, known) + ext_of(b, known),
    decreases a.len(),
{
    if a.len() == 0 {
        assert(a + b =~= b);
        assert(ext_of(a, known) + ext_of(b, known) =~= ext_of(b, known));
    } else {
        let ar = a.subrange(1, a.len() as int);
        assert((a + b).subrange(1, (a + b).len() as int) =~= ar + b);
        lemma_ext_of_append(ar, b, known);
        assert((a + b)[0] == a[0]);
        if !known.contains(a[0].0) {
            assert(seq![a[0]] + (ext_of(ar, known) + ext_of(b, known)) =~= (seq![a[0]] + ext_of(
                ar,
                known,
            )) + ext_of(b, known));
        }
    }
}

/// Entries whose keys are all known leave no extensions.
pub proof fn lemma_ext_of_all_known(entries: Seq<(Seq<char>, ValueView)>, known: Seq<Seq<char>>)
    requires
        forall|j: int| 0 <= j < entries.len() ==> known.contains(#[trigger] entries[j].0),
    ensures
        ext_of(entries, known) == Seq::<(Seq<char>, ValueView)>::empty(),
    decreases entries.len(),
{
    if entries.len() > 0 {
        let rest = entries.subrange(1, entries.len() as int);
        assert(forall|j: int| 0 <= j < rest.len() ==> known.contains(#[trigger] rest[j].0)) by {
            assert(forall|j: int| 0 <= j < rest.len() ==> rest[j] == entries[j + 1]);
        }
        lemma_ext_of_all_known(rest, known);
    }
}

/// Entries whose keys are all unknown pass through unchanged.
pub proof fn lemma_ext_of_none_known(entries: Seq<(Seq<char>, ValueView)>, known: Seq<Seq<char>>)
    requires
        forall|j: int| 0 <= j < entries.len() ==> !known.contains(#[trigger] entries[j].0),
    ensures
        ext_of(entries, known) == entries,
    decreases entries.len(),
{
    if entries.len() > 0 {
        let rest = entries.subrange(1, entries.len() as int);
        assert(forall|j: int| 0 <= j < rest.len() ==> !known.contains(#[trigger] rest[j].0)) by {
            assert(forall|j: int| 0 <= j < rest.len() ==> rest[j] == entries[j + 1]);
        }
        lemma_ext_of_none_known(rest, known);
        assert(seq![entries[0]] + rest =~= entries);
    }
}

/// Every collected extension entry has an unknown key.
pub proof fn lemma_ext_of_keys(entries: Seq<(Seq<char>, ValueView)>, known: Seq<Seq<char>>)
    ensures
        forall|j: int|
            0 <= j < ext_of(entries, known).len() ==> !known.contains(
                #[trigger] ext_of(entries, known)[j].0,
            ),
    decreases entries.len(),
{
    if entries.len() > 0 {
        let rest = entries.subrange(1, entries.len() as int);
        lemma_ext_of_keys(rest, known);
        if !known.contains(entries[0].0) {
            assert(forall|j: int|
                1 <= j < ext_of(entries, known).len() ==> #[trigger] ext_of(entries, known)[j]
                    == ext_of(rest, known)[j - 1]);
            assert(ext_of(entries, known)[0] == entries[0]);
        } else {
            assert(forall|j: int|
                0 <= j < ext_of(entries, known).len() ==> #[trigger] ext_of(entries, known)[j]
                    == ext_of(rest, known)[j]);
        }
    }
}

/// A declared field list: each key paired with the encoded field value, or
/// `None` where the field is omitted from the output object.
pub open spec fn present_fields(
    fields: Seq<(Seq<char>, Option<ValueView>)>,
) -> Seq<(Seq<char>, ValueView)>
    decreases fields.len(),
{
    if fields.len() == 0 {
        Seq::empty()
    } else {
        let rest = present_fields(fields.subrange(1, fields.len() as int));
        match fields[0].1 {
            Some(v) => seq![(fields[0].0, v)] + rest,
            None => rest,
        }
    }
}

/// Whether some declared field carries this key.
pub open spec fn has_field_key(fields: Seq<(Seq<char>, Option<ValueView>)>, key: Seq<char>) -> bool {
    exists|p: int| 0 <= p < fields.len() && fields[p].0 == key
}

/// No two declared fields share a key.
pub open spec fn distinct_keys(fields: Seq<(Seq<char>, Option<ValueView>)>) -> bool {
    forall|p: int, q: int| 0 <= p < q < fields.len() ==> fields[p].0 != fields[q].0
}

/// Every emitted field entry carries a declared key.
pub proof fn lemma_present_fields_keys(fields: Seq<(Seq<char>, Option<ValueView>)>)
    ensures
        forall|j: int|
            0 <= j < present_fields(fields).len() ==> has_field_key(
                fields,
                #[trigger] present_fields(fields)[j].0,
            ),
    decreases fields.len(),
{
    if fields.len() > 0 {
        let rest = fields.subrange(1, fields.len() as int);
        lemma_present_fields_keys(rest);
        assert(forall|j: int|
            0 <= j < present_fields(rest).len() && has_field_key(
                rest,
                #[trigger] present_fields(rest)[j].0,
            ) ==> has_field_key(fields, present_fields(rest)[j].0)) by {
            assert(forall|p: int| 0 <= p < rest.len() ==> rest[p] == fields[p + 1]);
        }
    }
}

/// Looking an emitted object up by a declared key returns exactly that
/// field's encoded value (or nothing where the field was omitted), whatever
/// extensions follow, as long as keys are unambiguous.
pub proof fn lemma_lookup_encoded(
    fields: Seq<(Seq<char>, Option<ValueView>)>,
    ext: Seq<(Seq<char>, ValueView)>,
    i: int,
)
    requires
        0 <= i < fields.len(),
        distinct_keys(fields),
        forall|j: int| 0 <= j < ext.len() ==> !has_field_key(fields, #[trigger] ext[j].0),
    ensures
        lookup(present_fields(fields) + ext, fields[i].0) == fields[i].1,
    decreases fields.len(),
{
    let whole = present_fields(fields) + ext;
    let rest = fields.subrange(1, fields.len() as int);
    assert(forall|p: int| 0 <= p < rest.len() ==> rest[p] == fields[p + 1]);
    if i == 0 {
        match fields[0].1 {
            Some(v) => {
                assert(whole[0] == (fields[0].0, v));
            },
            None => {
                assert(present_fields(fields) == present_fields(rest));
                lemma_present_fields_keys(rest);
                assert(forall|j: int| 0 <= j < whole.len() ==> whole[j].0 != fields[0].0) by {
                    assert(forall|j: int|
                        0 <= j < present_fields(rest).len() ==> whole[j] == present_fields(
                            rest,
                        )[j]);
                    assert(forall|j: int|
                        present_fields(rest).len() <= j < whole.len() ==> whole[j] == ext[j
                            - present_fields(rest).len()]);
                    assert(forall|k: Seq<char>|
                        has_field_key(rest, k) ==> #[trigger] has_field_key(fields, k) && k
                            != fields[0].0);
                }
                lemma_lookup_absent(whole, fields[0].0);
            },
        }
    } else {
        assert(forall|j: int|
            0 <= j < ext.len() ==> !has_field_key(rest, #[trigger] ext[j].0)) by {
            assert(forall|k: Seq<char>|
                has_field_key(rest, k) ==> #[trigger] has_field_key(fields, k));
        }
        lemma_lookup_encoded(rest, ext, i - 1);
        match fields[0].1 {
            Some(v) => {
                let tail = present_fields(rest) + ext;
                assert(whole.subrange(1, whole.len() as int) =~= tail);
                assert(whole[0].0 == fields[0].0);
                assert(fields[i].0 != fields[0].0);
            },
            None => {
                assert(present_fields(fields) == present_fields(rest));
            },
        }
    }
}

/// The extensions of an emitted object are exactly the appended extension
/// entries, as long as the declared keys are the known set and no extension
/// key is declared.
pub proof fn lemma_ext_encoded(
    fields: Seq<(Seq<char>, Option<ValueView>)>,
    ext: Seq<(Seq<char>, ValueView)>,
    known: Seq<Seq<char>>,
)
    requires
        forall|k: Seq<char>| has_field_key(fields, k) ==> #[trigger] known.contains(k),
        forall|j: int| 0 <= j < ext.len() ==> !known.contains(#[trigger] ext[j].0),
    ensures
        ext_of(present_fields(fields) + ext, known) == ext,
{
    lemma_ext_of_append(present_fields(fields), ext, known);
    lemma_present_fields_keys(fields);
    lemma_ext_of_all_known(present_fields(fields), known);
    lemma_ext_of_none_known(ext, known);
    assert(Seq::<(Seq<char>, ValueView)>::empty() + ext =~= ext);
}

/// Emitting one more declared field appends its entry where it is present
/// and changes nothing where it is omitted.
pub proof fn lemma_present_fields_snoc(
    fields: Seq<(Seq<char>, Option<ValueView>)>,
    f: (Seq<char>, Option<ValueView>),
)
    ensures
        present_fields(fields.push(f)) == (match f.1 {
            Some(v) => present_fields(fields).push((f.0, v)),
            None => present_fields(fields),
        }),
    decreases fields.len(),
{
    let whole = fields.push(f);
    if fields.len() == 0 {
        assert(whole[0] == f);
        assert(whole.subrange(1, whole.len() as int) =~= Seq::<
            (Seq<char>, Option<ValueView>),
        >::empty());
        assert(present_fields(Seq::<(Seq<char>, Option<ValueView>)>::empty()) =~= Seq::<
            (Seq<char>, ValueView),
        >::empty());
        match f.1 {
            Some(v) => {
                assert(seq![(f.0, v)] + Seq::<(Seq<char>, ValueView)>::empty() =~= Seq::<
                    (Seq<char>, ValueView),
                >::empty().push((f.0, v)));
            },
            None => {},
        }
    } else {
        let rest = fields.subrange(1, fields.len() as int);
        assert(whole.subrange(1, whole.len() as int) =~= rest.push(f));
        lemma_present_fields_snoc(rest, f);
        assert(whole[0] == fields[0]);
        match fields[0].1 {
            Some(v0) => {
                match f.1 {
                    Some(v) => {
                        assert(seq![(fields[0].0, v0)] + present_fields(rest).push((f.0, v))
                            =~= (seq![(fields[0].0, v0)] + present_fields(rest)).push((f.0, v)));
                    },
                    None => {},
                }
            },
            None => {},
        }
    }
}

/// A field list with every field omitted emits nothing.
pub proof fn lemma_present_fields_all_none(fields: Seq<(Seq<char>, Option<ValueView>)>)
    requires
        forall|i: int| 0 <= i < fields.len() ==> (#[trigger] fields[i]).1 is None,
    ensures
        present_fields(fields) == Seq::<(Seq<char>, ValueView)>::empty(),
    decreases fields.len(),
{
    if fields.len() > 0 {
        let rest = fields.subrange(1, fields.len() as int);
        assert(forall|i: int| 0 <= i < rest.len() ==> (#[trigger] rest[i]).1 is None) by {
            assert(forall|i: int| 0 <= i < rest.len() ==> rest[i] == fields[i + 1]);
        }
        lemma_present_fields_all_none(rest);
    }
}

/// Appends copies of the given entries to the output object.
pub fn push_entries(out: &mut Vec<(String, Value)>, ext: &Vec<(String, Value)>)
    ensures
        obj_view(final(out)@) == obj_view(old(out)@) + obj_view(ext@),
{
    let n = ext.len();
    let mut i: usize = 0;
    proof {
        lemma_obj_view(ext@);
    }
    while i < n
        invariant
            n == ext@.len(),
            0 <= i <= n,
            out@.len() == old(out)@.len() + i,
            forall|j: int| 0 <= j < old(out)@.len() ==> out@[j] == old(out)@[j],
            forall|k: int|
                old(out)@.len() <= k < out@.len() ==> (#[trigger] out@[k]).0@ == ext@[k - old(
                    out,
                )@.len()].0@ && value_view(out@[k].1) == value_view(ext@[k - old(out)@.len()].1),
        decreases n - i,
    {
        let k = ext[i].0.clone();
        let v = ext[i].1.deep_clone();
        out.push((k, v));
        i += 1;
    }
    proof {
        lemma_obj_view(out@);
        lemma_obj_view(old(out)@);
        lemma_obj_view(ext@);
        assert(obj_view(out@) =~= obj_view(old(out)@) + obj_view(ext@));
    }
}

/// Pushes one declared field entry onto the output object.
pub fn push_present(out: &mut Vec<(String, Value)>, key: &str, v: Value)
    ensures
        obj_view(final(out)@) == obj_view(old(out)@).push((key@, value_view(v))),
{
    let ghost prev = out@;
    out.push((key.to_owned(), v));
    proof {
        lemma_obj_view(out@);
        lemma_obj_view(prev);
        assert(obj_view(out@) =~= obj_view(prev).push((key@, value_view(v))));
    }
}

/// The models of a list of declared wire keys.
pub open spec fn key_views(known: Seq<&str>) -> Seq<Seq<char>> {
    known.map_values(|k: &str| k@)
}

/// Whether `key` is one of the declared wire keys.
pub fn key_known(key: &String, known: &[&str]) -> (r: bool)
    ensures
        r == key_views(known@).contains(key@),
{
    let n = known.len();
    let mut i: usize = 0;
    while i < n
        invariant
            n == known@.len(),
            0 <= i <= n,
            forall|j: int| 0 <= j < i ==> #[trigger] known@[j]@ != key@,
        decreases n - i,
    {
        if str_equal(key, known[i]) {
            proof {
                assert(key_views(known@)[i as int] == key@);
            }
            return true;
        }
        i += 1;
    }
    proof {
        assert(forall|j: int| 0 <= j < n ==> #[trigger] key_views(known@)[j] != key@);
    }
    false
}

/// The entries of an object whose keys are not declared, copied in order:
/// the specification extensions.
pub fn collect_extensions(entries: &Vec<(String, Value)>, known: &[&str]) -> (r: Vec<
    (String, Value),
>)
    ensures
        obj_view(r@) == ext_of(obj_view(entries@), key_views(known@)),
{
    let ks = Ghost(key_views(known@));
    let n = entries.len();
    let mut out: Vec<(String, Value)> = Vec::new();
    let mut i: usize = 0;
    proof {
        assert(entries@.subrange(0, 0) =~= Seq::<(String, Value)>::empty());
    }
    while i < n
        invariant
            n == entries@.len(),
            0 <= i <= n,
            ks@ == key_views(known@),
            obj_view(out@) == ext_of(obj_view(entries@.subrange(0, i as int)), ks@),
        decreases n - i,
    {
        let ghost pre = entries@.subrange(0, i as int);
        let ghost post = entries@.subrange(0, i as int + 1);
        proof {
            lemma_obj_view(pre);
            lemma_obj_view(post);
            assert(post =~= pre.push(entries@[i as int]));
            assert(obj_view(post) =~= obj_view(pre).push(
                (entries@[i as int].0@, value_view(entries@[i as int].1)),
            )) by {
                assert(forall|j: int| 0 <= j < pre.len() ==> post[j] == pre[j]);
            }
            lemma_ext_of_append(
                obj_view(pre),
                seq![(entries@[i as int].0@, value_view(entries@[i as int].1))],
                ks@,
            );
            assert(obj_view(pre) + seq![
                (entries@[i as int].0@, value_view(entries@[i as int].1)),
            ] =~= obj_view(post));
        }
        if !key_known(&entries[i].0, known) {
            let ghost prev = out@;
            let ghost em = (entries@[i as int].0@, value_view(entries@[i as int].1));
            let k = entries[i].0.clone();
            let v = entries[i].1.deep_clone();
            out.push((k, v));
            proof {
                assert(out@ == prev.push((k, v)));
                lemma_obj_view(out@);
                lemma_obj_view(prev);
                assert(obj_view(out@) =~= obj_view(prev).push(em));
                assert(seq![em] + Seq::<(Seq<char>, ValueView)>::empty() =~= seq![em]);
                assert(ext_of(seq![em], ks@) == seq![em]) by {
                    assert(seq![em].subrange(1, 1) =~= Seq::<(Seq<char>, ValueView)>::empty());
                    assert(ext_of(Seq::<(Seq<char>, ValueView)>::empty(), ks@) =~= Seq::<
                        (Seq<char>, ValueView),
                    >::empty());
                    assert(!ks@.contains(em.0));
                }
                assert(obj_view(prev).push(em) =~= obj_view(prev) + seq![em]);
            }
        } else {
            proof {
                let ghost em = (entries@[i as int].0@, value_view(entries@[i as int].1));
                assert(ext_of(seq![em], ks@) =~= Seq::<(Seq<char>, ValueView)>::empty()) by {
                    assert(seq![em].subrange(1, 1) =~= Seq::<(Seq<char>, ValueView)>::empty());
                    assert(ext_of(Seq::<(Seq<char>, ValueView)>::empty(), ks@) =~= Seq::<
                        (Seq<char>, ValueView),
                    >::empty());
                    assert(ks@.contains(em.0));
                }
                assert(ext_of(obj_view(pre), ks@) + Seq::<(Seq<char>, ValueView)>::empty()
                    =~= ext_of(obj_view(pre), ks@));
            }
        }
        i += 1;
    }
    proof {
        assert(entries@.subrange(0, n as int) =~= entries@);
    }
    out
}

/// How a structural decode can fail.
///
/// `StructuralMismatch`: a value does not match any accepted shape for its
/// declared type. `RequiredFieldMissing`: a required field is absent from a
/// source object. `UnsupportedEncoding`: reserved for transport-level decode
/// failures below the structural layer; the structural decoders in this crate
/// never produce it themselves.
#[derive(Debug, Clone, Copy, PartialEq, Eq, Structural)]
pub enum DecodeError {
    StructuralMismatch,
    RequiredFieldMissing,
    UnsupportedEncoding,
}

} // verus!
