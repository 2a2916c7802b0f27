//! The library's own model of a JSON value. Coerced cells, column defaults
//! and assembled row objects are all values of [`JsonValue`]; rendering them
//! as JSON text is left to the caller.

use vstd::prelude::*;

verus! {

broadcast use vstd::std_specs::vec::group_vec_axioms;

/// The mathematical value of a [`JsonValue`]: what contracts speak of.
#[verifier::ext_equal]
pub enum JsonData {
    Null,
    Bool(bool),
    Int(i64),
    Num(Seq<char>),
    Str(Seq<char>),
    Arr(Seq<JsonData>),
    Obj(Seq<(Seq<char>, JsonData)>),
}

/// A JSON value. Numbers come in two shapes: `Int` carries an integer
/// exactly, `Num` carries any other number as its decimal text. `Obj` keeps
/// its keys in insertion order.
#[derive(Debug, PartialEq)]
pub enum JsonValue {
    Null,
    Bool(bool),
    Int(i64),
    Num(String),
    Str(String),
    Arr(Vec<JsonValue>),
    Obj(Vec<(String, JsonValue)>),
}

/// The model of an object's field list: each pair as (key text, value).
pub open spec fn obj_fields_view(fields: Seq<(String, JsonValue)>) -> Seq<(Seq<char>, JsonData)> {
    Seq::new(fields.len(), |i: int| (fields[i].0@, fields[i].1@))
}

/// Insertion into an object with last-write-wins semantics: a key already
/// present keeps its position and takes the new value, a fresh key is
/// appended at the end.
pub open spec fn obj_insert(
    obj: Seq<(Seq<char>, JsonData)>,
    key: Seq<char>,
    val: JsonData,
) -> Seq<(Seq<char>, JsonData)>
    decreases obj.len(),
{
    if obj.len() == 0 {
        seq![(key, val)]
    } else if obj.first().0 == key {
        seq![(key, val)] + obj.drop_first()
    } else {
        seq![obj.first()] + obj_insert(obj.drop_first(), key, val)
    }
}

/// Inserting over the first occurrence of a key updates that slot in place.
pub proof fn lemma_obj_insert_update(
    obj: Seq<(Seq<char>, JsonData)>,
    key: Seq<char>,
    val: JsonData,
    j: int,
)
    requires
        0 <= j < obj.len(),
        obj[j].0 == key,
        forall|t: int| 0 <= t < j ==> (#[trigger] obj[t]).0 != key,
    ensures
        obj_insert(obj, key, val) == obj.update(j, (key, val)),
    decreases obj.len(),
{
    if j == 0 {
        assert(obj_insert(obj, key, val) =~= obj.update(0, (key, val)));
    } else {
        assert(obj.first().0 != key);
        lemma_obj_insert_update(obj.drop_first(), key, val, j - 1);
        assert(seq![obj.first()] + obj.drop_first().update(j - 1, (key, val)) =~= obj.update(
            j,
            (key, val),
        ));
    }
}

/// Inserting a key no slot holds appends the pair at the end.
pub proof fn lemma_obj_insert_absent(
    obj: Seq<(Seq<char>, JsonData)>,
    key: Seq<char>,
    val: JsonData,
)
    requires
        forall|t: int| 0 <= t < obj.len() ==> (#[trigger] obj[t]).0 != key,
    ensures
        obj_insert(obj, key, val) == obj.push((key, val)),
    decreases obj.len(),
{
    if obj.len() == 0 {
        assert(obj_insert(obj, key, val) =~= obj.push((key, val)));
    } else {
        lemma_obj_insert_absent(obj.drop_first(), key, val);
        assert(seq![obj.first()] + obj.drop_first().push((key, val)) =~= obj.push((key, val)));
    }
}

impl View for JsonValue {
    type V = JsonData;

    open spec fn view(&self) -> JsonData
        decreases self,
    {
        match self {
            JsonValue::Null => JsonData::Null,
            JsonValue::Bool(b) => JsonData::Bool(*b),
            JsonValue::Int(i) => JsonData::Int(*i),
            JsonValue::Num(s) => JsonData::Num(s@),
            JsonValue::Str(s) => JsonData::Str(s@),
            JsonValue::Arr(items) => JsonData::Arr(
                Seq::new(
                    items@.len(),
                    |i: int|
                        if 0 <= i < items@.len() {
                            proof {
                                assert(decreases_to!(*self => *items));
                                assert(decreases_to!(*items => items@));
                                vstd::seq::axiom_seq_index_decreases(items@, i);
                            }
                            items@[i]@
                        } else {
                            JsonData::Null
                        },
                ),
            ),
            JsonValue::Obj(fields) => JsonData::Obj(
                Seq::new(
                    fields@.len(),
                    |i: int|
                        if 0 <= i < fields@.len() {
                            proof {
                                assert(decreases_to!(*self => *fields));
                                assert(decreases_to!(*fields => fields@));
                                vstd::seq::axiom_seq_index_decreases(fields@, i);
                            }
                            (fields@[i].0@, fields@[i].1@)
                        } else {
                            (Seq::empty(), JsonData::Null)
                        },
                ),
            ),
        }
    }
}

impl JsonValue {
    /// A structurally equal copy of the value.
    pub fn deep_clone(&self) -> (r: JsonValue)
        ensures
            r@ == self@,
        decreases self,
    {
        match self {
            JsonValue::Null => JsonValue::Null,
            JsonValue::Bool(b) => JsonValue::Bool(*b),
            JsonValue::Int(i) => JsonValue::Int(*i),
            JsonValue::Num(s) => JsonValue::Num(s.clone()),
            JsonValue::Str(s) => JsonValue::Str(s.clone()),
            JsonValue::Arr(items) => {
                let n = items.len();
                let mut out: Vec<JsonValue> = Vec::new();
                let mut idx: usize = 0;
                while idx < n
                    invariant
                        *self == JsonValue::Arr(*items),
                        n == items@.len(),
                        idx <= n,
                        out@.len() == idx,
                        forall|j: int| 0 <= j < idx ==> out@[j]@ == items@[j]@,
                    decreases n - idx,
                {
                    proof {
                        assert(decreases_to!(*self => (*self)->Arr_0));
                        assert(decreases_to!(*items => items@));
                        vstd::seq::axiom_seq_index_decreases(items@, idx as int);
                    }
                    out.push(items[idx].deep_clone());
                    idx = idx + 1;
                }
                proof {
                    let s1 = JsonValue::Arr(out)@->Arr_0;
                    let s2 = (*self)@->Arr_0;
                    assert forall|i: int| 0 <= i < s1.len() implies s1[i] == s2[i] by {
                        assert(s1[i] == out@[i]@);
                        assert(s2[i] == items@[i]@);
                    }
                    assert(s1 =~= s2);
                }
                JsonValue::Arr(out)
            },
            JsonValue::Obj(fields) => {
                let n = fields.len();
                let mut out: Vec<(String, JsonValue)> = Vec::new();
                let mut idx: usize = 0;
                while idx < n
                    invariant
                        *self == JsonValue::Obj(*fields),
                        n == fields@.len(),
                        idx <= n,
                        out@.len() == idx,
                        forall|j: int| 0 <= j < idx ==> out@[j].0@ == fields@[j].0@
                            && out@[j].1@ == fields@[j].1@,
                    decreases n - idx,
                {
                    proof {
                        assert(decreases_to!(*self => (*self)->Obj_0));
                        assert(decreases_to!(*fields => fields@));
                        vstd::seq::axiom_seq_index_decreases(fields@, idx as int);
                        assert(decreases_to!(fields@[idx as int] => fields@[idx as int].1));
                    }
                    let pair = &fields[idx];
                    out.push((pair.0.clone(), pair.1.deep_clone()));
                    idx = idx + 1;
                }
                proof {
                    let s1 = JsonValue::Obj(out)@->Obj_0;
                    let s2 = (*self)@->Obj_0;
                    assert forall|i: int| 0 <= i < s1.len() implies s1[i] == s2[i] by {
                        assert(s1[i] == (out@[i].0@, out@[i].1@));
                        assert(s2[i] == (fields@[i].0@, fields@[i].1@));
                    }
                    assert(s1 =~= s2);
                }
                JsonValue::Obj(out)
            },
        }
    }
}

} // verus!
