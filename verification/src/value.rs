//! The canonical value model: a JSON-like tree of plain data.
//!
//! Every argument map, tool result and encoded frame in the crate is built
//! from `Value`. Objects are association lists in insertion order; a lookup
//! takes the first binding of a key. `VValue` is the mathematical model of
//! a `Value`: contracts throughout the crate speak of it.

use vstd::prelude::*;
use vstd::string::StringExecFns;

verus! {

/// A transport-independent data value.
#[derive(Debug, PartialEq, Eq)]
pub enum Value {
    Null,
    Bool(bool),
    Int(i64),
    Str(String),
    Arr(Vec<Value>),
    Obj(Vec<(String, Value)>),
}

/// The mathematical model of a `Value`: strings are character sequences,
/// containers are sequences.
#[verifier::ext_equal]
pub enum VValue {
    Null,
    Bool(bool),
    Int(int),
    Str(Seq<char>),
    Arr(Seq<VValue>),
    Obj(Seq<(Seq<char>, VValue)>),
}

impl Value {
    /// The model of this value.
    pub open spec fn view(self) -> VValue
        decreases self,
    {
        match self {
            Value::Null => VValue::Null,
            Value::Bool(b) => VValue::Bool(b),
            Value::Int(i) => VValue::Int(i as int),
            Value::Str(s) => VValue::Str(s@),
            Value::Arr(a) => VValue::Arr(
                Seq::new(
                    a@.len(),
                    |i: int|
                        if 0 <= i < a@.len() {
                            a[i].view()
                        } else {
                            VValue::Null
                        },
                ),
            ),
            Value::Obj(o) => VValue::Obj(
                Seq::new(
                    o@.len(),
                    |i: int|
                        if 0 <= i < o@.len() {
                            (o[i].0@, o[i].1.view())
                        } else {
                            (Seq::empty(), VValue::Null)
                        },
                ),
            ),
        }
    }
}

/// The runtime type of a value, as schemas declare it.
#[derive(Debug, Clone, Copy, PartialEq, Eq, Structural)]
pub enum FieldType {
    Str,
    Num,
    Bool,
    Arr,
    Obj,
}

/// Whether `v` has the declared type `t`. `Null` has no declared type.
pub open spec fn spec_has_type(v: VValue, t: FieldType) -> bool {
    match v {
        VValue::Null => false,
        VValue::Bool(_) => t == FieldType::Bool,
        VValue::Int(_) => t == FieldType::Num,
        VValue::Str(_) => t == FieldType::Str,
        VValue::Arr(_) => t == FieldType::Arr,
        VValue::Obj(_) => t == FieldType::Obj,
    }
}

/// First binding of `key` among the model pairs, if any.
pub open spec fn spec_obj_get(pairs: Seq<(Seq<char>, VValue)>, key: Seq<char>) -> Option<VValue>
    decreases pairs.len(),
{
    if pairs.len() == 0 {
        None
    } else if pairs[0].0 == key {
        Some(pairs[0].1)
    } else {
        spec_obj_get(pairs.drop_first(), key)
    }
}

impl Value {
    /// The runtime type check used by the validator.
    pub fn has_type(&self, t: FieldType) -> (r: bool)
        ensures
            r == spec_has_type(self.view(), t),
    {
        match self {
            Value::Null => false,
            Value::Bool(_) => t == FieldType::Bool,
            Value::Int(_) => t == FieldType::Num,
            Value::Str(_) => t == FieldType::Str,
            Value::Arr(_) => t == FieldType::Arr,
            Value::Obj(_) => t == FieldType::Obj,
        }
    }
}

/// The model of an association list of exec pairs.
pub open spec fn obj_model(pairs: Seq<(String, Value)>) -> Seq<(Seq<char>, VValue)> {
    Seq::new(pairs.len(), |i: int| (pairs[i].0@, pairs[i].1.view()))
}

/// A string value built from a string slice.
pub fn str_value(s: &str) -> (v: Value)
    ensures
        v.view() == VValue::Str(s@),
{
    Value::Str(String::from_str(s))
}

/// A string value built from a string.
pub fn string_value(s: &String) -> (v: Value)
    ensures
        v.view() == VValue::Str(s@),
{
    Value::Str(s.clone())
}

/// An integer value.
pub fn int_value(i: i64) -> (v: Value)
    ensures
        v.view() == VValue::Int(i as int),
{
    Value::Int(i)
}

/// A boolean value.
pub fn bool_value(b: bool) -> (v: Value)
    ensures
        v.view() == VValue::Bool(b),
{
    Value::Bool(b)
}

/// An array value; its model is the element models in order.
pub fn arr_value(items: Vec<Value>) -> (v: Value)
    ensures
        v.view() == VValue::Arr(Seq::new(items@.len(), |i: int| items@[i].view())),
{
    let v = Value::Arr(items);
    proof {
        assert(v.view()->Arr_0 =~= Seq::new(items@.len(), |i: int| items@[i].view()));
    }
    v
}

/// An object value; its model is the binding models in order.
pub fn obj_value(pairs: Vec<(String, Value)>) -> (v: Value)
    ensures
        v.view() == VValue::Obj(obj_model(pairs@)),
{
    let v = Value::Obj(pairs);
    proof {
        assert(v.view()->Obj_0 =~= obj_model(pairs@));
    }
    v
}

/// First binding of `key` among `pairs`, by reference.
pub fn obj_get<'a>(pairs: &'a Vec<(String, Value)>, key: &String) -> (r: Option<&'a Value>)
    ensures
        match r {
            Some(v) => spec_obj_get(obj_model(pairs@), key@) == Some(v.view()),
            None => spec_obj_get(obj_model(pairs@), key@) is None,
        },
{
    let ghost m = obj_model(pairs@);
    proof {
        assert(m.skip(0) =~= m);
    }
    let n = pairs.len();
    for i in 0..n
        invariant
            n == pairs.len(),
            m == obj_model(pairs@),
            spec_obj_get(m, key@) == spec_obj_get(m.skip(i as int), key@),
    {
        proof {
            assert(m.skip(i as int)[0] == m[i as int]);
            assert(m.skip(i as int).drop_first() =~= m.skip(i + 1));
        }
        if pairs[i].0 == *key {
            return Some(&pairs[i].1);
        }
    }
    proof {
        assert(m.skip(n as int).len() == 0);
    }
    None
}

} // verus!
