//! The JSON values that a template holds and that the generators produce.
use vstd::prelude::*;

verus! {

broadcast use vstd::std_specs::vec::group_vec_axioms;

/// A JSON number. Whole numbers in the range of `i64` are held as such; any
/// other number keeps the decimal text it was written with.
#[derive(Clone, Debug, PartialEq)]
pub enum Number {
    Int(i64),
    Decimal(String),
}

/// A JSON value. An object is a list of fields in the order they were
/// written; a name may occur more than once.
#[derive(Debug, PartialEq)]
pub enum JsonValue {
    Null,
    Bool(bool),
    Number(Number),
    String(String),
    Array(Vec<JsonValue>),
    Object(Vec<(String, JsonValue)>),
}

/// The mathematical content of a [`JsonValue`].
pub enum JsonModel {
    Null,
    Bool(bool),
    Int(int),
    Decimal(Seq<char>),
    Text(Seq<char>),
    Array(Seq<JsonModel>),
    Object(Seq<(Seq<char>, JsonModel)>),
}

impl View for Number {
    type V = JsonModel;

    open spec fn view(&self) -> JsonModel {
        match self {
            Number::Int(i) => JsonModel::Int(*i as int),
            Number::Decimal(t) => JsonModel::Decimal(t@),
        }
    }
}

impl View for JsonValue {
    type V = JsonModel;

    open spec fn view(&self) -> JsonModel
        decreases self,
    {
        match self {
            JsonValue::Null => JsonModel::Null,
            JsonValue::Bool(b) => JsonModel::Bool(*b),
            JsonValue::Number(n) => n@,
            JsonValue::String(s) => JsonModel::Text(s@),
            JsonValue::Array(items) => JsonModel::Array(Self::items_view(items)),
            JsonValue::Object(fields) => JsonModel::Object(Self::fields_view(fields)),
        }
    }
}

impl JsonValue {
    /// The contents of a list of values, in order.
    pub open spec fn items_view(items: &Vec<JsonValue>) -> Seq<JsonModel>
        decreases items, 1nat,
    {
        Seq::new(items.len() as nat, |i: int| Self::item_view(items, i))
    }

    /// The names and contents of a list of fields, in order.
    pub open spec fn fields_view(fields: &Vec<(String, JsonValue)>) -> Seq<(Seq<char>, JsonModel)>
        decreases fields, 1nat,
    {
        Seq::new(fields.len() as nat, |i: int| Self::field_view(fields, i))
    }

    /// The content of the item at `i`, where there is one.
    pub open spec fn item_view(items: &Vec<JsonValue>, i: int) -> JsonModel
        decreases items, 0nat,
    {
        if 0 <= i < items.len() {
            items[i].view()
        } else {
            JsonModel::Null
        }
    }

    /// The name and content of the field at `i`, where there is one.
    pub open spec fn field_view(fields: &Vec<(String, JsonValue)>, i: int) -> (Seq<char>, JsonModel)
        decreases fields, 0nat,
    {
        if 0 <= i < fields.len() {
            (fields[i].0@, fields[i].1.view())
        } else {
            (Seq::empty(), JsonModel::Null)
        }
    }
}

/// The value of the first field called `name`, looking from field `from`
/// on.
pub open spec fn field_named(fields: Seq<(Seq<char>, JsonModel)>, name: Seq<char>, from: int) -> Option<
    JsonModel,
>
    decreases fields.len() - from,
{
    if from < 0 || from >= fields.len() {
        None
    } else if fields[from].0 == name {
        Some(fields[from].1)
    } else {
        field_named(fields, name, from + 1)
    }
}

impl JsonModel {
    /// The value of the first field called `name`, where this is an object
    /// that has one.
    pub open spec fn field(self, name: Seq<char>) -> Option<JsonModel> {
        match self {
            JsonModel::Object(fields) => field_named(fields, name, 0),
            _ => None,
        }
    }
}

impl JsonValue {
    /// Whether this is `null`.
    pub fn is_null(&self) -> (b: bool)
        ensures
            b == (self@ == JsonModel::Null),
    {
        match self {
            JsonValue::Null => true,
            _ => false,
        }
    }

    /// Whether this is `true` or `false`.
    pub fn is_boolean(&self) -> (b: bool)
        ensures
            b == (self@ is Bool),
    {
        match self {
            JsonValue::Bool(_) => true,
            _ => false,
        }
    }

    /// The boolean, where this is one.
    pub fn as_bool(&self) -> (r: Option<bool>)
        ensures
            r is Some <==> self@ is Bool,
            r is Some ==> self@ == JsonModel::Bool(r->0),
    {
        match self {
            JsonValue::Bool(b) => Some(*b),
            _ => None,
        }
    }

    /// The whole number, where this is one in the range of `i64`.
    pub fn as_i64(&self) -> (r: Option<i64>)
        ensures
            r is Some <==> self@ is Int,
            r is Some ==> self@ == JsonModel::Int(r->0 as int),
    {
        match self {
            JsonValue::Number(Number::Int(i)) => Some(*i),
            JsonValue::Number(Number::Decimal(_)) => None,
            _ => None,
        }
    }

    /// The text, where this is one.
    pub fn as_str(&self) -> (r: Option<&str>)
        ensures
            r is Some <==> self@ is Text,
            r is Some ==> self@ == JsonModel::Text(r->0@),
    {
        match self {
            JsonValue::String(s) => Some(s.as_str()),
            _ => None,
        }
    }

    /// The items, where this is an array.
    pub fn as_array(&self) -> (r: Option<&Vec<JsonValue>>)
        ensures
            r is Some <==> self@ is Array,
            r is Some ==> self@ == JsonModel::Array(Self::items_view(r->0)),
    {
        match self {
            JsonValue::Array(items) => Some(items),
            _ => None,
        }
    }

    /// The fields, where this is an object.
    pub fn as_object(&self) -> (r: Option<&Vec<(String, JsonValue)>>)
        ensures
            r is Some <==> self@ is Object,
            r is Some ==> self@ == JsonModel::Object(Self::fields_view(r->0)),
    {
        match self {
            JsonValue::Object(fields) => Some(fields),
            _ => None,
        }
    }

    /// The value of the first field called `name`, where this is an object
    /// that has one.
    #[verifier::loop_isolation(false)]
    pub fn get(&self, name: &str) -> (r: Option<&JsonValue>)
        ensures
            r is Some <==> self@.field(name@) is Some,
            r is Some ==> r->0@ == self@.field(name@)->0,
    {
        match self {
            JsonValue::Object(fields) => {
                let mut i: usize = 0;
                while i < fields.len()
                    invariant
                        i <= fields.len(),
                        self@.field(name@) == field_named(self@->Object_0, name@, i as int),
                    decreases fields.len() - i,
                {
                    assert(self@->Object_0[i as int] == (fields[i as int].0@, fields[i as int].1@));
                    if crate::text::same_text(fields[i].0.as_str(), name) {
                        return Some(&fields[i].1);
                    }
                    i += 1;
                }
                None
            },
            _ => None,
        }
    }
}

impl Clone for JsonValue {
    /// A copy with the same content.
    #[verifier::loop_isolation(false)]
    fn clone(&self) -> (r: Self)
        ensures
            r@ == self@,
        decreases self,
    {
        match self {
            JsonValue::Null => JsonValue::Null,
            JsonValue::Bool(b) => JsonValue::Bool(*b),
            JsonValue::Number(Number::Int(i)) => JsonValue::Number(Number::Int(*i)),
            JsonValue::Number(Number::Decimal(t)) => JsonValue::Number(Number::Decimal(t.clone())),
            JsonValue::String(s) => JsonValue::String(s.clone()),
            JsonValue::Array(items) => {
                let mut copy: Vec<JsonValue> = Vec::new();
                let mut i: usize = 0;
                while i < items.len()
                    invariant
                        i <= items.len(),
                        copy.len() == i,
                        forall|k: int| 0 <= k < i ==> copy[k]@ == items[k]@,
                    decreases items.len() - i,
                {
                    copy.push(items[i].clone());
                    i += 1;
                }
                let r = JsonValue::Array(copy);
                assert(JsonValue::items_view(&copy) =~= JsonValue::items_view(items));
                r
            },
            JsonValue::Object(fields) => {
                let mut copy: Vec<(String, JsonValue)> = Vec::new();
                let mut i: usize = 0;
                while i < fields.len()
                    invariant
                        i <= fields.len(),
                        copy.len() == i,
                        forall|k: int| 0 <= k < i ==> copy[k].0@ == fields[k].0@ && copy[k].1@ == fields[k].1@,
                    decreases fields.len() - i,
                {
                    copy.push((fields[i].0.clone(), fields[i].1.clone()));
                    i += 1;
                }
                let r = JsonValue::Object(copy);
                assert(JsonValue::fields_view(&copy) =~= JsonValue::fields_view(fields));
                r
            },
        }
    }
}

} // verus!
