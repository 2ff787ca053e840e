use vstd::prelude::*;

use crate::text::str_eq;

verus! {

/// A JSON document as the library reads it.
pub enum Json {
    Null,
    Bool(bool),
    Number(JsonNumber),
    Str(String),
    Array(Vec<Json>),
    Object(Vec<(String, Json)>),
}

/// A JSON number. Whole numbers are held by value; any other number is
/// held by its text, which the library never reads.
pub enum JsonNumber {
    PosInt(u64),
    NegInt(i64),
    Other(String),
}

/// The value stored under `key` in a list of object fields: the first field with that key.
pub open spec fn field_value(fields: Seq<(String, Json)>, key: Seq<char>) -> Option<Json>
    decreases fields.len(),
{
    if fields.len() == 0 {
        None
    } else if fields[0].0@ == key {
        Some(fields[0].1)
    } else {
        field_value(fields.drop_first(), key)
    }
}


pub fn field_lookup<'a>(fields: &'a Vec<(String, Json)>, key: &str) -> (r: Option<&'a Json>)
    ensures
        r matches Some(v) ==> field_value(fields@, key@) == Some(*v),
        r is None ==> field_value(fields@, key@) is None,
{
    let mut i: usize = 0;
    assert(fields@.skip(0) =~= fields@);
    while i < fields.len()
        invariant
            i <= fields.len(),
            field_value(fields@, key@) == field_value(fields@.skip(i as int), key@),
        decreases fields.len() - i,
    {
        assert(fields@.skip(i as int).drop_first() =~= fields@.skip(i + 1));
        assert(fields@.skip(i as int)[0] == fields@[i as int]);
        if str_eq(fields[i].0.as_str(), key) {
            return Some(&fields[i].1);
        }
        i = i + 1;
    }
    None
}

impl Json {
    pub open spec fn spec_get(self, key: Seq<char>) -> Option<Json> {
        match self {
            Json::Object(fields) => field_value(fields@, key),
            _ => None,
        }
    }

    pub open spec fn spec_as_str(self) -> Option<Seq<char>> {
        match self {
            Json::Str(s) => Some(s@),
            _ => None,
        }
    }

    pub open spec fn spec_as_bool(self) -> Option<bool> {
        match self {
            Json::Bool(b) => Some(b),
            _ => None,
        }
    }

    pub open spec fn spec_as_u64(self) -> Option<u64> {
        match self {
            Json::Number(JsonNumber::PosInt(n)) => Some(n),
            _ => None,
        }
    }

    pub open spec fn spec_as_array(self) -> Option<Seq<Json>> {
        match self {
            Json::Array(v) => Some(v@),
            _ => None,
        }
    }

    /// The keys of an object, in the order of its fields.
    pub open spec fn spec_keys(self) -> Option<Seq<Seq<char>>> {
        match self {
            Json::Object(fields) => Some(fields@.map_values(|f: (String, Json)| f.0@)),
            _ => None,
        }
    }

    /// The text of a string value.
    pub fn as_str(&self) -> (r: Option<&String>)
        ensures
            r matches Some(s) ==> self.spec_as_str() == Some(s@),
            r is None ==> self.spec_as_str() is None,
    {
        match self {
            Json::Str(s) => Some(s),
            _ => None,
        }
    }

    /// A boolean value.
    pub fn as_bool(&self) -> (r: Option<bool>)
        ensures
            r == self.spec_as_bool(),
    {
        match self {
            Json::Bool(b) => Some(*b),
            _ => None,
        }
    }

    /// A whole number that fits in `u64`.
    pub fn as_u64(&self) -> (r: Option<u64>)
        ensures
            r == self.spec_as_u64(),
    {
        match self {
            Json::Number(JsonNumber::PosInt(n)) => Some(*n),
            _ => None,
        }
    }

    /// The elements of an array.
    pub fn as_array(&self) -> (r: Option<&Vec<Json>>)
        ensures
            r matches Some(v) ==> self.spec_as_array() == Some(v@),
            r is None ==> self.spec_as_array() is None,
    {
        match self {
            Json::Array(v) => Some(v),
            _ => None,
        }
    }

    /// The keys of an object, in the order of its fields.
    pub fn keys(&self) -> (r: Option<Vec<String>>)
        ensures
            r matches Some(v) ==> self.spec_keys() == Some(v@.map_values(|k: String| k@)),
            r is None ==> self.spec_keys() is None,
    {
        match self {
            Json::Object(fields) => {
                let mut keys: Vec<String> = Vec::new();
                let mut i: usize = 0;
                while i < fields.len()
                    invariant
                        i <= fields.len(),
                        keys@.map_values(|k: String| k@) =~= fields@.subrange(0, i as int).map_values(
                            |f: (String, Json)| f.0@,
                        ),
                    decreases fields.len() - i,
                {
                    let k = fields[i].0.clone();
                    proof {
                        assert(fields@.subrange(0, i + 1) =~= fields@.subrange(0, i as int).push(fields@[i as int]));
                    }
                    let ghost old_keys = keys@;
                    keys.push(k);
                    proof {
                        assert(k@ == fields@[i as int].0@);
                        assert(keys@ =~= old_keys.push(k));
                        assert(keys@.map_values(|k: String| k@) =~= old_keys.map_values(|k: String| k@).push(k@));
                    }
                    i = i + 1;
                }
                assert(fields@.subrange(0, fields.len() as int) =~= fields@);
                Some(keys)
            },
            _ => None,
        }
    }

    /// The value under `key` when `self` is an object that has it.
    pub fn get(&self, key: &str) -> (r: Option<&Json>)
        ensures
            r matches Some(v) ==> self.spec_get(key@) == Some(*v),
            r is None ==> self.spec_get(key@) is None,
    {
        match self {
            Json::Object(fields) => field_lookup(fields, key),
            _ => None,
        }
    }
}

} // verus!
