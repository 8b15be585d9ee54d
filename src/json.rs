use vstd::prelude::*;

verus! {

/// A JSON document as the library reads it. A number keeps its value where it
/// is a non-negative integer, and its text; an object keeps its members in
/// the order the parser hands them out.
#[derive(Debug)]
pub enum Json {
    Null,
    Bool(bool),
    Number(Option<u64>, String),
    Str(String),
    Array(Vec<Json>),
    Object(Vec<(String, Json)>),
}

#[verifier::external_type_specification]
#[verifier::external_body]
pub struct ExValue(serde_json::Value);

/// Names the document that `serde_json::from_str` reads from a text, or
/// `None` where the text is no JSON document.
pub uninterp spec fn json_of(text: Seq<char>) -> Option<Json>;

/// Names the text that `serde_json::to_string_pretty` writes for a document.
pub uninterp spec fn pretty_of(j: Json) -> Seq<char>;

/// Names the text that `serde_json::to_string` writes for a document.
pub uninterp spec fn compact_of(j: Json) -> Seq<char>;

/// The member `key` of an object: the first with that name.
pub open spec fn member(fields: Seq<(String, Json)>, key: Seq<char>) -> Option<Json>
    decreases fields.len(),
{
    if fields.len() == 0 {
        None
    } else if fields[0].0@ == key {
        Some(fields[0].1)
    } else {
        member(fields.drop_first(), key)
    }
}

/// `self[key]` where `self` is an object; `None` otherwise.
pub open spec fn field(j: Json, key: Seq<char>) -> Option<Json> {
    match j {
        Json::Object(fields) => member(fields@, key),
        _ => None,
    }
}

/// The text of a string, if `j` is one.
pub open spec fn str_of(j: Option<Json>) -> Option<Seq<char>> {
    match j {
        Some(Json::Str(s)) => Some(s@),
        _ => None,
    }
}

/// The text of the string member `key`, or `dflt`.
pub open spec fn str_or(j: Json, key: Seq<char>, dflt: Seq<char>) -> Seq<char> {
    match str_of(field(j, key)) {
        Some(s) => s,
        None => dflt,
    }
}

/// The value of a non-negative integer, if `j` is one.
pub open spec fn u64_of(j: Option<Json>) -> Option<u64> {
    match j {
        Some(Json::Number(n, _)) => n,
        _ => None,
    }
}

/// Reads the tree of a parsed document into the library's `Json`.
#[verifier::external_body]
fn json_from_value(v: serde_json::Value) -> Json {
    match v {
        serde_json::Value::Null => Json::Null,
        serde_json::Value::Bool(b) => Json::Bool(b),
        serde_json::Value::Number(n) => Json::Number(n.as_u64(), n.to_string()),
        serde_json::Value::String(s) => Json::Str(s),
        serde_json::Value::Array(a) => Json::Array(a.into_iter().map(json_from_value).collect()),
        serde_json::Value::Object(m) => Json::Object(
            m.into_iter().map(|(k, x)| (k, json_from_value(x))).collect(),
        ),
    }
}

/// Builds serde_json's tree back from the library's `Json`.
#[verifier::external_body]
fn value_from_json(j: &Json) -> serde_json::Value {
    match j {
        Json::Null => serde_json::Value::Null,
        Json::Bool(b) => serde_json::Value::Bool(*b),
        Json::Number(_, t) => serde_json::from_str(t).unwrap_or(serde_json::Value::Null),
        Json::Str(s) => serde_json::Value::String(s.clone()),
        Json::Array(a) => serde_json::Value::Array(a.iter().map(value_from_json).collect()),
        Json::Object(m) => serde_json::Value::Object(
            m.iter().map(|(k, x)| (k.clone(), value_from_json(x))).collect(),
        ),
    }
}

/// Relies on `serde_json::from_str`: the document a text holds, if it is one.
#[verifier::external_body]
pub fn parse_json(text: &str) -> (r: Option<Json>)
    ensures
        r == json_of(text@),
{
    serde_json::from_str::<serde_json::Value>(text).ok().map(json_from_value)
}

/// Relies on `serde_json::to_string_pretty`, which cannot fail on a tree
/// whose object keys are strings.
#[verifier::external_body]
pub fn to_pretty(j: &Json) -> (r: String)
    ensures
        r@ == pretty_of(*j),
{
    serde_json::to_string_pretty(&value_from_json(j)).unwrap_or_default()
}

/// Relies on `serde_json::to_string` (what `Value::to_string` writes).
#[verifier::external_body]
pub fn to_compact(j: &Json) -> (r: String)
    ensures
        r@ == compact_of(*j),
{
    serde_json::to_string(&value_from_json(j)).unwrap_or_default()
}

impl Json {
    /// The member `key` of an object.
    pub fn get(&self, key: &str) -> (r: Option<&Json>)
        ensures
            r is None <==> field(*self, key@) is None,
            r is Some ==> field(*self, key@) == Some(*r->0),
    {
        match self {
            Json::Object(fields) => {
                let k = key.to_owned();
                assert(field(*self, key@) == member(fields@, key@));
                let mut i: usize = 0;
                assert(fields@.subrange(0, fields.len() as int) =~= fields@);
                while i < fields.len()
                    invariant
                        i <= fields.len(),
                        k@ == key@,
                        field(*self, key@) == member(fields@, key@),
                        member(fields@, key@) == member(fields@.subrange(i as int, fields.len() as int), key@),
                    decreases fields.len() - i,
                {
                    assert(fields@.subrange(i as int, fields.len() as int).drop_first()
                        =~= fields@.subrange(i + 1, fields.len() as int));
                    assert(fields@.subrange(i as int, fields.len() as int)[0] == fields@[i as int]);
                    let entry = &fields[i];
                    if entry.0 == k {
                        assert(member(fields@.subrange(i as int, fields.len() as int), key@) == Some(
                            fields@[i as int].1,
                        ));
                        let x = &entry.1;
                        assert(*x == fields@[i as int].1);
                        return Some(x);
                    }
                    i = i + 1;
                }
                None
            },
            _ => None,
        }
    }

    /// The member `key`, where it is a string.
    pub fn get_str(&self, key: &str) -> (r: Option<&String>)
        ensures
            match r {
                Some(s) => str_of(field(*self, key@)) == Some(s@),
                None => str_of(field(*self, key@)) is None,
            },
    {
        match self.get(key) {
            Some(Json::Str(s)) => Some(s),
            _ => None,
        }
    }

    /// The member `key` where it is a string, or `dflt`.
    pub fn str_or(&self, key: &str, dflt: &str) -> (r: String)
        ensures
            r@ == str_or(*self, key@, dflt@),
    {
        match self.get_str(key) {
            Some(s) => s.clone(),
            None => dflt.to_owned(),
        }
    }

    /// The member `key` where it is a non-negative integer.
    pub fn get_u64(&self, key: &str) -> (r: Option<u64>)
        ensures
            r == u64_of(field(*self, key@)),
    {
        match self.get(key) {
            Some(Json::Number(n, _)) => *n,
            _ => None,
        }
    }
}

} // verus!
