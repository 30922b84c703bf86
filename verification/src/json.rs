//! A parsed JSON document as a plain value, and the ways to read it that
//! never fail: a member that is not there reads as `Null`, a value of another
//! kind reads as nothing.

use vstd::prelude::*;
use crate::text::same_text;

verus! {

/// A parsed JSON document.
#[derive(Debug)]
pub enum Json {
    Null,
    Bool(bool),
    /// A number; its value where it is a whole number that a `u64` holds.
    Number(Option<u64>),
    Text(String),
    Array(Vec<Json>),
    /// The members of an object, in the order in which they are handed over:
    /// a parsed text has them in ascending order of the keys, each key once.
    Object(Vec<(String, Json)>),
}

/// `serde_json::Value`, taken as it comes: a value of it is carried through,
/// and nothing is known of what it holds.
#[verifier::external_type_specification]
#[verifier::external_body]
pub struct ExJsonValue(serde_json::Value);

/// The document that a JSON text holds, or `None` where the text is no JSON.
pub uninterp spec fn json_document(text: Seq<char>) -> Option<Json>;

/// A value of `serde_json` as a document, variant for variant; of a number
/// what `serde_json::Number::as_u64` gives. Taken on trust; nothing is
/// claimed of it.
#[verifier::external_body]
fn from_value(value: &serde_json::Value) -> Json {
    match value {
        serde_json::Value::Null => Json::Null,
        serde_json::Value::Bool(b) => Json::Bool(*b),
        serde_json::Value::Number(n) => Json::Number(n.as_u64()),
        serde_json::Value::String(s) => Json::Text(s.clone()),
        serde_json::Value::Array(a) => Json::Array(a.iter().map(from_value).collect()),
        serde_json::Value::Object(m) => Json::Object(m.iter().map(|(k, v)| (k.clone(), from_value(v))).collect()),
    }
}

/// `serde_json::from_str`, taken on trust: it hands out the document that the
/// text holds, and nothing where it refuses the text.
#[verifier::external_body]
fn from_text(text: &str) -> (r: Option<Json>)
    ensures
        r == json_document(text@),
{
    match serde_json::from_str::<serde_json::Value>(text) {
        Ok(value) => Some(from_value(&value)),
        Err(_) => None,
    }
}

/// The value under `key` among the members: that of the last member of that
/// name, `Null` where there is none.
pub open spec fn lookup(members: Seq<(String, Json)>, key: Seq<char>) -> Json
    decreases members.len(),
{
    if members.len() == 0 {
        Json::Null
    } else if members.last().0@ == key {
        members.last().1
    } else {
        lookup(members.drop_last(), key)
    }
}

impl Json {
    /// The document that a JSON text holds.
    pub fn parse(text: &str) -> (r: Option<Json>)
        ensures
            r == json_document(text@),
    {
        from_text(text)
    }

    /// The member under `key`; `Null` where the value is no object or has no
    /// such member.
    pub open spec fn member(self, key: Seq<char>) -> Json {
        match self {
            Json::Object(members) => lookup(members@, key),
            _ => Json::Null,
        }
    }

    /// The text, where the value is a text.
    pub open spec fn text(self) -> Option<Seq<char>> {
        match self {
            Json::Text(s) => Some(s@),
            _ => None,
        }
    }

    /// The text, or `default` where the value is no text.
    pub open spec fn text_or(self, default: Seq<char>) -> Seq<char> {
        match self {
            Json::Text(s) => s@,
            _ => default,
        }
    }

    /// The truth value, or `default` where the value is none.
    pub open spec fn bool_or(self, default: bool) -> bool {
        match self {
            Json::Bool(b) => b,
            _ => default,
        }
    }

    /// The number, or `default` where the value is no number that a `u64`
    /// holds.
    pub open spec fn u64_or(self, default: u64) -> u64 {
        match self {
            Json::Number(Some(n)) => n,
            _ => default,
        }
    }

    /// The members, where the value is an object; none otherwise.
    pub open spec fn members(self) -> Seq<(String, Json)> {
        match self {
            Json::Object(members) => members@,
            _ => Seq::empty(),
        }
    }

    /// The elements, where the value is an array; none otherwise.
    pub open spec fn elements(self) -> Seq<Json> {
        match self {
            Json::Array(elements) => elements@,
            _ => Seq::empty(),
        }
    }

    /// The member under `key`, where the value is an object that has one.
    pub fn get(&self, key: &str) -> (r: Option<&Json>)
        ensures
            match r {
                Some(v) => *v == self.member(key@),
                None => self.member(key@) == Json::Null,
            },
    {
        match self {
            Json::Object(members) => {
                let mut i: usize = members.len();
                assert(members@.take(i as int) =~= members@);
                while i > 0
                    invariant
                        i <= members.len(),
                        self.member(key@) == lookup(members@, key@),
                        lookup(members@, key@) == lookup(members@.take(i as int), key@),
                    decreases i,
                {
                    let ghost front = members@.take(i as int);
                    i -= 1;
                    assert(front.last() == members@[i as int]);
                    assert(front.drop_last() =~= members@.take(i as int));
                    if same_text(members[i].0.as_str(), key) {
                        return Some(&members[i].1);
                    }
                }
                None
            },
            _ => None,
        }
    }

    /// The members of the object under `key`, where there is one.
    pub fn members_at(&self, key: &str) -> (r: Option<&Vec<(String, Json)>>)
        ensures
            match r {
                Some(v) => self.member(key@) is Object && v@ == self.member(key@).members(),
                None => !(self.member(key@) is Object),
            },
    {
        match self.get(key) {
            Some(Json::Object(members)) => Some(members),
            _ => None,
        }
    }

    /// The elements of the array under `key`, where there is one.
    pub fn elements_at(&self, key: &str) -> (r: Option<&Vec<Json>>)
        ensures
            match r {
                Some(v) => self.member(key@) is Array && v@ == self.member(key@).elements(),
                None => !(self.member(key@) is Array),
            },
    {
        match self.get(key) {
            Some(Json::Array(elements)) => Some(elements),
            _ => None,
        }
    }

    /// The text under `key`, where there is one.
    pub fn text_at(&self, key: &str) -> (r: Option<&str>)
        ensures
            match r {
                Some(s) => self.member(key@).text() == Some(s@),
                None => self.member(key@).text() is None,
            },
    {
        match self.get(key) {
            Some(Json::Text(s)) => Some(s.as_str()),
            _ => None,
        }
    }

    /// The text under `key`, or the given text where there is none.
    pub fn text_or_at(&self, key: &str, default: &str) -> (r: String)
        ensures
            r@ == self.member(key@).text_or(default@),
    {
        match self.text_at(key) {
            Some(s) => s.to_owned(),
            None => default.to_owned(),
        }
    }

    /// The truth value under `key`, or `false` where there is none.
    pub fn flag_at(&self, key: &str) -> (r: bool)
        ensures
            r == self.member(key@).bool_or(false),
    {
        match self.get(key) {
            Some(Json::Bool(b)) => *b,
            _ => false,
        }
    }

    /// The number under `key`, or zero where there is none that a `u64`
    /// holds.
    pub fn u64_at(&self, key: &str) -> (r: u64)
        ensures
            r == self.member(key@).u64_or(0),
    {
        match self.get(key) {
            Some(Json::Number(Some(n))) => *n,
            _ => 0,
        }
    }

    /// The number under `key` cut down to its lower 32 bits, or zero where
    /// there is none that a `u64` holds.
    pub fn u32_at(&self, key: &str) -> (r: u32)
        ensures
            r == self.member(key@).u64_or(0) as u32,
    {
        let n = self.u64_at(key);
        #[verifier::truncate]
        (n as u32)
    }
}

} // verus!
