//! JSON values, as far as the library reads them.
use vstd::prelude::*;

use crate::text::str_eq;

verus! {

/// A JSON value.
#[derive(Debug, PartialEq, Eq)]
pub enum Json {
    Null,
    Bool(bool),
    /// A number that is an unsigned integer of 64 bits.
    UInt(u64),
    /// Any other number, as it is written.
    OtherNumber(String),
    Str(String),
    Array(Vec<Json>),
    /// The members of an object. Of members with the same name the first counts.
    Object(Vec<(String, Json)>),
}

/// The value of the first member named `key`.
pub open spec fn member(fields: Seq<(String, Json)>, key: Seq<char>) -> Option<Json>
    decreases fields.len(),
{
    if fields.len() == 0 {
        None
    } else if fields[0].0@ == key {
        Some(fields[0].1)
    } else {
        member(fields.drop_first(), key)
    }
}

impl Json {
    /// The text of a string.
    pub open spec fn text(self) -> Option<Seq<char>> {
        match self {
            Json::Str(s) => Some(s@),
            _ => None,
        }
    }

    /// The value of an unsigned number.
    pub open spec fn uint(self) -> Option<u64> {
        match self {
            Json::UInt(n) => Some(n),
            _ => None,
        }
    }

    /// The elements of an array.
    pub open spec fn elements(self) -> Option<Seq<Json>> {
        match self {
            Json::Array(v) => Some(v@),
            _ => None,
        }
    }

    /// The members of an object.
    pub open spec fn members(self) -> Option<Seq<(String, Json)>> {
        match self {
            Json::Object(v) => Some(v@),
            _ => None,
        }
    }

    /// The member named `key`, if this is an object that has it.
    pub open spec fn field(self, key: Seq<char>) -> Option<Json> {
        match self {
            Json::Object(v) => member(v@, key),
            _ => None,
        }
    }

    /// The text of the member named `key`, if it is there and a string.
    pub open spec fn field_text(self, key: Seq<char>) -> Option<Seq<char>> {
        match self.field(key) {
            Some(j) => j.text(),
            None => None,
        }
    }

    /// The text of a string.
    pub fn as_str(&self) -> (r: Option<&String>)
        ensures
            match r {
                Some(s) => self.text() == Some(s@),
                None => self.text() is None,
            },
    {
        match self {
            Json::Str(s) => Some(s),
            _ => None,
        }
    }

    /// The value of an unsigned number.
    pub fn as_u64(&self) -> (r: Option<u64>)
        ensures
            r == self.uint(),
    {
        match self {
            Json::UInt(n) => Some(*n),
            _ => None,
        }
    }

    /// The elements of an array.
    pub fn as_array(&self) -> (r: Option<&Vec<Json>>)
        ensures
            match r {
                Some(v) => self.elements() == Some(v@),
                None => self.elements() is None,
            },
    {
        match self {
            Json::Array(v) => Some(v),
            _ => None,
        }
    }

    /// The members of an object.
    pub fn as_object(&self) -> (r: Option<&Vec<(String, Json)>>)
        ensures
            match r {
                Some(v) => self.members() == Some(v@),
                None => self.members() is None,
            },
    {
        match self {
            Json::Object(v) => Some(v),
            _ => None,
        }
    }

    /// The member named `key`, if this is an object that has it.
    pub fn get(&self, key: &str) -> (r: Option<&Json>)
        ensures
            match r {
                Some(j) => self.field(key@) == Some(*j),
                None => self.field(key@) is None,
            },
    {
        match self {
            Json::Object(v) => get_member(v, key),
            _ => None,
        }
    }

    /// The text of the member named `key`, if it is there and a string.
    pub fn get_str(&self, key: &str) -> (r: Option<&String>)
        ensures
            match r {
                Some(s) => self.field_text(key@) == Some(s@),
                None => self.field_text(key@) is None,
            },
    {
        match self.get(key) {
            Some(j) => j.as_str(),
            None => None,
        }
    }
}

/// Looks a member up by its name.
pub fn get_member<'a>(fields: &'a Vec<(String, Json)>, key: &str) -> (r: Option<&'a Json>)
    ensures
        match r {
            Some(j) => member(fields@, key@) == Some(*j),
            None => member(fields@, key@) is None,
        },
{
    let mut i: usize = 0;
    assert(fields@.skip(0) =~= fields@);
    while i < fields.len()
        invariant
            i <= fields@.len(),
            member(fields@.skip(i as int), key@) == member(fields@, key@),
        decreases fields.len() - i,
    {
        assert(fields@.skip(i as int)[0] == fields@[i as int]);
        assert(fields@.skip(i as int).drop_first() =~= fields@.skip(i + 1));
        if str_eq(fields[i].0.as_str(), key) {
            return Some(&fields[i].1);
        }
        i += 1;
    }
    None
}

// ── Laws ─────────────────────────────────────────────────────────────────────

/// Of the members with a name the first counts, and a name that no member has gives none.
pub proof fn law_first_member_counts(fields: Vec<(String, Json)>, key: Seq<char>, i: int)
    requires
        0 <= i <= fields@.len(),
        forall|j: int| 0 <= j < i ==> (#[trigger] fields@[j]).0@ != key,
        i < fields@.len() ==> fields@[i].0@ == key,
    ensures
        Json::Object(fields).field(key) == (if i < fields@.len() {
            Some(fields@[i].1)
        } else {
            None
        }),
{
    lemma_member(fields@, key, i);
}

proof fn lemma_member(fields: Seq<(String, Json)>, key: Seq<char>, i: int)
    requires
        0 <= i <= fields.len(),
        forall|j: int| 0 <= j < i ==> (#[trigger] fields[j]).0@ != key,
        i < fields.len() ==> fields[i].0@ == key,
    ensures
        member(fields, key) == (if i < fields.len() {
            Some(fields[i].1)
        } else {
            None
        }),
    decreases fields.len(),
{
    if i > 0 {
        assert(fields[0].0@ != key);
        assert forall|j: int| 0 <= j < i - 1 implies (#[trigger] fields.drop_first()[j]).0@
            != key by {
            assert(fields[j + 1].0@ != key);
        }
        lemma_member(fields.drop_first(), key, i - 1);
    }
}

/// Only objects have members, only arrays have elements, and only strings and unsigned numbers have
/// a text and a value.
pub proof fn law_values_are_of_one_kind(v: Json, key: Seq<char>)
    ensures
        v.field(key) is Some ==> v is Object,
        v.members() is Some <==> v is Object,
        v.elements() is Some <==> v is Array,
        v.text() is Some <==> v is Str,
        v.uint() is Some <==> v is UInt,
        v matches Json::Str(s) ==> v.text() == Some(s@),
        v matches Json::UInt(n) ==> v.uint() == Some(n),
        v matches Json::Array(e) ==> v.elements() == Some(e@),
        v.field_text(key) is Some ==> v.field(key) is Some && v.field(key)->0 is Str,
        v.field(key) matches Some(Json::Str(s)) ==> v.field_text(key) == Some(s@),
{
}

} // verus!
