use vstd::prelude::*;

use crate::text::str_eq;

verus! {

/// A parsed JSON value, as far as settings handling looks into it.
///
/// Numbers keep the text they were written with: the settings never compute with them.
pub enum JsonValue {
    Null,
    Bool(bool),
    Number(String),
    String(String),
    Array(Vec<JsonValue>),
    Object(Vec<(String, JsonValue)>),
}

/// The position of the first member of `members` at or after `i` whose key is `key`.
pub open spec fn member_index_from(members: Seq<(String, JsonValue)>, key: Seq<char>, i: int) -> Option<int>
    decreases members.len() - i,
{
    if i < 0 || i >= members.len() {
        None
    } else if members[i].0@ == key {
        Some(i)
    } else {
        member_index_from(members, key, i + 1)
    }
}

/// The value of the first member of `members` whose key is `key`.
pub open spec fn spec_member(members: Seq<(String, JsonValue)>, key: Seq<char>) -> Option<JsonValue> {
    match member_index_from(members, key, 0) {
        Some(i) => Some(members[i].1),
        None => None,
    }
}

/// The members of the object that `members` maps `key` to, if it maps it to an object.
pub open spec fn spec_get_object(members: Seq<(String, JsonValue)>, key: Seq<char>) -> Option<Seq<(String, JsonValue)>> {
    match spec_member(members, key) {
        Some(JsonValue::Object(m)) => Some(m@),
        _ => None,
    }
}

/// The string that `members` maps `key` to, if it maps it to a string.
pub open spec fn spec_get_str(members: Seq<(String, JsonValue)>, key: Seq<char>) -> Option<Seq<char>> {
    match spec_member(members, key) {
        Some(JsonValue::String(s)) => Some(s@),
        _ => None,
    }
}

/// The position of the first member of `members` whose key is `key`.
pub fn member_index(members: &Vec<(String, JsonValue)>, key: &str) -> (r: Option<usize>)
    ensures
        match r {
            Some(i) => i < members.len() && member_index_from(members@, key@, 0) == Some(i as int),
            None => member_index_from(members@, key@, 0) is None,
        },
{
    let mut i: usize = 0;
    while i < members.len()
        invariant
            member_index_from(members@, key@, 0) == member_index_from(members@, key@, i as int),
        decreases members.len() - i,
    {
        if str_eq(members[i].0.as_str(), key) {
            return Some(i);
        }
        i = i + 1;
    }
    None
}

/// The members of the object that `members` maps `key` to, if it maps it to an object.
pub fn get_object<'a>(members: &'a Vec<(String, JsonValue)>, key: &str) -> (r: Option<&'a Vec<(String, JsonValue)>>)
    ensures
        match r {
            Some(m) => spec_get_object(members@, key@) == Some(m@),
            None => spec_get_object(members@, key@) is None,
        },
{
    match member_index(members, key) {
        Some(i) => match &members[i].1 {
            JsonValue::Object(m) => Some(m),
            _ => None,
        },
        None => None,
    }
}

/// The string that `members` maps `key` to, if it maps it to a string.
pub fn get_str<'a>(members: &'a Vec<(String, JsonValue)>, key: &str) -> (r: Option<&'a String>)
    ensures
        match r {
            Some(s) => spec_get_str(members@, key@) == Some(s@),
            None => spec_get_str(members@, key@) is None,
        },
{
    match member_index(members, key) {
        Some(i) => match &members[i].1 {
            JsonValue::String(s) => Some(s),
            _ => None,
        },
        None => None,
    }
}

} // verus!
