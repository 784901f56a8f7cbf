//! JSON values, as far as the program looks into them.
use vstd::prelude::*;

use crate::text::same_text;

verus! {

/// A JSON value. Numbers are kept as they were written.
#[derive(Debug)]
pub enum Json {
    Null,
    Bool(bool),
    Number(String),
    Text(String),
    List(Vec<Json>),
    Object(Vec<(String, Json)>),
}

/// The first member of that name at or after `from`.
pub open spec fn member_of(members: Seq<(String, Json)>, key: Seq<char>, from: int) -> Option<Json>
    decreases members.len() - from,
{
    if from < 0 || from >= members.len() {
        None
    } else if members[from].0@ == key {
        Some(members[from].1)
    } else {
        member_of(members, key, from + 1)
    }
}

impl Json {
    /// The member of that name; nothing where the value is no object.
    pub open spec fn member(self, key: Seq<char>) -> Option<Json> {
        match self {
            Json::Object(members) => member_of(members@, key, 0),
            _ => None,
        }
    }

    /// The text; nothing where the value is something else.
    pub open spec fn text(self) -> Option<Seq<char>> {
        match self {
            Json::Text(t) => Some(t@),
            _ => None,
        }
    }

    /// The items; nothing where the value is no list.
    pub open spec fn items(self) -> Option<Seq<Json>> {
        match self {
            Json::List(v) => Some(v@),
            _ => None,
        }
    }

    /// The members; nothing where the value is no object.
    pub open spec fn members(self) -> Option<Seq<(String, Json)>> {
        match self {
            Json::Object(v) => Some(v@),
            _ => None,
        }
    }

    pub fn get(&self, key: &str) -> (r: Option<&Json>)
        ensures
            match r {
                Some(j) => self.member(key@) == Some(*j),
                None => self.member(key@) is None,
            },
    {
        match self {
            Json::Object(members) => {
                let mut i: usize = 0;
                while i < members.len()
                    invariant
                        i <= members@.len(),
                        self.member(key@) == member_of(members@, key@, 0),
                        member_of(members@, key@, 0) == member_of(members@, key@, i as int),
                    decreases members@.len() - i,
                {
                    if same_text(members[i].0.as_str(), key) {
                        return Some(&members[i].1);
                    }
                    i += 1;
                }
                None
            },
            _ => None,
        }
    }

    pub fn as_str(&self) -> (r: Option<&str>)
        ensures
            match r {
                Some(t) => self.text() == Some(t@),
                None => self.text() is None,
            },
    {
        match self {
            Json::Text(t) => Some(t.as_str()),
            _ => None,
        }
    }

    pub fn as_array(&self) -> (r: Option<&Vec<Json>>)
        ensures
            match r {
                Some(v) => self.items() == Some(v@),
                None => self.items() is None,
            },
    {
        match self {
            Json::List(v) => Some(v),
            _ => None,
        }
    }

    pub fn as_object(&self) -> (r: Option<&Vec<(String, Json)>>)
        ensures
            match r {
                Some(v) => self.members() == Some(v@),
                None => self.members() is None,
            },
    {
        match self {
            Json::Object(v) => Some(v),
            _ => None,
        }
    }
}

/// The text of a member.
pub open spec fn text_member(j: Json, key: Seq<char>) -> Option<Seq<char>> {
    match j.member(key) {
        Some(m) => m.text(),
        None => None,
    }
}

/// The text of a member.
pub fn get_str<'a>(j: &'a Json, key: &str) -> (r: Option<&'a str>)
    ensures
        match r {
            Some(t) => text_member(*j, key@) == Some(t@),
            None => text_member(*j, key@) is None,
        },
{
    match j.get(key) {
        Some(m) => m.as_str(),
        None => None,
    }
}

/// The items of a member.
pub open spec fn list_member(j: Json, key: Seq<char>) -> Option<Seq<Json>> {
    match j.member(key) {
        Some(m) => m.items(),
        None => None,
    }
}

/// The items of a member.
pub fn get_array<'a>(j: &'a Json, key: &str) -> (r: Option<&'a Vec<Json>>)
    ensures
        match r {
            Some(v) => list_member(*j, key@) == Some(v@),
            None => list_member(*j, key@) is None,
        },
{
    match j.get(key) {
        Some(m) => m.as_array(),
        None => None,
    }
}

} // verus!
