//! The data document: a tree of JSON-like values.

use vstd::prelude::*;
use crate::text::{same_text, texts};

verus! {

/// One entry of an object.
#[derive(Debug, PartialEq)]
pub struct Member {
    pub key: String,
    pub value: Value,
}

/// A JSON-like value. A number is held as its canonical decimal text.
#[derive(Debug, PartialEq)]
pub enum Value {
    Null,
    Bool(bool),
    Number(String),
    String(String),
    Array(Vec<Value>),
    Object(Vec<Member>),
}

/// The value of the first member of `members`, from position `from` on, whose key is `key`.
pub open spec fn find_member(members: Seq<Member>, key: Seq<char>, from: int) -> Option<Value>
    decreases members.len() - from,
{
    if from < 0 || from >= members.len() {
        None
    } else if members[from].key@ == key {
        Some(members[from].value)
    } else {
        find_member(members, key, from + 1)
    }
}

/// The value reached from `v` by following `parts` through nested objects,
/// one key at a time.
pub open spec fn descend(v: Value, parts: Seq<Seq<char>>) -> Option<Value>
    decreases parts.len(),
{
    if parts.len() == 0 {
        Some(v)
    } else {
        match v.member(parts[0]) {
            Some(inner) => descend(inner, parts.drop_first()),
            None => None,
        }
    }
}

impl Value {
    /// The member of an object under `key`; nothing for any other value.
    pub open spec fn member(self, key: Seq<char>) -> Option<Value> {
        match self {
            Value::Object(members) => find_member(members@, key, 0),
            _ => None,
        }
    }

    /// The text that stands for a scalar: a string as it is, a number in its
    /// decimal form, a boolean as `true` or `false`. Null, arrays and
    /// objects give the empty text.
    pub open spec fn scalar_text(self) -> Seq<char> {
        match self {
            Value::String(s) => s@,
            Value::Number(n) => n@,
            Value::Bool(b) => if b { "true"@ } else { "false"@ },
            _ => Seq::empty(),
        }
    }

    /// Looks up `key` in an object.
    pub fn get(&self, key: &str) -> (r: Option<&Value>)
        ensures
            match r {
                Some(v) => self.member(key@) == Some(*v),
                None => self.member(key@) is None,
            },
    {
        match self {
            Value::Object(members) => {
                let mut i: usize = 0;
                while i < members.len()
                    invariant
                        i <= members.len(),
                        self.member(key@) == find_member(members@, key@, 0),
                        find_member(members@, key@, 0) == find_member(members@, key@, i as int),
                    decreases members.len() - i,
                {
                    if same_text(members[i].key.as_str(), key) {
                        return Some(&members[i].value);
                    }
                    i += 1;
                }
                None
            },
            _ => None,
        }
    }

    /// Follows `parts` through nested objects.
    pub fn get_path(&self, parts: &Vec<String>) -> (r: Option<&Value>)
        ensures
            match r {
                Some(v) => descend(*self, texts(parts@)) == Some(*v),
                None => descend(*self, texts(parts@)) is None,
            },
    {
        let mut current: &Value = self;
        let mut i: usize = 0;
        assert(texts(parts@).skip(0) =~= texts(parts@));
        while i < parts.len()
            invariant
                i <= parts.len(),
                descend(*self, texts(parts@)) == descend(*current, texts(parts@).skip(i as int)),
            decreases parts.len() - i,
        {
            let ghost rest = texts(parts@).skip(i as int);
            assert(rest[0] == parts@[i as int]@);
            assert(rest.drop_first() == texts(parts@).skip(i + 1));
            match current.get(parts[i].as_str()) {
                Some(inner) => {
                    current = inner;
                },
                None => {
                    return None;
                },
            }
            i += 1;
        }
        Some(current)
    }

    /// The array under this value, if it is one.
    pub fn as_array(&self) -> (r: Option<&Vec<Value>>)
        ensures
            match r {
                Some(items) => *self == Value::Array(*items),
                None => !(self is Array),
            },
    {
        match self {
            Value::Array(items) => Some(items),
            _ => None,
        }
    }

    /// The text that stands for this value where it is a scalar.
    pub fn to_text(&self) -> (r: String)
        ensures
            r@ == self.scalar_text(),
    {
        match self {
            Value::String(s) => s.clone(),
            Value::Number(n) => n.clone(),
            Value::Bool(b) => if *b {
                String::from_str("true")
            } else {
                String::from_str("false")
            },
            _ => String::new(),
        }
    }
}

} // verus!
