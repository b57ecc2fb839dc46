//! JSON values as the gateway's replies hold them, read one level at a
//! time. The program parses the text of a reply and hands the value over.

use crate::models::decimal::Decimal;
use crate::utils::text::same_text;
use vstd::prelude::*;

verus! {

/// A JSON number: what it is as a 64-bit integer, where it is one, and what
/// it is in ten-thousandths, where that fits.
#[derive(Clone, Copy, Debug, PartialEq, Eq)]
pub struct Number {
    pub integer: Option<i64>,
    pub decimal: Option<Decimal>,
}

/// A JSON value. An object holds its members in order, each name once.
#[derive(Debug, PartialEq, Eq)]
pub enum Json {
    Null,
    Bool(bool),
    Number(Number),
    Text(String),
    Array(Vec<Json>),
    Object(Vec<(String, Json)>),
}

/// The value of the first member named `key`, if there is one.
pub open spec fn find_member(members: Seq<(String, Json)>, key: Seq<char>) -> Option<Json>
    decreases members.len(),
{
    if members.len() == 0 {
        None
    } else if members[0].0@ == key {
        Some(members[0].1)
    } else {
        find_member(members.drop_first(), key)
    }
}

impl Json {
    /// The member of an object that is named `key`; nothing for a value
    /// that is no object or has no such member.
    pub open spec fn member(self, key: Seq<char>) -> Option<Json> {
        match self {
            Json::Object(members) => find_member(members@, key),
            _ => None,
        }
    }

    /// The element of an array at `index`; nothing for a value that is no
    /// array or is shorter.
    pub open spec fn element(self, index: int) -> Option<Json> {
        match self {
            Json::Array(items) => if 0 <= index < items@.len() {
                Some(items@[index])
            } else {
                None
            },
            _ => None,
        }
    }

    /// The elements of an array; nothing for a value that is no array.
    pub open spec fn elements(self) -> Option<Seq<Json>> {
        match self {
            Json::Array(items) => Some(items@),
            _ => None,
        }
    }

    /// The characters of a string; nothing for a value that is no string.
    pub open spec fn text(self) -> Option<Seq<char>> {
        match self {
            Json::Text(s) => Some(s@),
            _ => None,
        }
    }

    /// A number as an integer; nothing for a value that is no number or is
    /// no integer of 64 bits.
    pub open spec fn integer(self) -> Option<i64> {
        match self {
            Json::Number(n) => n.integer,
            _ => None,
        }
    }

    /// A number in ten-thousandths; nothing for a value that is no number
    /// or does not fit.
    pub open spec fn decimal(self) -> Option<Decimal> {
        match self {
            Json::Number(n) => n.decimal,
            _ => None,
        }
    }

    /// The member named `key`; see [`Json::member`].
    pub fn get(&self, key: &str) -> (r: Option<&Json>)
        ensures
            match r {
                Some(value) => self.member(key@) == Some(*value),
                None => self.member(key@) is None,
            },
    {
        match self {
            Json::Object(members) => {
                let mut i: usize = 0;
                assert(members@.skip(0) =~= members@);
                while i < members.len()
                    invariant
                        i <= members.len(),
                        self.member(key@) == find_member(members@, key@),
                        find_member(members@, key@) == find_member(members@.skip(i as int), key@),
                    decreases members.len() - i,
                {
                    let ghost rest = members@.skip(i as int);
                    assert(rest[0] == members@[i as int]);
                    assert(rest.drop_first() =~= members@.skip(i + 1));
                    if same_text(members[i].0.as_str(), key) {
                        return Some(&members[i].1);
                    }
                    i += 1;
                }
                assert(members@.skip(i as int).len() == 0);
                None
            },
            _ => None,
        }
    }

    /// The element at `index`; see [`Json::element`].
    pub fn at(&self, index: usize) -> (r: Option<&Json>)
        ensures
            match r {
                Some(value) => self.element(index as int) == Some(*value),
                None => self.element(index as int) is None,
            },
    {
        match self {
            Json::Array(items) => if index < items.len() {
                Some(&items[index])
            } else {
                None
            },
            _ => None,
        }
    }

    /// The elements of an array; see [`Json::elements`].
    pub fn as_array(&self) -> (r: Option<&Vec<Json>>)
        ensures
            match r {
                Some(items) => self.elements() == Some(items@),
                None => self.elements() is None,
            },
    {
        match self {
            Json::Array(items) => Some(items),
            _ => None,
        }
    }

    /// The characters of a string; see [`Json::text`].
    pub fn as_str(&self) -> (r: Option<&str>)
        ensures
            match r {
                Some(s) => self.text() == Some(s@),
                None => self.text() is None,
            },
    {
        match self {
            Json::Text(s) => Some(s.as_str()),
            _ => None,
        }
    }

    /// A number as an integer; see [`Json::integer`].
    pub fn as_i64(&self) -> (r: Option<i64>)
        ensures
            r == self.integer(),
    {
        match self {
            Json::Number(n) => n.integer,
            _ => None,
        }
    }

    /// A number in ten-thousandths; see [`Json::decimal`].
    pub fn as_decimal(&self) -> (r: Option<Decimal>)
        ensures
            r == self.decimal(),
    {
        match self {
            Json::Number(n) => n.decimal,
            _ => None,
        }
    }
}

} // verus!
