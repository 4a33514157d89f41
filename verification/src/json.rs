//! A JSON document as the launcher reads it.
use vstd::prelude::*;

use crate::text::same_text;

verus! {

/// A JSON value.
///
/// A number carries its value where it is a non-negative integer that fits in 64 bits; of any
/// other number nothing is kept. The members of an object stand in the order in which the
/// document's parser yields them.
#[derive(Debug)]
pub enum Json {
    Null,
    Bool(bool),
    Number(Option<u64>),
    Text(String),
    Array(Vec<Json>),
    Object(Vec<(String, Json)>),
}

/// The value of the first member named `key`, or `Null` where there is none.
pub open spec fn member(members: Seq<(String, Json)>, key: Seq<char>) -> Json
    decreases members.len(),
{
    if members.len() == 0 {
        Json::Null
    } else if members[0].0@ == key {
        members[0].1
    } else {
        member(members.skip(1), key)
    }
}

impl Json {
    /// What indexing by a key gives: the member of that name, or `Null` where the value is no
    /// object or has no such member.
    pub open spec fn field(self, key: Seq<char>) -> Json {
        match self {
            Json::Object(members) => member(members@, key),
            _ => Json::Null,
        }
    }

    /// What indexing by a position gives: the element there, or `Null` where the value is no
    /// array or is too short.
    pub open spec fn item(self, index: int) -> Json {
        match self {
            Json::Array(items) => if 0 <= index < items@.len() {
                items@[index]
            } else {
                Json::Null
            },
            _ => Json::Null,
        }
    }

    /// The characters of a string value.
    pub open spec fn text(self) -> Option<Seq<char>> {
        match self {
            Json::Text(s) => Some(s@),
            _ => None,
        }
    }

    /// The value of a number that is a non-negative integer of at most 64 bits.
    pub open spec fn number(self) -> Option<u64> {
        match self {
            Json::Number(n) => n,
            _ => None,
        }
    }

    /// The elements of an array value.
    pub open spec fn items(self) -> Option<Seq<Json>> {
        match self {
            Json::Array(items) => Some(items@),
            _ => None,
        }
    }

    /// The members of an object value.
    pub open spec fn members(self) -> Option<Seq<(String, Json)>> {
        match self {
            Json::Object(members) => Some(members@),
            _ => None,
        }
    }

    /// The member named `key`, or `Null`.
    pub fn get(&self, key: &str) -> (value: &Json)
        ensures
            *value == self.field(key@),
    {
        if let Json::Object(members) = self {
            proof {
                assert(members@.skip(0) =~= members@);
            }
            for i in 0..members.len()
                invariant
                    self.field(key@) == member(members@.skip(i as int), key@),
            {
                if same_text(members[i].0.as_str(), key) {
                    return &members[i].1;
                }
                proof {
                    assert(members@.skip(i as int).skip(1) =~= members@.skip(i + 1));
                }
            }
        }
        &Json::Null
    }

    /// The element at `index`, or `Null`.
    pub fn at(&self, index: usize) -> (value: &Json)
        ensures
            *value == self.item(index as int),
    {
        if let Json::Array(items) = self {
            if index < items.len() {
                return &items[index];
            }
        }
        &Json::Null
    }

    /// The string, where the value is one.
    pub fn as_str(&self) -> (value: Option<&str>)
        ensures
            match value {
                Some(s) => self.text() == Some(s@),
                None => self.text() is None,
            },
    {
        match self {
            Json::Text(s) => Some(s.as_str()),
            _ => None,
        }
    }

    /// The number, where the value is a non-negative integer of at most 64 bits.
    pub fn as_u64(&self) -> (value: Option<u64>)
        ensures
            value == self.number(),
    {
        match self {
            Json::Number(n) => *n,
            _ => None,
        }
    }

    /// The elements, where the value is an array.
    pub fn as_array(&self) -> (value: Option<&Vec<Json>>)
        ensures
            match value {
                Some(items) => self.items() == Some(items@),
                None => self.items() is None,
            },
    {
        match self {
            Json::Array(items) => Some(items),
            _ => None,
        }
    }

    /// The members, where the value is an object.
    pub fn as_object(&self) -> (value: Option<&Vec<(String, Json)>>)
        ensures
            match value {
                Some(members) => self.members() == Some(members@),
                None => self.members() is None,
            },
    {
        match self {
            Json::Object(members) => Some(members),
            _ => None,
        }
    }

    /// Whether the value is an object.
    pub fn is_object(&self) -> (object: bool)
        ensures
            object == (self.members() is Some),
    {
        match self {
            Json::Object(_) => true,
            _ => false,
        }
    }
}

/// Indexing an object by a key gives the value of the first member of that name, wherever it
/// stands, and `Null` where no member has it.
pub proof fn law_indexing_by_a_key(members: Vec<(String, Json)>, key: Seq<char>, k: int)
    requires
        0 <= k <= members@.len(),
        forall|i: int| 0 <= i < k ==> (#[trigger] members@[i]).0@ != key,
        k < members@.len() ==> members@[k].0@ == key,
    ensures
        Json::Object(members).field(key) == if k < members@.len() {
            members@[k].1
        } else {
            Json::Null
        },
{
    lemma_first_member(members@, key, k);
}

proof fn lemma_first_member(members: Seq<(String, Json)>, key: Seq<char>, k: int)
    requires
        0 <= k <= members.len(),
        forall|i: int| 0 <= i < k ==> (#[trigger] members[i]).0@ != key,
        k < members.len() ==> members[k].0@ == key,
    ensures
        member(members, key) == if k < members.len() {
            members[k].1
        } else {
            Json::Null
        },
    decreases k,
{
    if k > 0 {
        let rest = members.skip(1);
        assert(members[0].0@ != key);
        assert forall|i: int| 0 <= i < k - 1 implies (#[trigger] rest[i]).0@ != key by {
            assert(rest[i] == members[i + 1]);
        }
        lemma_first_member(rest, key, k - 1);
    }
}

/// Indexing an array by a position gives the element there, and `Null` past its end.
pub proof fn law_indexing_by_a_position(items: Vec<Json>, index: int)
    requires
        0 <= index,
    ensures
        Json::Array(items).item(index) == if index < items@.len() {
            items@[index]
        } else {
            Json::Null
        },
{
}

/// What is no object has no members, and what is no array has no elements.
pub proof fn law_indexing_other_values_gives_null(value: Json, key: Seq<char>, index: int)
    ensures
        !(value is Object) ==> value.field(key) == Json::Null && value.members() is None,
        !(value is Array) ==> value.item(index) == Json::Null && value.items() is None,
{
}

/// A value is read as what it is, with all it holds, and as nothing else.
pub proof fn law_values_are_read_as_they_are(
    text: String,
    number: Option<u64>,
    items: Vec<Json>,
    members: Vec<(String, Json)>,
    other: Json,
)
    ensures
        Json::Text(text).text() == Some(text@),
        Json::Number(number).number() == number,
        Json::Array(items).items() == Some(items@),
        Json::Object(members).members() == Some(members@),
        !(other is Text) ==> other.text() is None,
        !(other is Number) ==> other.number() is None,
{
}

} // verus!
