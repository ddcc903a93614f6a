//! JSON values.

use crate::text;
use vstd::prelude::*;

verus! {

/// A JSON number.
#[derive(Debug, PartialEq, Eq)]
pub enum JsonNumber {
    /// An integer of zero or more.
    PosInt(u64),
    /// An integer below zero.
    NegInt(i64),
    /// Any other number, as its decimal text.
    Float(String),
}

/// The mathematical content of a [`JsonNumber`].
pub enum NumberView {
    PosInt(u64),
    NegInt(i64),
    Float(Seq<char>),
}

impl View for JsonNumber {
    type V = NumberView;

    open spec fn view(&self) -> NumberView {
        match self {
            JsonNumber::PosInt(n) => NumberView::PosInt(*n),
            JsonNumber::NegInt(n) => NumberView::NegInt(*n),
            JsonNumber::Float(text) => NumberView::Float(text@),
        }
    }
}

/// A JSON value.
#[derive(Debug)]
pub enum Json {
    Null,
    Bool(bool),
    Number(JsonNumber),
    Text(String),
    Array(Vec<Json>),
    /// The members of an object; where a key occurs twice, the later one counts.
    Object(Vec<(String, Json)>),
}

/// The mathematical content of a [`Json`] value.
pub enum JsonView {
    Null,
    Bool(bool),
    Number(NumberView),
    Text(Seq<char>),
    Array(Seq<JsonView>),
    Object(Map<Seq<char>, JsonView>),
}

/// The map that results from inserting `pairs` one after another.
pub open spec fn map_of<V>(pairs: Seq<(Seq<char>, V)>) -> Map<Seq<char>, V>
    decreases pairs.len(),
{
    if pairs.len() == 0 {
        Map::empty()
    } else {
        map_of(pairs.drop_last()).insert(pairs.last().0, pairs.last().1)
    }
}

impl Json {
    /// The mathematical content of the value.
    pub open spec fn model(self) -> JsonView
        decreases self,
    {
        match self {
            Json::Null => JsonView::Null,
            Json::Bool(b) => JsonView::Bool(b),
            Json::Number(n) => JsonView::Number(n@),
            Json::Text(s) => JsonView::Text(s@),
            Json::Array(items) => JsonView::Array(
                Seq::new(
                    items@.len(),
                    |i: int|
                        if 0 <= i < items@.len() {
                            items@[i].model()
                        } else {
                            JsonView::Null
                        },
                ),
            ),
            Json::Object(members) => JsonView::Object(map_of(Json::pairs(members@))),
        }
    }

    /// The members of an object, as pairs of key and content.
    pub open spec fn pairs(members: Seq<(String, Json)>) -> Seq<(Seq<char>, JsonView)>
        decreases members,
    {
        Seq::new(
            members.len(),
            |i: int|
                if 0 <= i < members.len() {
                    (members[i].0@, members[i].1.model())
                } else {
                    (seq![], JsonView::Null)
                },
        )
    }
}

impl View for Json {
    type V = JsonView;

    open spec fn view(&self) -> JsonView {
        self.model()
    }
}

/// The content of what `value` refers to.
pub open spec fn content<T: View + ?Sized>(value: Option<&T>) -> Option<T::V> {
    match value {
        Some(inner) => Some(inner@),
        None => None,
    }
}

impl JsonView {
    /// The member of an object under `key`; `None` where there is none and for
    /// every other kind of value.
    pub open spec fn get(self, key: Seq<char>) -> Option<JsonView> {
        match self {
            JsonView::Object(members) => if members.dom().contains(key) {
                Some(members[key])
            } else {
                None
            },
            _ => None,
        }
    }

    /// The member under `key`, else the one under `other`.
    pub open spec fn get_either(self, key: Seq<char>, other: Seq<char>) -> Option<JsonView> {
        match self.get(key) {
            Some(value) => Some(value),
            None => self.get(other),
        }
    }

    /// The text of a text value.
    pub open spec fn as_str(self) -> Option<Seq<char>> {
        match self {
            JsonView::Text(text) => Some(text),
            _ => None,
        }
    }

    /// The items of an array.
    pub open spec fn as_array(self) -> Option<Seq<JsonView>> {
        match self {
            JsonView::Array(items) => Some(items),
            _ => None,
        }
    }

    /// The number, where it is an integer that `u64` holds.
    pub open spec fn as_u64(self) -> Option<u64> {
        match self {
            JsonView::Number(NumberView::PosInt(n)) => Some(n),
            _ => None,
        }
    }

    /// The number, where it is an integer that `i64` holds.
    pub open spec fn as_i64(self) -> Option<i64> {
        match self {
            JsonView::Number(NumberView::PosInt(n)) if n <= i64::MAX => Some(n as i64),
            JsonView::Number(NumberView::NegInt(n)) => Some(n),
            _ => None,
        }
    }
}

/// The text of `value`, where it is a text.
pub open spec fn str_of(value: Option<JsonView>) -> Option<Seq<char>> {
    match value {
        Some(json) => json.as_str(),
        None => None,
    }
}

/// A key that no pair has is not in the map.
pub proof fn lemma_map_of_absent<V>(pairs: Seq<(Seq<char>, V)>, key: Seq<char>)
    requires
        forall|i: int| 0 <= i < pairs.len() ==> (#[trigger] pairs[i]).0 != key,
    ensures
        !map_of(pairs).dom().contains(key),
    decreases pairs.len(),
{
    if pairs.len() > 0 {
        let init = pairs.drop_last();
        assert forall|i: int| 0 <= i < init.len() implies (#[trigger] init[i]).0 != key by {
            assert(init[i] == pairs[i]);
        }
        lemma_map_of_absent(init, key);
    }
}

/// A key has the value of the last pair with it.
pub proof fn lemma_map_of_last<V>(pairs: Seq<(Seq<char>, V)>, at: int)
    requires
        0 <= at < pairs.len(),
        forall|i: int| at < i < pairs.len() ==> (#[trigger] pairs[i]).0 != pairs[at].0,
    ensures
        map_of(pairs).dom().contains(pairs[at].0),
        map_of(pairs)[pairs[at].0] == pairs[at].1,
    decreases pairs.len(),
{
    if at < pairs.len() - 1 {
        let init = pairs.drop_last();
        assert forall|i: int| at < i < init.len() implies (#[trigger] init[i]).0 != init[at].0 by {
            assert(init[i] == pairs[i]);
        }
        lemma_map_of_last(init, at);
    }
}

impl Clone for JsonNumber {
    fn clone(&self) -> (copy: JsonNumber)
        ensures
            copy@ == self@,
    {
        match self {
            JsonNumber::PosInt(n) => JsonNumber::PosInt(*n),
            JsonNumber::NegInt(n) => JsonNumber::NegInt(*n),
            JsonNumber::Float(text) => JsonNumber::Float(text.clone()),
        }
    }
}

impl Clone for Json {
    fn clone(&self) -> (copy: Json)
        ensures
            copy@ == self@,
        decreases self,
    {
        match self {
            Json::Null => Json::Null,
            Json::Bool(b) => Json::Bool(*b),
            Json::Number(n) => Json::Number(n.clone()),
            Json::Text(text) => Json::Text(text.clone()),
            Json::Array(items) => {
                let mut copies: Vec<Json> = Vec::new();
                for i in 0..items.len()
                    invariant
                        *self == Json::Array(*items),
                        copies@.len() == i,
                        forall|j: int| 0 <= j < i ==> (#[trigger] copies@[j])@ == items@[j]@,
                {
                    assert(decreases_to!(*self => self->Array_0));
                    assert(decreases_to!(*items => items@[i as int]));
                    copies.push(items[i].clone());
                }
                let copy = Json::Array(copies);
                assert(copy@->Array_0 =~= self@->Array_0);
                copy
            },
            Json::Object(members) => {
                let mut copies: Vec<(String, Json)> = Vec::new();
                for i in 0..members.len()
                    invariant
                        *self == Json::Object(*members),
                        copies@.len() == i,
                        forall|j: int|
                            0 <= j < i ==> (#[trigger] copies@[j]).0@ == members@[j].0@
                                && copies@[j].1@ == members@[j].1@,
                {
                    assert(decreases_to!(*self => self->Object_0));
                    assert(decreases_to!(*members => members@[i as int]));
                    assert(decreases_to!(members@[i as int] => members@[i as int].1));
                    copies.push((members[i].0.clone(), members[i].1.clone()));
                }
                assert(Json::pairs(copies@) =~= Json::pairs(members@));
                Json::Object(copies)
            },
        }
    }
}

impl Json {
    /// The member of an object under `key`.
    pub fn get(&self, key: &str) -> (member: Option<&Json>)
        ensures
            content(member) == self@.get(key@),
    {
        let members = match self {
            Json::Object(members) => members,
            _ => {
                return None;
            },
        };
        let ghost pairs = Json::pairs(members@);
        let mut left: usize = members.len();
        while left > 0
            invariant
                *self == Json::Object(*members),
                pairs == Json::pairs(members@),
                left <= members@.len(),
                forall|i: int| left <= i < pairs.len() ==> (#[trigger] pairs[i]).0 != key@,
            decreases left,
        {
            left = left - 1;
            if text::same(members[left].0.as_str(), key) {
                proof {
                    assert(pairs[left as int] == (key@, members@[left as int].1@));
                    lemma_map_of_last(pairs, left as int);
                }
                return Some(&members[left].1);
            }
            assert(pairs[left as int].0 == members@[left as int].0@);
        }
        proof {
            lemma_map_of_absent(pairs, key@);
        }
        None
    }

    /// The member under `key`, else the one under `other`.
    pub fn get_either(&self, key: &str, other: &str) -> (member: Option<&Json>)
        ensures
            content(member) == self@.get_either(key@, other@),
    {
        match self.get(key) {
            Some(member) => Some(member),
            None => self.get(other),
        }
    }

    /// The text of a text value.
    pub fn as_str(&self) -> (result: Option<&str>)
        ensures
            content(result) == self@.as_str(),
    {
        match self {
            Json::Text(text) => Some(text.as_str()),
            _ => None,
        }
    }

    /// The items of an array.
    pub fn as_array(&self) -> (items: Option<&Vec<Json>>)
        ensures
            items is Some == self@.as_array() is Some,
            items is Some ==> self@.as_array()->0 == items->0@.map_values(|item: Json| item@),
    {
        match self {
            Json::Array(items) => {
                assert(self@->Array_0 =~= items@.map_values(|item: Json| item@));
                Some(items)
            },
            _ => None,
        }
    }

    /// The number, where it is an integer that `u64` holds.
    pub fn as_u64(&self) -> (result: Option<u64>)
        ensures
            result == self@.as_u64(),
    {
        match self {
            Json::Number(JsonNumber::PosInt(n)) => Some(*n),
            _ => None,
        }
    }

    /// The number, where it is an integer that `i64` holds.
    pub fn as_i64(&self) -> (result: Option<i64>)
        ensures
            result == self@.as_i64(),
    {
        match self {
            Json::Number(JsonNumber::PosInt(n)) => if *n <= i64::MAX as u64 {
                Some(*n as i64)
            } else {
                None
            },
            Json::Number(JsonNumber::NegInt(n)) => Some(*n),
            _ => None,
        }
    }
}

/// The text of `value`, where it is a text.
pub fn as_text(value: Option<&Json>) -> (text: Option<&str>)
    ensures
        content(text) == str_of(content(value)),
{
    match value {
        Some(json) => json.as_str(),
        None => None,
    }
}

} // verus!
