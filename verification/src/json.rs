//! A JSON document as a tree of plain values, and the lookups that the
//! decoders are built from.

use vstd::prelude::*;
use vstd::seq_lib::*;
use crate::error::{stands_for, stands_for_optional, ParseError};

verus! {

/// A JSON document held by value.
///
/// An object keeps its members in document order and may name a key more
/// than once; the decoders decide what a repeated key means.
#[derive(Debug, PartialEq, Eq)]
pub enum Json {
    Null,
    Bool(bool),
    /// A whole number.
    Integer(i128),
    /// Any other number, as the bits of its double-precision value.
    Real(u64),
    Text(String),
    List(Vec<Json>),
    Object(Vec<(String, Json)>),
}

/// The mathematical value of a [`Json`] document.
pub ghost enum JsonValue {
    Null,
    Bool(bool),
    Integer(int),
    Real(u64),
    Text(Seq<char>),
    List(Seq<JsonValue>),
    Object(Seq<(Seq<char>, JsonValue)>),
}

impl Json {
    /// The value that the document spells out.
    pub open spec fn value(self) -> JsonValue
        decreases self,
    {
        match self {
            Json::Null => JsonValue::Null,
            Json::Bool(b) => JsonValue::Bool(b),
            Json::Integer(n) => JsonValue::Integer(n as int),
            Json::Real(bits) => JsonValue::Real(bits),
            Json::Text(s) => JsonValue::Text(s@),
            Json::List(items) => JsonValue::List(
                Seq::new(
                    items@.len(),
                    |i: int|
                        if 0 <= i < items@.len() {
                            items@[i].value()
                        } else {
                            JsonValue::Null
                        },
                ),
            ),
            Json::Object(members) => JsonValue::Object(
                Seq::new(
                    members@.len(),
                    |i: int|
                        if 0 <= i < members@.len() {
                            (members@[i].0@, members@[i].1.value())
                        } else {
                            (Seq::empty(), JsonValue::Null)
                        },
                ),
            ),
        }
    }
}

impl View for Json {
    type V = JsonValue;

    open spec fn view(&self) -> JsonValue {
        self.value()
    }
}

/// The test that picks the members of an object that go by `key`.
pub open spec fn named(key: Seq<char>) -> spec_fn((Seq<char>, JsonValue)) -> bool {
    |member: (Seq<char>, JsonValue)| member.0 == key
}

impl JsonValue {
    /// The member of an object that goes by `key`: `None` where no member
    /// does, an error where several do or the value is no object.
    pub open spec fn member(self, key: Seq<char>) -> Result<Option<JsonValue>, ParseError> {
        match self {
            JsonValue::Object(members) => {
                let hits = members.filter(named(key));
                if hits.len() == 0 {
                    Ok(None)
                } else if hits.len() == 1 {
                    Ok(Some(hits[0].1))
                } else {
                    Err(ParseError::DuplicateField)
                }
            },
            _ => Err(ParseError::NotAnObject),
        }
    }

    /// The member that goes by `key`, which has to be there.
    pub open spec fn required(self, key: Seq<char>) -> Result<JsonValue, ParseError> {
        match self.member(key) {
            Ok(Some(found)) => Ok(found),
            Ok(None) => Err(ParseError::MissingField),
            Err(e) => Err(e),
        }
    }

    /// The member that goes by `key`, where `null` counts as leaving the
    /// member out.
    pub open spec fn optional(self, key: Seq<char>) -> Result<Option<JsonValue>, ParseError> {
        match self.member(key) {
            Ok(Some(JsonValue::Null)) => Ok(None),
            other => other,
        }
    }

    /// The characters of a string.
    pub open spec fn text(self) -> Result<Seq<char>, ParseError> {
        match self {
            JsonValue::Text(characters) => Ok(characters),
            _ => Err(ParseError::WrongType),
        }
    }

    /// The string member that goes by `key`, which has to be there.
    pub open spec fn required_text(self, key: Seq<char>) -> Result<Seq<char>, ParseError> {
        match self.required(key) {
            Ok(found) => found.text(),
            Err(e) => Err(e),
        }
    }

    /// The string member that goes by `key`, if it is there and not `null`.
    pub open spec fn optional_text(self, key: Seq<char>) -> Result<
        Option<Seq<char>>,
        ParseError,
    > {
        match self.optional(key) {
            Ok(Some(found)) => match found.text() {
                Ok(characters) => Ok(Some(characters)),
                Err(e) => Err(e),
            },
            Ok(None) => Ok(None),
            Err(e) => Err(e),
        }
    }

    /// The value of a whole number that a `usize` can hold.
    pub open spec fn size(self) -> Result<nat, ParseError> {
        match self {
            JsonValue::Integer(n) if 0 <= n <= usize::MAX => Ok(n as nat),
            _ => Err(ParseError::WrongType),
        }
    }

    /// The items of an array.
    pub open spec fn items(self) -> Result<Seq<JsonValue>, ParseError> {
        match self {
            JsonValue::List(items) => Ok(items),
            _ => Err(ParseError::WrongType),
        }
    }
}

/// The views of the members of an object, in the same order.
pub open spec fn member_views(members: Seq<(String, Json)>) -> Seq<(Seq<char>, JsonValue)> {
    Seq::new(members.len(), |i: int| (members[i].0@, members[i].1@))
}

/// The views of the items of an array, in the same order.
pub open spec fn item_views(items: Seq<Json>) -> Seq<JsonValue> {
    Seq::new(items.len(), |i: int| items[i]@)
}

impl Json {
    /// An object is viewed member by member.
    pub proof fn lemma_object_view(members: Vec<(String, Json)>)
        ensures
            Json::Object(members)@ == JsonValue::Object(member_views(members@)),
    {
        let viewed = Json::Object(members)@;
        assert(viewed->Object_0 =~= member_views(members@));
    }

    /// An array is viewed item by item.
    pub proof fn lemma_list_view(items: Vec<Json>)
        ensures
            Json::List(items)@ == JsonValue::List(item_views(items@)),
    {
        let viewed = Json::List(items)@;
        assert(viewed->List_0 =~= item_views(items@));
    }

    /// Whether this is `null`.
    pub fn is_null(&self) -> (null: bool)
        ensures
            null == (self@ == JsonValue::Null),
    {
        match self {
            Json::Null => true,
            _ => false,
        }
    }

    /// Looks the member of an object up that goes by `key`.
    pub fn member(&self, key: &str) -> (found: Result<Option<&Json>, ParseError>)
        ensures
            stands_for_optional(found, self@.member(key@)),
    {
        match self {
            Json::Object(members) => {
                let wanted = key.to_owned();
                let ghost all = member_views(members@);
                proof {
                    Json::lemma_object_view(*members);
                    assert(all.take(0) =~= Seq::<(Seq<char>, JsonValue)>::empty());
                    assert(all.take(0).filter(named(key@)).len() == 0) by {
                        all.take(0).lemma_filter_len(named(key@));
                    }
                }
                let mut first: Option<&Json> = None;
                let mut hits: usize = 0;
                let mut i: usize = 0;
                while i < members.len()
                    invariant
                        i <= members.len(),
                        wanted@ == key@,
                        all == member_views(members@),
                        hits <= i,
                        hits == all.take(i as int).filter(named(key@)).len(),
                        hits == 0 ==> first is None,
                        hits > 0 ==> first is Some && first->0@ == all.take(i as int).filter(
                            named(key@),
                        )[0].1,
                    decreases members.len() - i,
                {
                    proof {
                        all.lemma_take_succ_push(i as int);
                        all.take(i as int).lemma_filter_push(all[i as int], named(key@));
                    }
                    if members[i].0 == wanted {
                        if hits == 0 {
                            first = Some(&members[i].1);
                        }
                        hits += 1;
                    }
                    i += 1;
                }
                assert(all.take(i as int) =~= all);
                if hits > 1 {
                    Err(ParseError::DuplicateField)
                } else {
                    Ok(first)
                }
            },
            _ => Err(ParseError::NotAnObject),
        }
    }

    /// Looks the member up that goes by `key` and has to be there.
    pub fn required(&self, key: &str) -> (found: Result<&Json, ParseError>)
        ensures
            stands_for(found, self@.required(key@)),
    {
        match self.member(key) {
            Ok(Some(value)) => Ok(value),
            Ok(None) => Err(ParseError::MissingField),
            Err(e) => Err(e),
        }
    }

    /// Looks the member up that goes by `key`, taking `null` for a member
    /// that is left out.
    pub fn optional(&self, key: &str) -> (found: Result<Option<&Json>, ParseError>)
        ensures
            stands_for_optional(found, self@.optional(key@)),
    {
        match self.member(key) {
            Ok(Some(value)) => {
                if value.is_null() {
                    Ok(None)
                } else {
                    Ok(Some(value))
                }
            },
            Ok(None) => Ok(None),
            Err(e) => Err(e),
        }
    }

    /// The string that this value is.
    pub fn text(&self) -> (characters: Result<String, ParseError>)
        ensures
            stands_for(characters, self@.text()),
    {
        match self {
            Json::Text(s) => Ok(s.clone()),
            _ => Err(ParseError::WrongType),
        }
    }

    /// The string member that goes by `key` and has to be there.
    pub fn required_text(&self, key: &str) -> (characters: Result<String, ParseError>)
        ensures
            stands_for(characters, self@.required_text(key@)),
    {
        match self.required(key) {
            Ok(value) => value.text(),
            Err(e) => Err(e),
        }
    }

    /// The string member that goes by `key`, if it is there and not `null`.
    pub fn optional_text(&self, key: &str) -> (characters: Result<Option<String>, ParseError>)
        ensures
            stands_for_optional(characters, self@.optional_text(key@)),
    {
        match self.optional(key) {
            Ok(Some(value)) => match value.text() {
                Ok(s) => Ok(Some(s)),
                Err(e) => Err(e),
            },
            Ok(None) => Ok(None),
            Err(e) => Err(e),
        }
    }

    /// The whole number that this value is, where a `usize` can hold it.
    pub fn size(&self) -> (number: Result<usize, ParseError>)
        ensures
            match number {
                Ok(n) => self@.size() == Ok::<_, ParseError>(n as nat),
                Err(e) => self@.size() == Err::<nat, _>(e),
            },
    {
        match self {
            Json::Integer(n) => {
                if 0 <= *n && *n <= usize::MAX as i128 {
                    Ok(*n as usize)
                } else {
                    Err(ParseError::WrongType)
                }
            },
            _ => Err(ParseError::WrongType),
        }
    }

    /// The items of the array that this value is.
    pub fn items(&self) -> (items: Result<&Vec<Json>, ParseError>)
        ensures
            match items {
                Ok(list) => self@.items() == Ok::<_, ParseError>(item_views(list@)),
                Err(e) => self@.items() == Err::<Seq<JsonValue>, _>(e),
            },
    {
        match self {
            Json::List(list) => {
                proof {
                    Json::lemma_list_view(*list);
                }
                Ok(list)
            },
            _ => Err(ParseError::WrongType),
        }
    }
}

impl Clone for Json {
    fn clone(&self) -> (copy: Json)
        ensures
            copy@ == self@,
        decreases self,
    {
        match self {
            Json::Null => Json::Null,
            Json::Bool(b) => Json::Bool(*b),
            Json::Integer(n) => Json::Integer(*n),
            Json::Real(bits) => Json::Real(*bits),
            Json::Text(s) => Json::Text(s.clone()),
            Json::List(items) => {
                let mut copies: Vec<Json> = Vec::new();
                let mut i: usize = 0;
                while i < items.len()
                    invariant
                        i <= items.len(),
                        copies.len() == i,
                        *self == Json::List(*items),
                        forall|j: int| 0 <= j < i ==> (#[trigger] copies[j])@ == items[j]@,
                    decreases items.len() - i,
                {
                    proof {
                        broadcast use vstd::std_specs::vec::group_vec_axioms;

                        assert(decreases_to!(*self => self->List_0));
                        assert(decreases_to!(self->List_0@ => self->List_0@[i as int]));
                    }
                    copies.push(items[i].clone());
                    i += 1;
                }
                proof {
                    Json::lemma_list_view(*items);
                    Json::lemma_list_view(copies);
                    assert(item_views(copies@) =~= item_views(items@));
                }
                Json::List(copies)
            },
            Json::Object(members) => {
                let mut copies: Vec<(String, Json)> = Vec::new();
                let mut i: usize = 0;
                while i < members.len()
                    invariant
                        i <= members.len(),
                        copies.len() == i,
                        *self == Json::Object(*members),
                        forall|j: int|
                            0 <= j < i ==> (#[trigger] copies[j]).0@ == members[j].0@
                                && copies[j].1@ == members[j].1@,
                    decreases members.len() - i,
                {
                    proof {
                        broadcast use vstd::std_specs::vec::group_vec_axioms;

                        assert(decreases_to!(*self => self->Object_0));
                        assert(decreases_to!(self->Object_0@ => self->Object_0@[i as int]));
                        assert(decreases_to!(self->Object_0@[i as int] => self->Object_0@[i as int].1))
                        ;
                    }
                    copies.push((members[i].0.clone(), members[i].1.clone()));
                    i += 1;
                }
                proof {
                    Json::lemma_object_view(*members);
                    Json::lemma_object_view(copies);
                    assert(member_views(copies@) =~= member_views(members@));
                }
                Json::Object(copies)
            },
        }
    }
}

} // verus!
