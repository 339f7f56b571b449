use vstd::prelude::*;

verus! {

/// A JSON document, as the transport layer decoded it.
#[derive(Debug)]
pub enum Json {
    Null,
    Bool(bool),
    /// A number, kept as the text it was written with.
    Number(String),
    Str(String),
    Array(Vec<Json>),
    /// The members of an object, in document order, keys unique.
    Object(Vec<(String, Json)>),
}

/// The value of the first member from position `i` on whose key is `key`.
pub open spec fn lookup_from(entries: Seq<(String, Json)>, key: Seq<char>, i: int) -> Option<Json>
    decreases entries.len() - i,
{
    if i < 0 || i >= entries.len() {
        None
    } else if entries[i].0@ == key {
        Some(entries[i].1)
    } else {
        lookup_from(entries, key, i + 1)
    }
}

/// `v[key]`: the member `key` of an object; nothing for any other value.
pub open spec fn member_of(v: Json, key: Seq<char>) -> Option<Json> {
    match v {
        Json::Object(entries) => lookup_from(entries@, key, 0),
        _ => None,
    }
}

/// `v[i]`: the element `i` of an array; nothing for any other value.
pub open spec fn element_of(v: Json, i: int) -> Option<Json> {
    match v {
        Json::Array(items) => if 0 <= i < items@.len() {
            Some(items@[i])
        } else {
            None
        },
        _ => None,
    }
}

/// The text of a string value.
pub open spec fn text_of(v: Json) -> Option<Seq<char>> {
    match v {
        Json::Str(s) => Some(s@),
        _ => None,
    }
}

/// The elements of an array value.
pub open spec fn items_of(v: Json) -> Option<Seq<Json>> {
    match v {
        Json::Array(items) => Some(items@),
        _ => None,
    }
}

/// `member_of`, carried through a missing value.
pub open spec fn then_member(o: Option<Json>, key: Seq<char>) -> Option<Json> {
    match o {
        Some(v) => member_of(v, key),
        None => None,
    }
}

/// `element_of`, carried through a missing value.
pub open spec fn then_element(o: Option<Json>, i: int) -> Option<Json> {
    match o {
        Some(v) => element_of(v, i),
        None => None,
    }
}

/// `text_of`, carried through a missing value.
pub open spec fn then_text(o: Option<Json>) -> Option<Seq<char>> {
    match o {
        Some(v) => text_of(v),
        None => None,
    }
}

impl Json {
    /// The member `key` of an object.
    pub fn member(&self, key: &String) -> (r: Option<&Json>)
        ensures
            match r {
                Some(x) => member_of(*self, key@) == Some(*x),
                None => member_of(*self, key@) is None,
            },
    {
        match self {
            Json::Object(entries) => {
                let mut i: usize = 0;
                while i < entries.len()
                    invariant
                        0 <= i <= entries@.len(),
                        member_of(*self, key@) == lookup_from(entries@, key@, 0),
                        lookup_from(entries@, key@, 0) == lookup_from(entries@, key@, i as int),
                    decreases entries@.len() - i,
                {
                    let found: bool = entries[i].0 == *key;
                    if found {
                        assert(entries@[i as int].0@ == key@);
                        return Some(&entries[i].1);
                    }
                    i = i + 1;
                }
                None
            },
            _ => None,
        }
    }

    /// The element `i` of an array.
    pub fn element(&self, i: usize) -> (r: Option<&Json>)
        ensures
            match r {
                Some(x) => element_of(*self, i as int) == Some(*x),
                None => element_of(*self, i as int) is None,
            },
    {
        match self {
            Json::Array(items) => if i < items.len() {
                Some(&items[i])
            } else {
                None
            },
            _ => None,
        }
    }

    /// The text of a string value.
    pub fn as_text(&self) -> (r: Option<&String>)
        ensures
            match r {
                Some(s) => text_of(*self) == Some(s@),
                None => text_of(*self) is None,
            },
    {
        match self {
            Json::Str(s) => Some(s),
            _ => None,
        }
    }

    /// The elements of an array value.
    pub fn as_items(&self) -> (r: Option<&Vec<Json>>)
        ensures
            match r {
                Some(items) => items_of(*self) == Some(items@),
                None => items_of(*self) is None,
            },
    {
        match self {
            Json::Array(items) => Some(items),
            _ => None,
        }
    }
}

} // verus!
