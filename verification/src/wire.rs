//! Reading and writing the members of JSON objects: what each kind of field
//! means on the wire, and the readers and writers for it.

use crate::json::{self, Json};
use crate::text;
use vstd::prelude::*;

verus! {

/// Adds a member to the fields of an object.
pub fn put(fields: &mut Vec<(String, Json)>, key: &str, value: Json)
    ensures
        json::fields_view(final(fields)@) == json::fields_view(old(fields)@).insert(key@, value@),
{
    let ghost before = fields@;
    fields.push((key.to_owned(), value));
    assert(fields@.drop_last() =~= before);
    proof {
        json::lemma_fields(fields@);
    }
}

/// A text as a document.
pub fn text_json(s: &str) -> (r: Json)
    ensures
        r@ == json::JsonView::Str(s@),
{
    Json::Str(s.to_owned())
}

/// An optional text as a document.
pub open spec fn opt_text_view(s: Option<Seq<char>>) -> json::JsonView {
    match s {
        Some(s) => json::JsonView::Str(s),
        None => json::JsonView::Null,
    }
}

/// The text inside an optional string.
pub open spec fn opt_text(s: Option<String>) -> Option<Seq<char>> {
    match s {
        Some(s) => Some(s@),
        None => None,
    }
}

/// [`opt_text_view`], computed.
pub fn opt_text_json(s: &Option<String>) -> (r: Json)
    ensures
        r@ == opt_text_view(opt_text(*s)),
{
    match s {
        Some(s) => Json::Str(s.clone()),
        None => Json::Null,
    }
}

/// A list of texts as a document.
pub open spec fn texts_view(v: Seq<Seq<char>>) -> json::JsonView {
    json::JsonView::Array(v.map_values(|s: Seq<char>| json::JsonView::Str(s)))
}

/// [`texts_view`], computed.
pub fn texts_json(v: &Vec<String>) -> (r: Json)
    ensures
        r@ == texts_view(text::texts(v@)),
{
    let mut items: Vec<Json> = Vec::new();
    for i in 0..v.len()
        invariant
            items@.len() == i,
            forall|j: int| 0 <= j < i ==> #[trigger] items@[j]@ == json::JsonView::Str(v@[j]@),
    {
        items.push(Json::Str(v[i].clone()));
    }
    proof {
        json::lemma_items(items@);
    }
    assert(json::items_view(items@) =~= text::texts(v@).map_values(
        |s: Seq<char>| json::JsonView::Str(s),
    ));
    Json::Array(items)
}

/// The texts of a document that is a list of texts.
pub open spec fn as_texts(v: json::JsonView) -> Option<Seq<Seq<char>>> {
    match v {
        json::JsonView::Array(items) => if forall|i: int|
            0 <= i < items.len() ==> #[trigger] items[i] is Str {
            Some(items.map_values(|item: json::JsonView| item->Str_0))
        } else {
            None
        },
        _ => None,
    }
}

/// The member as a text.
pub open spec fn text_at(v: json::JsonView, key: Seq<char>) -> Option<Seq<char>> {
    match json::member(v, key) {
        Some(json::JsonView::Str(s)) => Some(s),
        _ => None,
    }
}

/// The member as a text that may be missing: nothing or `null` is no text,
/// anything but a text is malformed.
pub open spec fn opt_text_at(v: json::JsonView, key: Seq<char>) -> Option<Option<Seq<char>>> {
    match json::member(v, key) {
        None => Some(None),
        Some(json::JsonView::Null) => Some(None),
        Some(json::JsonView::Str(s)) => Some(Some(s)),
        Some(_) => None,
    }
}

/// The member as a truth value.
pub open spec fn flag_at(v: json::JsonView, key: Seq<char>) -> Option<bool> {
    match json::member(v, key) {
        Some(json::JsonView::Bool(b)) => Some(b),
        _ => None,
    }
}

/// The member as a whole number from 0 up to `max`.
pub open spec fn count_at(v: json::JsonView, key: Seq<char>, max: int) -> Option<int> {
    match json::member(v, key) {
        Some(json::JsonView::Number(n)) => if 0 <= n <= max {
            Some(n)
        } else {
            None
        },
        _ => None,
    }
}

/// The member as a whole number from 0 up to `max` that may be missing:
/// nothing or `null` is no number, anything else is malformed.
pub open spec fn opt_count_at(v: json::JsonView, key: Seq<char>, max: int) -> Option<Option<int>> {
    match json::member(v, key) {
        None => Some(None),
        Some(json::JsonView::Null) => Some(None),
        Some(json::JsonView::Number(n)) => if 0 <= n <= max {
            Some(Some(n))
        } else {
            None
        },
        Some(_) => None,
    }
}

/// The member as a list of texts.
pub open spec fn texts_at(v: json::JsonView, key: Seq<char>) -> Option<Seq<Seq<char>>> {
    match json::member(v, key) {
        Some(list) => as_texts(list),
        None => None,
    }
}

/// The member as a list of texts, empty where it is missing.
pub open spec fn texts_or_none_at(v: json::JsonView, key: Seq<char>) -> Option<Seq<Seq<char>>> {
    match json::member(v, key) {
        Some(list) => as_texts(list),
        None => Some(Seq::empty()),
    }
}

/// [`text_at`], computed.
pub fn read_text(v: &Json, key: &str) -> (r: Option<String>)
    ensures
        opt_text(r) == text_at(v@, key@),
{
    match v.get(key) {
        Some(Json::Str(s)) => Some(s.clone()),
        _ => None,
    }
}

/// [`opt_text_at`], computed.
pub fn read_opt_text(v: &Json, key: &str) -> (r: Option<Option<String>>)
    ensures
        match r {
            Some(s) => opt_text_at(v@, key@) == Some(opt_text(s)),
            None => opt_text_at(v@, key@) is None,
        },
{
    match v.get(key) {
        None => Some(None),
        Some(Json::Null) => Some(None),
        Some(Json::Str(s)) => Some(Some(s.clone())),
        Some(_) => None,
    }
}

/// [`flag_at`], computed.
pub fn read_flag(v: &Json, key: &str) -> (r: Option<bool>)
    ensures
        r == flag_at(v@, key@),
{
    match v.get(key) {
        Some(Json::Bool(b)) => Some(*b),
        _ => None,
    }
}

/// The document as a whole number that is not negative.
fn as_count(v: &Json) -> (r: Option<u64>)
    ensures
        match r {
            Some(n) => v@ == json::JsonView::Number(n as int),
            None => !(v@ is Number && 0 <= v@->Number_0 <= u64::MAX),
        },
{
    match v {
        Json::Uint(n) => Some(*n),
        Json::Int(n) => if *n >= 0 {
            Some(*n as u64)
        } else {
            None
        },
        _ => None,
    }
}

/// [`count_at`] up to the largest `u64`, computed.
pub fn read_u64(v: &Json, key: &str) -> (r: Option<u64>)
    ensures
        match r {
            Some(n) => count_at(v@, key@, u64::MAX as int) == Some(n as int),
            None => count_at(v@, key@, u64::MAX as int) is None,
        },
{
    match v.get(key) {
        Some(value) => as_count(value),
        None => None,
    }
}

/// [`count_at`] up to the largest `u32`, computed.
pub fn read_u32(v: &Json, key: &str) -> (r: Option<u32>)
    ensures
        match r {
            Some(n) => count_at(v@, key@, u32::MAX as int) == Some(n as int),
            None => count_at(v@, key@, u32::MAX as int) is None,
        },
{
    match v.get(key) {
        Some(value) => match as_count(value) {
            Some(n) => if n <= u32::MAX as u64 {
                Some(n as u32)
            } else {
                None
            },
            None => None,
        },
        None => None,
    }
}

/// [`opt_count_at`] up to the largest `u64`, computed.
pub fn read_opt_u64(v: &Json, key: &str) -> (r: Option<Option<u64>>)
    ensures
        match r {
            Some(Some(n)) => opt_count_at(v@, key@, u64::MAX as int) == Some(Some(n as int)),
            Some(None) => opt_count_at(v@, key@, u64::MAX as int) == Some(None::<int>),
            None => opt_count_at(v@, key@, u64::MAX as int) is None,
        },
{
    match v.get(key) {
        None => Some(None),
        Some(Json::Null) => Some(None),
        Some(value) => match as_count(value) {
            Some(n) => Some(Some(n)),
            None => None,
        },
    }
}

/// [`opt_count_at`] up to the largest `u32`, computed.
pub fn read_opt_u32(v: &Json, key: &str) -> (r: Option<Option<u32>>)
    ensures
        match r {
            Some(Some(n)) => opt_count_at(v@, key@, u32::MAX as int) == Some(Some(n as int)),
            Some(None) => opt_count_at(v@, key@, u32::MAX as int) == Some(None::<int>),
            None => opt_count_at(v@, key@, u32::MAX as int) is None,
        },
{
    match v.get(key) {
        None => Some(None),
        Some(Json::Null) => Some(None),
        Some(value) => match as_count(value) {
            Some(n) => if n <= u32::MAX as u64 {
                Some(Some(n as u32))
            } else {
                None
            },
            None => None,
        },
    }
}

/// [`as_texts`], computed.
pub fn texts_of(v: &Json) -> (r: Option<Vec<String>>)
    ensures
        match r {
            Some(list) => as_texts(v@) == Some(text::texts(list@)),
            None => as_texts(v@) is None,
        },
{
    match v {
        Json::Array(items) => {
            let mut list: Vec<String> = Vec::new();
            let ghost views = json::items_view(items@);
            proof {
                json::lemma_items(items@);
            }
            for i in 0..items.len()
                invariant
                    *v == Json::Array(*items),
                    views == json::items_view(items@),
                    list@.len() == i,
                    forall|j: int|
                        0 <= j < i ==> #[trigger] views[j] == json::JsonView::Str(list@[j]@),
            {
                assert(views[i as int] == items@[i as int]@);
                match &items[i] {
                    Json::Str(s) => list.push(s.clone()),
                    _ => {
                        assert(!(views[i as int] is Str));
                        return None;
                    },
                }
            }
            assert(views.map_values(|item: json::JsonView| item->Str_0) =~= text::texts(list@));
            Some(list)
        },
        _ => None,
    }
}

/// [`texts_at`], computed.
pub fn read_texts(v: &Json, key: &str) -> (r: Option<Vec<String>>)
    ensures
        match r {
            Some(list) => texts_at(v@, key@) == Some(text::texts(list@)),
            None => texts_at(v@, key@) is None,
        },
{
    match v.get(key) {
        Some(value) => texts_of(value),
        None => None,
    }
}

/// [`texts_or_none_at`], computed.
pub fn read_texts_or_none(v: &Json, key: &str) -> (r: Option<Vec<String>>)
    ensures
        match r {
            Some(list) => texts_or_none_at(v@, key@) == Some(text::texts(list@)),
            None => texts_or_none_at(v@, key@) is None,
        },
{
    match v.get(key) {
        None => {
            let list: Vec<String> = Vec::new();
            assert(text::texts(list@) =~= Seq::empty());
            Some(list)
        },
        Some(value) => texts_of(value),
    }
}

/// Whether an object has no member but those named.
pub open spec fn only_has(v: json::JsonView, keys: Seq<Seq<char>>) -> bool {
    match v {
        json::JsonView::Object(fields) => forall|k: Seq<char>|
            fields.dom().contains(k) ==> #[trigger] keys.contains(k),
        _ => false,
    }
}

/// A list of texts written as a document reads back as it was.
pub proof fn lemma_texts_read_back(v: Seq<Seq<char>>)
    ensures
        as_texts(texts_view(v)) == Some(v),
{
    let items = texts_view(v)->Array_0;
    assert(items.map_values(|item: json::JsonView| item->Str_0) =~= v);
}

} // verus!
