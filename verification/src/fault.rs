//! What is wrong with a document that does not read: the words of each
//! refusal. Members are looked at in the order in which they are written, so
//! the first bad one is named; a member that is missing is named last.

use crate::json::{self, Json, JsonView};
use crate::text;
use crate::wire;
use vstd::prelude::*;

verus! {

/// A whole number in decimal digits, after a sign where it is negative.
pub open spec fn integer(n: int) -> Seq<char> {
    if n < 0 {
        "-"@ + text::decimal((-n) as nat)
    } else {
        text::decimal(n as nat)
    }
}

/// How a refusal calls what it found.
pub open spec fn unexpected(v: JsonView) -> Seq<char> {
    match v {
        JsonView::Null => "null"@,
        JsonView::Bool(b) => if b {
            "boolean `true`"@
        } else {
            "boolean `false`"@
        },
        JsonView::Number(n) => "integer `"@ + integer(n) + "`"@,
        JsonView::Float(_) => "floating point `"@ + json::printed(v) + "`"@,
        JsonView::Str(s) => "string "@ + text::debug_quoted(s),
        JsonView::Array(_) => "sequence"@,
        JsonView::Object(_) => "map"@,
    }
}

/// [`unexpected`], computed.
fn found(v: &Json) -> (s: String)
    ensures
        s@ == unexpected(v@),
{
    match v {
        Json::Null => "null".to_owned(),
        Json::Bool(b) => if *b {
            "boolean `true`".to_owned()
        } else {
            "boolean `false`".to_owned()
        },
        Json::Uint(n) => {
            let mut s = "integer `".to_owned();
            let digits = text::decimal_of(*n);
            s.append(digits.as_str());
            s.append("`");
            s
        },
        Json::Int(n) => {
            let mut s = "integer `".to_owned();
            if *n < 0 {
                let size: u64 = (0 - (*n as i128)) as u64;
                let digits = text::decimal_of(size);
                let mut signed = "-".to_owned();
                signed.append(digits.as_str());
                s.append(signed.as_str());
            } else {
                let digits = text::decimal_of(*n as u64);
                s.append(digits.as_str());
            }
            s.append("`");
            s
        },
        Json::Float(_) => {
            let mut s = "floating point `".to_owned();
            let digits = v.to_text();
            s.append(digits.as_str());
            s.append("`");
            s
        },
        Json::Str(words) => {
            let mut s = "string ".to_owned();
            let quoted = text::quote(words.as_str());
            s.append(quoted.as_str());
            s
        },
        Json::Array(_) => "sequence".to_owned(),
        Json::Object(_) => "map".to_owned(),
    }
}

/// The words for a member that is missing.
pub open spec fn missing(key: Seq<char>) -> Seq<char> {
    "missing field `"@ + key + "`"@
}

/// [`missing`], computed.
fn missing_text(key: &str) -> (s: String)
    ensures
        s@ == missing(key@),
{
    let mut s = "missing field `".to_owned();
    s.append(key);
    s.append("`");
    s
}

/// The words for a document of the wrong type.
pub open spec fn invalid_type(v: JsonView, expected: Seq<char>) -> Seq<char> {
    "invalid type: "@ + unexpected(v) + ", expected "@ + expected
}

/// [`invalid_type`], computed.
fn invalid_type_text(v: &Json, expected: &str) -> (s: String)
    ensures
        s@ == invalid_type(v@, expected@),
{
    let mut s = "invalid type: ".to_owned();
    let what = found(v);
    s.append(what.as_str());
    s.append(", expected ");
    s.append(expected);
    s
}

/// The words for a document of the right type and a value out of range.
pub open spec fn invalid_value(v: JsonView, expected: Seq<char>) -> Seq<char> {
    "invalid value: "@ + unexpected(v) + ", expected "@ + expected
}

/// [`invalid_value`], computed.
fn invalid_value_text(v: &Json, expected: &str) -> (s: String)
    ensures
        s@ == invalid_value(v@, expected@),
{
    let mut s = "invalid value: ".to_owned();
    let what = found(v);
    s.append(what.as_str());
    s.append(", expected ");
    s.append(expected);
    s
}

/// A name between backticks.
pub open spec fn ticked(name: Seq<char>) -> Seq<char> {
    "`"@ + name + "`"@
}

/// What may stand in the place of a name that is not known.
pub open spec fn one_of(names: Seq<Seq<char>>) -> Seq<char> {
    if names.len() == 1 {
        ticked(names[0])
    } else if names.len() == 2 {
        ticked(names[0]) + " or "@ + ticked(names[1])
    } else {
        "one of "@ + text::joined(names.map_values(|name: Seq<char>| ticked(name)), ", "@)
    }
}

fn ticked_text(name: &str) -> (s: String)
    ensures
        s@ == ticked(name@),
{
    let mut s = "`".to_owned();
    s.append(name);
    s.append("`");
    s
}

/// The texts of a list of names.
pub open spec fn spelled(names: Seq<&'static str>) -> Seq<Seq<char>> {
    names.map_values(|name: &'static str| name@)
}

/// [`one_of`], computed.
fn one_of_text(names: &Vec<&'static str>) -> (s: String)
    ensures
        s@ == one_of(spelled(names@)),
{
    if names.len() == 1 {
        ticked_text(names[0])
    } else if names.len() == 2 {
        let mut s = ticked_text(names[0]);
        let other = ticked_text(names[1]);
        s.append(" or ");
        s.append(other.as_str());
        s
    } else {
        let mut list: Vec<String> = Vec::new();
        for i in 0..names.len()
            invariant
                list@.len() == i,
                forall|j: int| 0 <= j < i ==> #[trigger] list@[j]@ == ticked(names@[j]@),
        {
            list.push(ticked_text(names[i]));
        }
        assert(text::texts(list@) =~= spelled(names@).map_values(|name: Seq<char>| ticked(name)));
        let mut s = "one of ".to_owned();
        let all = text::join(&list, ", ");
        s.append(all.as_str());
        s
    }
}

/// The words for a name that is not among those known, as a member or as a
/// variant.
pub open spec fn unknown(what: Seq<char>, name: Seq<char>, known: Seq<Seq<char>>) -> Seq<char> {
    "unknown "@ + what + " "@ + ticked(name) + ", expected "@ + one_of(known)
}

/// [`unknown`], computed.
fn unknown_text(what: &str, name: &str, known: &Vec<&'static str>) -> (s: String)
    ensures
        s@ == unknown(what@, name@, spelled(known@)),
{
    let mut s = "unknown ".to_owned();
    s.append(what);
    s.append(" ");
    let quoted = ticked_text(name);
    s.append(quoted.as_str());
    s.append(", expected ");
    let list = one_of_text(known);
    s.append(list.as_str());
    s
}

/// Whether a name is among those listed.
fn is_listed(name: &str, names: &Vec<&'static str>) -> (r: bool)
    ensures
        r == spelled(names@).contains(name@),
{
    for i in 0..names.len()
        invariant
            forall|j: int| 0 <= j < i ==> #[trigger] spelled(names@)[j] != name@,
    {
        if text::same(names[i], name) {
            assert(spelled(names@)[i as int] == name@);
            return true;
        }
    }
    false
}

/// What is wrong with a document that is to be a text.
pub open spec fn text_fault(v: JsonView) -> Option<Seq<char>> {
    if v is Str {
        None
    } else {
        Some(invalid_type(v, "a string"@))
    }
}

/// [`text_fault`], computed.
fn no_text(v: &Json) -> (r: Option<String>)
    ensures
        wire::opt_text(r) == text_fault(v@),
{
    match v {
        Json::Str(_) => None,
        _ => Some(invalid_type_text(v, "a string")),
    }
}

/// What is wrong with a document that is to be a truth value.
pub open spec fn flag_fault(v: JsonView) -> Option<Seq<char>> {
    if v is Bool {
        None
    } else {
        Some(invalid_type(v, "a boolean"@))
    }
}

/// What is wrong with a document that is to be a whole number from 0 up to
/// `max`.
pub open spec fn count_fault(v: JsonView, max: int, expected: Seq<char>) -> Option<Seq<char>> {
    match v {
        JsonView::Number(n) => if 0 <= n <= max {
            None
        } else {
            Some(invalid_value(v, expected))
        },
        _ => Some(invalid_type(v, expected)),
    }
}

/// [`count_fault`], computed.
fn no_count(v: &Json, max: u64, expected: &str) -> (r: Option<String>)
    ensures
        wire::opt_text(r) == count_fault(v@, max as int, expected@),
{
    match v {
        Json::Uint(n) => if *n <= max {
            None
        } else {
            Some(invalid_value_text(v, expected))
        },
        Json::Int(n) => if *n >= 0 && (*n as u64) <= max {
            None
        } else {
            Some(invalid_value_text(v, expected))
        },
        _ => Some(invalid_type_text(v, expected)),
    }
}

/// The first of some faults.
pub open spec fn first_of(faults: Seq<Option<Seq<char>>>) -> Option<Seq<char>>
    decreases faults.len(),
{
    if faults.len() == 0 {
        None
    } else {
        match first_of(faults.drop_last()) {
            Some(words) => Some(words),
            None => faults.last(),
        }
    }
}

/// There is a first fault exactly where there is any, and it comes before
/// the others.
pub proof fn lemma_first_of(faults: Seq<Option<Seq<char>>>)
    ensures
        first_of(faults) is None <==> forall|i: int|
            0 <= i < faults.len() ==> #[trigger] faults[i] is None,
        forall|i: int|
            0 <= i < faults.len() && #[trigger] faults[i] is Some && (forall|j: int|
                0 <= j < i ==> #[trigger] faults[j] is None) ==> first_of(faults) == faults[i],
    decreases faults.len(),
{
    if faults.len() > 0 {
        let rest = faults.drop_last();
        let n = faults.len() - 1;
        lemma_first_of(rest);
        assert forall|i: int| 0 <= i < rest.len() implies #[trigger] rest[i] == faults[i] by {}
        if first_of(rest) is None {
            assert forall|i: int| 0 <= i < n implies #[trigger] faults[i] is None by {
                assert(rest[i] == faults[i]);
            }
        } else {
            let i = choose|i: int| 0 <= i < rest.len() && #[trigger] rest[i] is Some;
            assert(faults[i] is Some);
        }
        assert forall|i: int|
            0 <= i < faults.len() && #[trigger] faults[i] is Some && (forall|j: int|
                0 <= j < i ==> #[trigger] faults[j] is None) implies first_of(faults)
            == faults[i] by {
            if i < n {
                assert(rest[i] == faults[i]);
                assert forall|j: int| 0 <= j < i implies #[trigger] rest[j] is None by {
                    assert(rest[j] == faults[j]);
                }
            } else {
                assert forall|j: int| 0 <= j < rest.len() implies #[trigger] rest[j] is None by {
                    assert(rest[j] == faults[j]);
                }
            }
        }
    }
}

/// What is wrong with a document that is to be a list of texts.
pub open spec fn texts_fault(v: JsonView) -> Option<Seq<char>> {
    match v {
        JsonView::Array(items) => first_of(items.map_values(|item: JsonView| text_fault(item))),
        _ => Some(invalid_type(v, "a sequence"@)),
    }
}

/// [`texts_fault`], computed.
fn no_texts(v: &Json) -> (r: Option<String>)
    ensures
        wire::opt_text(r) == texts_fault(v@),
{
    match v {
        Json::Array(items) => {
            let ghost faults = json::items_view(items@).map_values(
                |item: JsonView| text_fault(item),
            );
            proof {
                json::lemma_items(items@);
                lemma_first_of(faults);
            }
            for i in 0..items.len()
                invariant
                    faults == json::items_view(items@).map_values(
                        |item: JsonView| text_fault(item),
                    ),
                    faults.len() == items@.len(),
                    forall|j: int|
                        0 <= j < items@.len() ==> #[trigger] faults[j] == text_fault(items@[j]@),
                    forall|j: int| 0 <= j < i ==> #[trigger] faults[j] is None,
                    first_of(faults) is None <==> forall|j: int|
                        0 <= j < faults.len() ==> #[trigger] faults[j] is None,
                    forall|j: int|
                        0 <= j < faults.len() && #[trigger] faults[j] is Some && (forall|k: int|
                            0 <= k < j ==> #[trigger] faults[k] is None) ==> first_of(faults)
                            == faults[j],
                    v@ == JsonView::Array(json::items_view(items@)),
            {
                let fault = no_text(&items[i]);
                assert(faults[i as int] == wire::opt_text(fault));
                if fault.is_some() {
                    return fault;
                }
            }
            None
        },
        _ => Some(invalid_type_text(v, "a sequence")),
    }
}

/// A list of texts is faultless exactly where it reads as one.
pub proof fn lemma_texts_fault(v: JsonView)
    ensures
        texts_fault(v) is None <==> wire::as_texts(v) is Some,
{
    if let JsonView::Array(items) = v {
        let faults = items.map_values(|item: JsonView| text_fault(item));
        lemma_first_of(faults);
        if texts_fault(v) is None {
            assert forall|i: int| 0 <= i < items.len() implies #[trigger] items[i] is Str by {
                assert(faults[i] is None);
            }
        }
        if wire::as_texts(v) is Some {
            assert forall|i: int| 0 <= i < faults.len() implies #[trigger] faults[i] is None by {
                assert(items[i] is Str);
            }
        }
    }
}

/// [`invalid_type`] for what is to be a list.
pub fn no_list(v: &Json) -> (s: String)
    ensures
        s@ == invalid_type(v@, "a sequence"@),
{
    invalid_type_text(v, "a sequence")
}

/// What is wrong with a document that is to be one of some words.
pub open spec fn word_fault(v: JsonView, names: Seq<Seq<char>>) -> Option<Seq<char>> {
    match v {
        JsonView::Str(word) => if names.contains(word) {
            None
        } else {
            Some(unknown("variant"@, word, names))
        },
        JsonView::Object(_) => Some(invalid_value(v, "map with a single key"@)),
        _ => Some(invalid_type(v, "string or map"@)),
    }
}

/// [`word_fault`], computed.
fn no_word(v: &Json, names: &Vec<&'static str>) -> (r: Option<String>)
    ensures
        wire::opt_text(r) == word_fault(v@, spelled(names@)),
{
    match v {
        Json::Str(word) => if is_listed(word.as_str(), names) {
            None
        } else {
            Some(unknown_text("variant", word.as_str(), names))
        },
        Json::Object(_) => Some(invalid_value_text(v, "map with a single key")),
        _ => Some(invalid_type_text(v, "string or map")),
    }
}

/// What is wrong with a document that may also be `null`.
pub open spec fn or_null(v: JsonView, fault: Option<Seq<char>>) -> Option<Seq<char>> {
    if v is Null {
        None
    } else {
        fault
    }
}

/// A member that a reader knows: whether it must be there, and what is wrong
/// with it where it is.
pub struct Field {
    pub key: &'static str,
    pub required: bool,
    pub fault: Option<String>,
}

/// What a reader knows of a member.
#[verifier::ext_equal]
pub ghost struct FieldView {
    pub key: Seq<char>,
    pub required: bool,
    pub fault: Option<Seq<char>>,
}

impl View for Field {
    type V = FieldView;

    open spec fn view(&self) -> FieldView {
        FieldView {
            key: self.key@,
            required: self.required,
            fault: wire::opt_text(self.fault),
        }
    }
}

/// What a reader knows of the members.
pub open spec fn field_views(fields: Seq<Field>) -> Seq<FieldView> {
    fields.map_values(|field: Field| field@)
}

/// The member as a text.
pub open spec fn text_field(v: JsonView, key: Seq<char>) -> FieldView {
    FieldView {
        key,
        required: true,
        fault: match json::member(v, key) {
            Some(m) => text_fault(m),
            None => None,
        },
    }
}

/// [`text_field`], computed.
pub fn look_for_text(v: &Json, key: &'static str) -> (r: Field)
    ensures
        r@ == text_field(v@, key@),
{
    let fault = match v.get(key) {
        Some(m) => no_text(m),
        None => None,
    };
    Field { key, required: true, fault }
}

/// The member as a text that may be missing or `null`.
pub open spec fn opt_text_field(v: JsonView, key: Seq<char>) -> FieldView {
    FieldView {
        key,
        required: false,
        fault: match json::member(v, key) {
            Some(m) => or_null(m, text_fault(m)),
            None => None,
        },
    }
}

/// [`opt_text_field`], computed.
pub fn look_for_opt_text(v: &Json, key: &'static str) -> (r: Field)
    ensures
        r@ == opt_text_field(v@, key@),
{
    let fault = match v.get(key) {
        Some(Json::Null) => None,
        Some(m) => no_text(m),
        None => None,
    };
    Field { key, required: false, fault }
}

/// The member as a truth value.
pub open spec fn flag_field(v: JsonView, key: Seq<char>) -> FieldView {
    FieldView {
        key,
        required: true,
        fault: match json::member(v, key) {
            Some(m) => flag_fault(m),
            None => None,
        },
    }
}

/// [`flag_field`], computed.
pub fn look_for_flag(v: &Json, key: &'static str) -> (r: Field)
    ensures
        r@ == flag_field(v@, key@),
{
    let fault = match v.get(key) {
        Some(Json::Bool(_)) => None,
        Some(m) => Some(invalid_type_text(m, "a boolean")),
        None => None,
    };
    Field { key, required: true, fault }
}

/// The member as a 64-bit count.
pub open spec fn u64_field(v: JsonView, key: Seq<char>) -> FieldView {
    FieldView {
        key,
        required: true,
        fault: match json::member(v, key) {
            Some(m) => count_fault(m, u64::MAX as int, "u64"@),
            None => None,
        },
    }
}

/// [`u64_field`], computed.
pub fn look_for_u64(v: &Json, key: &'static str) -> (r: Field)
    ensures
        r@ == u64_field(v@, key@),
{
    let fault = match v.get(key) {
        Some(m) => no_count(m, u64::MAX, "u64"),
        None => None,
    };
    Field { key, required: true, fault }
}

/// The member as a 32-bit count.
pub open spec fn u32_field(v: JsonView, key: Seq<char>) -> FieldView {
    FieldView {
        key,
        required: true,
        fault: match json::member(v, key) {
            Some(m) => count_fault(m, u32::MAX as int, "u32"@),
            None => None,
        },
    }
}

/// [`u32_field`], computed.
pub fn look_for_u32(v: &Json, key: &'static str) -> (r: Field)
    ensures
        r@ == u32_field(v@, key@),
{
    let fault = match v.get(key) {
        Some(m) => no_count(m, u32::MAX as u64, "u32"),
        None => None,
    };
    Field { key, required: true, fault }
}

/// The member as a 64-bit count that may be missing or `null`.
pub open spec fn opt_u64_field(v: JsonView, key: Seq<char>) -> FieldView {
    FieldView {
        key,
        required: false,
        fault: match json::member(v, key) {
            Some(m) => or_null(m, count_fault(m, u64::MAX as int, "u64"@)),
            None => None,
        },
    }
}

/// [`opt_u64_field`], computed.
pub fn look_for_opt_u64(v: &Json, key: &'static str) -> (r: Field)
    ensures
        r@ == opt_u64_field(v@, key@),
{
    let fault = match v.get(key) {
        Some(Json::Null) => None,
        Some(m) => no_count(m, u64::MAX, "u64"),
        None => None,
    };
    Field { key, required: false, fault }
}

/// The member as a 32-bit count that may be missing or `null`.
pub open spec fn opt_u32_field(v: JsonView, key: Seq<char>) -> FieldView {
    FieldView {
        key,
        required: false,
        fault: match json::member(v, key) {
            Some(m) => or_null(m, count_fault(m, u32::MAX as int, "u32"@)),
            None => None,
        },
    }
}

/// [`opt_u32_field`], computed.
pub fn look_for_opt_u32(v: &Json, key: &'static str) -> (r: Field)
    ensures
        r@ == opt_u32_field(v@, key@),
{
    let fault = match v.get(key) {
        Some(Json::Null) => None,
        Some(m) => no_count(m, u32::MAX as u64, "u32"),
        None => None,
    };
    Field { key, required: false, fault }
}

/// The member as a list of texts, which may or may not be missing.
pub open spec fn texts_field(v: JsonView, key: Seq<char>, required: bool) -> FieldView {
    FieldView {
        key,
        required,
        fault: match json::member(v, key) {
            Some(m) => texts_fault(m),
            None => None,
        },
    }
}

/// [`texts_field`], computed.
pub fn look_for_texts(v: &Json, key: &'static str, required: bool) -> (r: Field)
    ensures
        r@ == texts_field(v@, key@, required),
{
    let fault = match v.get(key) {
        Some(m) => no_texts(m),
        None => None,
    };
    Field { key, required, fault }
}

/// The member as one of some words.
pub open spec fn word_field(v: JsonView, key: Seq<char>, names: Seq<Seq<char>>) -> FieldView {
    FieldView {
        key,
        required: true,
        fault: match json::member(v, key) {
            Some(m) => word_fault(m, names),
            None => None,
        },
    }
}

/// [`word_field`], computed.
pub fn look_for_word(v: &Json, key: &'static str, names: &Vec<&'static str>) -> (r: Field)
    ensures
        r@ == word_field(v@, key@, spelled(names@)),
{
    let fault = match v.get(key) {
        Some(m) => no_word(m, names),
        None => None,
    };
    Field { key, required: true, fault }
}

/// The member as a word of any spelling.
pub open spec fn any_word_field(v: JsonView, key: Seq<char>) -> FieldView {
    FieldView {
        key,
        required: true,
        fault: match json::member(v, key) {
            Some(JsonView::Str(_)) => None,
            Some(m) => word_fault(m, Seq::empty()),
            None => None,
        },
    }
}

/// [`any_word_field`], computed.
pub fn look_for_any_word(v: &Json, key: &'static str) -> (r: Field)
    ensures
        r@ == any_word_field(v@, key@),
{
    let names: Vec<&'static str> = Vec::new();
    assert(spelled(names@) =~= Seq::empty());
    let fault = match v.get(key) {
        Some(Json::Str(_)) => None,
        Some(m) => no_word(m, &names),
        None => None,
    };
    Field { key, required: true, fault }
}

/// The member as any document.
pub open spec fn any_field(key: Seq<char>) -> FieldView {
    FieldView { key, required: true, fault: None }
}

/// [`any_field`], computed.
pub fn look_for_any(key: &'static str) -> (r: Field)
    ensures
        r@ == any_field(key@),
{
    Field { key, required: true, fault: None }
}

/// Whether a member is there if it must be, and is what it is to be.
pub open spec fn sound(v: JsonView, field: FieldView) -> bool {
    field.fault is None && (field.required ==> json::member(v, field.key) is Some)
}

/// Whether every member that a reader knows is sound.
pub open spec fn all_sound(v: JsonView, fields: Seq<FieldView>) -> bool {
    forall|i: int| 0 <= i < fields.len() ==> sound(v, #[trigger] fields[i])
}

/// The names that a reader knows.
pub open spec fn keys(fields: Seq<FieldView>) -> Seq<Seq<char>> {
    fields.map_values(|field: FieldView| field.key)
}

/// What is wrong with the member of a name: what the reader finds wrong with
/// it, or that the name is none it knows where it reads strictly.
pub open spec fn member_fault(
    fields: Seq<FieldView>,
    strict: bool,
    key: Seq<char>,
) -> Option<Seq<char>> {
    match first_of(
        fields.map_values(
            |field: FieldView|
                if field.key == key {
                    field.fault
                } else {
                    None
                },
        ),
    ) {
        Some(words) => Some(words),
        None => if strict && !keys(fields).contains(key) {
            Some(unknown("field"@, key, keys(fields)))
        } else {
            None
        },
    }
}

/// What is wrong with a document that is to be an object with some members:
/// the first bad member in the order in which they are written, else the
/// first that is missing in the order in which they are known.
pub open spec fn record_fault(
    v: JsonView,
    expected: Seq<char>,
    fields: Seq<FieldView>,
    strict: bool,
) -> Option<Seq<char>> {
    match v {
        JsonView::Object(members) => match first_of(
            members.order.map_values(|key: Seq<char>| member_fault(fields, strict, key)),
        ) {
            Some(words) => Some(words),
            None => first_of(
                fields.map_values(
                    |field: FieldView|
                        if field.required && json::member(v, field.key) is None {
                            Some(missing(field.key))
                        } else {
                            None
                        },
                ),
            ),
        },
        _ => Some(invalid_type(v, expected)),
    }
}

/// A document is faultless exactly where it is an object, every known member
/// is sound and, read strictly, no other is there.
pub proof fn lemma_record(
    v: JsonView,
    expected: Seq<char>,
    fields: Seq<FieldView>,
    strict: bool,
)
    requires
        v matches JsonView::Object(members) ==> members.orderly(),
        forall|i: int|
            #![trigger fields[i]]
            0 <= i < fields.len() && fields[i].fault is Some ==> json::member(v, fields[i].key)
                is Some,
    ensures
        record_fault(v, expected, fields, strict) is None <==> v is Object && all_sound(v, fields)
            && (strict ==> wire::only_has(v, keys(fields))),
{
    if let JsonView::Object(members) = v {
        let known = keys(fields);
        let by_member = members.order.map_values(
            |key: Seq<char>| member_fault(fields, strict, key),
        );
        let absent = fields.map_values(
            |field: FieldView|
                if field.required && json::member(v, field.key) is None {
                    Some(missing(field.key))
                } else {
                    None
                },
        );
        lemma_first_of(by_member);
        lemma_first_of(absent);
        if record_fault(v, expected, fields, strict) is None {
            assert forall|i: int| 0 <= i < fields.len() implies sound(v, #[trigger] fields[i]) by {
                assert(absent[i] is None);
                if fields[i].fault is Some {
                    let key = fields[i].key;
                    assert(members.order.contains(key));
                    let at = choose|at: int|
                        0 <= at < members.order.len() && members.order[at] == key;
                    assert(by_member[at] is None);
                    let faults = fields.map_values(
                        |field: FieldView|
                            if field.key == key {
                                field.fault
                            } else {
                                None
                            },
                    );
                    lemma_first_of(faults);
                    assert(faults[i] is Some);
                }
            }
            if strict {
                assert forall|k: Seq<char>| members.dom().contains(k) implies
                    #[trigger] known.contains(k) by {
                    assert(members.order.contains(k));
                    let at = choose|at: int|
                        0 <= at < members.order.len() && members.order[at] == k;
                    assert(by_member[at] is None);
                }
            }
        }
        if all_sound(v, fields) && (strict ==> wire::only_has(v, known)) {
            assert forall|i: int| 0 <= i < absent.len() implies #[trigger] absent[i] is None by {
                assert(sound(v, fields[i]));
            }
            assert forall|at: int| 0 <= at < by_member.len() implies #[trigger] by_member[at]
                is None by {
                let key = members.order[at];
                assert(members.order.contains(key));
                let faults = fields.map_values(
                    |field: FieldView|
                        if field.key == key {
                            field.fault
                        } else {
                            None
                        },
                );
                lemma_first_of(faults);
                assert forall|i: int| 0 <= i < faults.len() implies #[trigger] faults[i]
                    is None by {
                    assert(sound(v, fields[i]));
                }
                assert(members.dom().contains(key));
                assert(strict ==> known.contains(key));
            }
        }
    }
}

/// The fault of the first of some fields that have a name.
fn named_fault(fields: &Vec<Field>, strict: bool, key: &str) -> (r: Option<String>)
    ensures
        wire::opt_text(r) == member_fault(field_views(fields@), strict, key@),
{
    let ghost views = field_views(fields@);
    let ghost faults = views.map_values(
        |field: FieldView|
            if field.key == key@ {
                field.fault
            } else {
                None
            },
    );
    proof {
        lemma_first_of(faults);
    }
    let mut names: Vec<&'static str> = Vec::new();
    for i in 0..fields.len()
        invariant
            views == field_views(fields@),
            faults == views.map_values(
                |field: FieldView|
                    if field.key == key@ {
                        field.fault
                    } else {
                        None
                    },
            ),
            names@.len() == i,
            forall|j: int| 0 <= j < i ==> #[trigger] names@[j]@ == views[j].key,
            forall|j: int| 0 <= j < i ==> #[trigger] faults[j] is None,
            forall|j: int|
                0 <= j < faults.len() && #[trigger] faults[j] is Some && (forall|k: int|
                    0 <= k < j ==> #[trigger] faults[k] is None) ==> first_of(faults) == faults[j],
    {
        let field = &fields[i];
        assert(views[i as int] == field@);
        if text::same(field.key, key) {
            if let Some(words) = &field.fault {
                assert(faults[i as int] == Some(words@));
                return Some(words.clone());
            }
        }
        assert(faults[i as int] is None);
        names.push(field.key);
    }
    assert(spelled(names@) =~= keys(views));
    if strict && !is_listed(key, &names) {
        return Some(unknown_text("field", key, &names));
    }
    None
}

/// [`record_fault`], computed.
pub fn look_over(v: &Json, expected: &str, fields: &Vec<Field>, strict: bool) -> (r: Option<String>)
    ensures
        wire::opt_text(r) == record_fault(v@, expected@, field_views(fields@), strict),
{
    let ghost views = field_views(fields@);
    match v {
        Json::Object(members) => {
            let ghost whole = json::fields_view(members@);
            let ghost by_member = whole.order.map_values(
                |key: Seq<char>| member_fault(views, strict, key),
            );
            proof {
                lemma_first_of(by_member);
                assert(members@.take(0) =~= Seq::empty());
                json::lemma_fields(members@.take(0));
            }
            for i in 0..members.len()
                invariant
                    whole == json::fields_view(members@),
                    v@ == JsonView::Object(whole),
                    views == field_views(fields@),
                    by_member == whole.order.map_values(
                        |key: Seq<char>| member_fault(views, strict, key),
                    ),
                    forall|j: int|
                        0 <= j < json::fields_view(members@.take(i as int)).order.len()
                            ==> #[trigger] by_member[j] is None,
                    first_of(by_member) is None <==> forall|j: int|
                        0 <= j < by_member.len() ==> #[trigger] by_member[j] is None,
                    forall|j: int|
                        0 <= j < by_member.len() && #[trigger] by_member[j] is Some && (forall|
                            k: int,
                        |
                            0 <= k < j ==> #[trigger] by_member[k] is None) ==> first_of(by_member)
                            == by_member[j],
            {
                let ghost key = members@[i as int].0@;
                let ghost so_far = json::fields_view(members@.take(i as int));
                let fault = named_fault(fields, strict, members[i].0.as_str());
                proof {
                    let longer = members@.take(i + 1);
                    assert(longer.drop_last() =~= members@.take(i as int));
                    assert(longer.last() == members@[i as int]);
                    json::lemma_fields(longer);
                    json::lemma_order_grows(members@, i + 1);
                    json::lemma_order_grows(members@, i as int);
                    if so_far.order.contains(key) {
                        let at = choose|at: int|
                            0 <= at < so_far.order.len() && so_far.order[at] == key;
                        assert(whole.order[at] == key);
                        assert(by_member[at] is None);
                    } else {
                        let at = so_far.order.len() as int;
                        assert(json::fields_view(longer).order[at] == key);
                        assert(whole.order[at] == key);
                        assert(by_member[at] == wire::opt_text(fault));
                    }
                }
                if fault.is_some() {
                    return fault;
                }
            }
            assert(members@.take(members@.len() as int) =~= members@);
        },
        _ => return Some(invalid_type_text(v, expected)),
    }
    let ghost absent = views.map_values(
        |field: FieldView|
            if field.required && json::member(v@, field.key) is None {
                Some(missing(field.key))
            } else {
                None
            },
    );
    proof {
        lemma_first_of(absent);
    }
    for i in 0..fields.len()
        invariant
            views == field_views(fields@),
            absent == views.map_values(
                |field: FieldView|
                    if field.required && json::member(v@, field.key) is None {
                        Some(missing(field.key))
                    } else {
                        None
                    },
            ),
            record_fault(v@, expected@, views, strict) == first_of(absent),
            forall|j: int| 0 <= j < i ==> #[trigger] absent[j] is None,
            first_of(absent) is None <==> forall|j: int|
                0 <= j < absent.len() ==> #[trigger] absent[j] is None,
            forall|j: int|
                0 <= j < absent.len() && #[trigger] absent[j] is Some && (forall|k: int|
                    0 <= k < j ==> #[trigger] absent[k] is None) ==> first_of(absent) == absent[j],
    {
        let field = &fields[i];
        assert(views[i as int] == field@);
        if field.required && v.get(field.key).is_none() {
            assert(absent[i as int] == Some(missing(field.key@)));
            return Some(missing_text(field.key));
        }
        assert(absent[i as int] is None);
    }
    None
}

/// What is wrong with the tag of an object that is one of some variants.
pub open spec fn tag_fault(
    v: JsonView,
    expected: Seq<char>,
    tag: Seq<char>,
    names: Seq<Seq<char>>,
) -> Option<Seq<char>> {
    match v {
        JsonView::Object(_) => match json::member(v, tag) {
            None => Some(missing(tag)),
            Some(JsonView::Str(word)) => if names.contains(word) {
                None
            } else {
                Some(unknown("variant"@, word, names))
            },
            Some(m) => Some(invalid_type(m, "variant identifier"@)),
        },
        _ => Some(invalid_type(v, expected)),
    }
}

/// [`tag_fault`], computed.
pub fn look_at_tag(v: &Json, expected: &str, tag: &str, names: &Vec<&'static str>) -> (r: Option<
    String,
>)
    ensures
        wire::opt_text(r) == tag_fault(v@, expected@, tag@, spelled(names@)),
{
    match v {
        Json::Object(_) => match v.get(tag) {
            None => Some(missing_text(tag)),
            Some(Json::Str(word)) => if is_listed(word.as_str(), names) {
                None
            } else {
                Some(unknown_text("variant", word.as_str(), names))
            },
            Some(m) => Some(invalid_type_text(m, "variant identifier")),
        },
        _ => Some(invalid_type_text(v, expected)),
    }
}

/// The one fault, or else the other.
pub open spec fn or_else(first: Option<Seq<char>>, next: Option<Seq<char>>) -> Option<Seq<char>> {
    match first {
        Some(words) => Some(words),
        None => next,
    }
}

} // verus!
