//! JSON documents: the tree the wire formats are read from and written to,
//! and its text form, which `serde_json` parses and prints.

use crate::text;
use vstd::prelude::*;

verus! {

/// A JSON document. An object lists its members in order; where a name
/// occurs twice the later member counts.
#[derive(Debug, PartialEq, Eq)]
pub enum Json {
    Null,
    Bool(bool),
    /// A whole number that is not negative.
    Uint(u64),
    /// A whole number, as a signed value.
    Int(i64),
    /// Any other number, carried as it was read.
    Float(Fraction),
    Str(String),
    Array(Vec<Json>),
    Object(Vec<(String, Json)>),
}

/// A number that is not whole, or too large for a whole one, as it was read.
/// Only reading a text gives one, so none ever stands for a whole number.
#[derive(Debug, PartialEq, Eq)]
pub struct Fraction {
    number: serde_json::Number,
}

impl Fraction {
    /// The same number, once more.
    pub fn copy(&self) -> (r: Fraction)
        ensures
            r == *self,
    {
        Fraction { number: self.number.clone() }
    }
}

/// What a document means: whole numbers by their value, objects by their
/// members.
#[verifier::ext_equal]
pub ghost enum JsonView {
    Null,
    Bool(bool),
    Number(int),
    Float(Fraction),
    Str(Seq<char>),
    Array(Seq<JsonView>),
    Object(Members),
}

/// The members of an object: the value each name has, and the names in the
/// order in which they are written.
#[verifier::ext_equal]
pub ghost struct Members {
    pub order: Seq<Seq<char>>,
    pub values: Map<Seq<char>, JsonView>,
}

impl Members {
    /// No members.
    pub open spec fn empty() -> Members {
        Members { order: Seq::empty(), values: Map::empty() }
    }

    /// One member more: a new name comes last, a known one keeps its place
    /// and takes the new value.
    pub open spec fn insert(self, key: Seq<char>, value: JsonView) -> Members {
        Members {
            order: if self.order.contains(key) {
                self.order
            } else {
                self.order.push(key)
            },
            values: self.values.insert(key, value),
        }
    }

    /// The names.
    pub open spec fn dom(self) -> Set<Seq<char>> {
        self.values.dom()
    }

    /// The value that a name has.
    pub open spec fn spec_index(self, key: Seq<char>) -> JsonView {
        self.values[key]
    }

    /// Whether the order holds the name of every member, and each once.
    pub open spec fn orderly(self) -> bool {
        &&& self.order.no_duplicates()
        &&& forall|k: Seq<char>| #[trigger] self.order.contains(k) <==> self.dom().contains(k)
    }

    /// Whether `more` has every one of these members, with the same value.
    pub open spec fn within(self, more: Members) -> bool {
        self.values.submap_of(more.values)
    }
}

impl Clone for Json {
    fn clone(&self) -> (r: Self)
        ensures
            r@ == self@,
    {
        self.copy()
    }
}

impl View for Json {
    type V = JsonView;

    open spec fn view(&self) -> JsonView
        decreases self,
    {
        match self {
            Json::Null => JsonView::Null,
            Json::Bool(b) => JsonView::Bool(*b),
            Json::Uint(n) => JsonView::Number(*n as int),
            Json::Int(n) => JsonView::Number(*n as int),
            Json::Float(n) => JsonView::Float(*n),
            Json::Str(s) => JsonView::Str(s@),
            Json::Array(items) => JsonView::Array(items_view(items@)),
            Json::Object(fields) => JsonView::Object(fields_view(fields@)),
        }
    }
}

/// The documents of a list.
pub open spec fn items_view(items: Seq<Json>) -> Seq<JsonView>
    decreases items,
{
    Seq::new(
        items.len(),
        |i: int|
            if 0 <= i < items.len() {
                items[i].view()
            } else {
                JsonView::Null
            },
    )
}

/// The members that a list makes, the later of two namesakes winning.
pub open spec fn fields_view(fields: Seq<(String, Json)>) -> Members
    decreases fields,
{
    if fields.len() == 0 {
        Members::empty()
    } else {
        fields_view(fields.drop_last()).insert(fields.last().0@, fields.last().1.view())
    }
}

/// Whether no number in the document is anything but a whole number.
pub open spec fn float_free(v: JsonView) -> bool
    decreases v,
{
    match v {
        JsonView::Float(_) => false,
        JsonView::Array(items) => forall|i: int|
            #![trigger items[i]]
            0 <= i < items.len() ==> float_free(items[i]),
        JsonView::Object(fields) => forall|k: Seq<char>|
            #![trigger fields.dom().contains(k)]
            fields.dom().contains(k) ==> float_free(fields[k]),
        _ => true,
    }
}

/// Whether at most `depth` arrays and objects stand inside one another.
pub open spec fn nested(v: JsonView, depth: nat) -> bool
    decreases depth,
{
    match v {
        JsonView::Array(items) => depth > 0 && forall|i: int|
            #![trigger items[i]]
            0 <= i < items.len() ==> nested(items[i], (depth - 1) as nat),
        JsonView::Object(fields) => depth > 0 && forall|k: Seq<char>|
            #![trigger fields.dom().contains(k)]
            fields.dom().contains(k) ==> nested(fields[k], (depth - 1) as nat),
        _ => true,
    }
}

/// Whether every object in the document writes each of its members once.
pub open spec fn orderly(v: JsonView) -> bool
    decreases v,
{
    match v {
        JsonView::Array(items) => forall|i: int|
            #![trigger items[i]]
            0 <= i < items.len() ==> orderly(items[i]),
        JsonView::Object(fields) => fields.orderly() && forall|k: Seq<char>|
            #![trigger fields.dom().contains(k)]
            fields.dom().contains(k) ==> orderly(fields[k]),
        _ => true,
    }
}

/// How many arrays and objects a parsed text may hold inside one another.
pub const PARSE_DEPTH: usize = 127;

/// Whether printing the document and parsing the text gives it back.
pub open spec fn portable(v: JsonView) -> bool {
    float_free(v) && nested(v, PARSE_DEPTH as nat)
}

/// A `serde_json` document, carried from one call to the next.
#[verifier::external_type_specification]
#[verifier::external_body]
pub struct ExValue(serde_json::Value);

/// A `serde_json` number, carried as it was read.
#[verifier::external_type_specification]
#[verifier::external_body]
pub struct ExNumber(serde_json::Number);

/// `serde_json::Number::clone`: an equal number.
pub assume_specification[ <serde_json::Number as Clone>::clone ](n: &serde_json::Number) -> (r:
    serde_json::Number)
    ensures
        r == *n,
;

/// What a `serde_json` document holds.
pub uninterp spec fn document(value: serde_json::Value) -> JsonView;

/// The document that `serde_json` reads from a text; none where it finds
/// the text malformed.
pub uninterp spec fn parsed(text: Seq<char>) -> Option<JsonView>;

/// What `serde_json` says of a text that it finds malformed: what is wrong,
/// and at which line and column.
pub uninterp spec fn malformed(text: Seq<char>) -> Seq<char>;

/// The text that `serde_json` prints for a document, on one line.
pub uninterp spec fn printed(v: JsonView) -> Seq<char>;

/// The text that `serde_json` prints for a document, indented.
pub uninterp spec fn pretty_printed(v: JsonView) -> Seq<char>;

/// `serde_json::from_str` into a document: the whole text is one JSON value,
/// or the error that says where it is not, as text.
#[verifier::external_body]
fn parse_value(text: &str) -> (r: Result<serde_json::Value, String>)
    ensures
        match r {
            Ok(value) => parsed(text@) == Some(document(value)),
            Err(error) => parsed(text@) is None && error@ == malformed(text@),
        },
{
    serde_json::from_str::<serde_json::Value>(text).map_err(|error| error.to_string())
}

/// A `serde_json::Value` taken apart, variant by variant: a number that
/// `as_u64` or `as_i64` gives is whole, any other is a [`Fraction`].
#[verifier::external_body]
fn from_value(value: serde_json::Value) -> (json: Json)
    ensures
        json@ == document(value),
{
    match value {
        serde_json::Value::Null => Json::Null,
        serde_json::Value::Bool(b) => Json::Bool(b),
        serde_json::Value::Number(n) => match (n.as_u64(), n.as_i64()) {
            (Some(n), _) => Json::Uint(n),
            (None, Some(n)) => Json::Int(n),
            (None, None) => Json::Float(Fraction { number: n }),
        },
        serde_json::Value::String(s) => Json::Str(s),
        serde_json::Value::Array(items) => Json::Array(items.into_iter().map(from_value).collect()),
        serde_json::Value::Object(fields) => Json::Object(
            fields.into_iter().map(|(k, v)| (k, from_value(v))).collect()),
    }
}

/// A `serde_json::Value` put together, variant by variant: collecting the
/// members of an object keeps their order, and of two namesakes the place of
/// the first and the value of the later. A [`Fraction`] holds no number that
/// is whole, so it comes back as one.
#[verifier::external_body]
fn to_value(json: &Json) -> (value: serde_json::Value)
    ensures
        document(value) == json@,
{
    match json {
        Json::Null => serde_json::Value::Null,
        Json::Bool(b) => serde_json::Value::Bool(*b),
        Json::Uint(n) => serde_json::Value::from(*n),
        Json::Int(n) => serde_json::Value::from(*n),
        Json::Float(n) => serde_json::Value::Number(n.number.clone()),
        Json::Str(s) => serde_json::Value::String(s.clone()),
        Json::Array(items) => serde_json::Value::Array(items.iter().map(to_value).collect()),
        Json::Object(fields) => serde_json::Value::Object(
            fields.iter().map(|(k, v)| (k.clone(), to_value(v))).collect()),
    }
}

/// `serde_json::Value`'s one-line text form: control characters inside
/// strings are escaped, so no line break and no carriage return stands in
/// it, and parsing it gives the document back, its members in the order in
/// which they were written, where every number is whole and the nesting
/// stays within what the parser admits.
#[verifier::external_body]
fn print_value(value: &serde_json::Value) -> (text: String)
    ensures
        text@ == printed(document(*value)),
        forall|i: int| 0 <= i < text@.len() ==> text@[i] != '\n' && text@[i] != '\r',
        portable(document(*value)) ==> parsed(text@) == Some(document(*value)),
{
    value.to_string()
}

/// Whether some text in the document, or the name of a member, holds a mark.
pub open spec fn spells(v: JsonView, mark: Seq<char>) -> bool
    decreases v,
{
    match v {
        JsonView::Str(s) => text::contains(s, mark),
        JsonView::Array(items) => exists|i: int|
            #![trigger items[i]]
            0 <= i < items.len() && spells(items[i], mark),
        JsonView::Object(fields) => {
            ||| exists|i: int|
                0 <= i < fields.order.len() && text::contains(#[trigger] fields.order[i], mark)
            ||| exists|k: Seq<char>|
                #![trigger fields.dom().contains(k)]
                fields.dom().contains(k) && spells(fields[k], mark)
        },
        _ => false,
    }
}

/// Whether a text begins with a number sign and holds nothing that is escaped
/// or quoted in a string of a printed document.
pub open spec fn is_mark(mark: Seq<char>) -> bool {
    &&& mark.len() > 0 && mark[0] == '#'
    &&& forall|i: int|
        0 <= i < mark.len() ==> #[trigger] mark[i] >= ' ' && mark[i] != '"' && mark[i] != '\\'
}

/// Whether the indented text of a document shows a mark only where some text
/// in the document does.
pub open spec fn quotes_plainly(v: JsonView) -> bool {
    forall|mark: Seq<char>|
        is_mark(mark) && !spells(v, mark) ==> !#[trigger] text::contains(pretty_printed(v), mark)
}

/// `serde_json`'s indented text form of a document, the alternate form of
/// its `Display`. A number sign stands in it only inside a string or a name,
/// where every character is written as it is but for quotes, backslashes and
/// control characters, so a mark that has none of these and begins with a
/// number sign stands in the text only where a string or a name holds it.
#[verifier::external_body]
fn pretty_value(value: &serde_json::Value) -> (text: String)
    ensures
        text@ == pretty_printed(document(*value)),
        forall|mark: Seq<char>|
            is_mark(mark) && !spells(document(*value), mark) ==> !#[trigger] text::contains(
                text@,
                mark,
            ),
{
    format!("{value:#}")
}

impl Json {
    /// Reads a document from a text that holds one JSON value.
    pub fn parse(text: &str) -> (r: Result<Json, String>)
        ensures
            match r {
                Ok(json) => parsed(text@) == Some(json@),
                Err(error) => parsed(text@) is None && error@ == malformed(text@),
            },
    {
        match parse_value(text) {
            Ok(value) => Ok(from_value(value)),
            Err(error) => Err(error),
        }
    }

    /// The document as one line of text.
    pub fn to_text(&self) -> (text: String)
        ensures
            text@ == printed(self@),
            forall|i: int| 0 <= i < text@.len() ==> text@[i] != '\n' && text@[i] != '\r',
            portable(self@) ==> parsed(text@) == Some(self@),
    {
        print_value(&to_value(self))
    }

    /// The document as indented text.
    pub fn to_pretty_text(&self) -> (text: String)
        ensures
            text@ == pretty_printed(self@),
            quotes_plainly(self@),
    {
        pretty_value(&to_value(self))
    }

    /// A copy of the document.
    pub fn copy(&self) -> (r: Json)
        ensures
            r@ == self@,
        decreases self,
    {
        match self {
            Json::Null => Json::Null,
            Json::Bool(b) => Json::Bool(*b),
            Json::Uint(n) => Json::Uint(*n),
            Json::Int(n) => Json::Int(*n),
            Json::Float(n) => Json::Float(n.copy()),
            Json::Str(s) => Json::Str(s.clone()),
            Json::Array(items) => {
                let mut copies: Vec<Json> = Vec::new();
                for i in 0..items.len()
                    invariant
                        *self == Json::Array(*items),
                        copies@.len() == i,
                        forall|j: int| 0 <= j < i ==> #[trigger] copies@[j]@ == items@[j]@,
                    decreases items@.len() - i,
                {
                    assert(decreases_to!(*self => self->Array_0));
                    assert(decreases_to!(*items => items@));
                    assert(decreases_to!(items@ => items@[i as int]));
                    copies.push(items[i].copy());
                }
                assert forall|j: int| 0 <= j < items@.len() implies items_view(copies@)[j]
                    == items_view(items@)[j] by {
                    assert(copies@[j]@ == items@[j]@);
                }
                assert(items_view(copies@) =~= items_view(items@));
                Json::Array(copies)
            },
            Json::Object(fields) => {
                let mut copies: Vec<(String, Json)> = Vec::new();
                assert(fields@.take(0) =~= copies@);
                for i in 0..fields.len()
                    invariant
                        *self == Json::Object(*fields),
                        copies@.len() == i,
                        fields_view(copies@) == fields_view(fields@.take(i as int)),
                    decreases fields@.len() - i,
                {
                    assert(decreases_to!(*self => self->Object_0));
                    assert(decreases_to!(*fields => fields@));
                    assert(decreases_to!(fields@ => fields@[i as int]));
                    assert(decreases_to!(fields@[i as int] => fields@[i as int].1));
                    let member: (String, Json) = (fields[i].0.clone(), fields[i].1.copy());
                    let ghost before = copies@;
                    copies.push(member);
                    assert(copies@.drop_last() =~= before);
                    assert(fields@.take(i + 1).drop_last() =~= fields@.take(i as int));
                }
                assert(fields@.take(fields@.len() as int) =~= fields@);
                Json::Object(copies)
            },
        }
    }

    /// The member named `key`, where the document is an object that has one.
    pub fn get(&self, key: &str) -> (r: Option<&Json>)
        ensures
            match r {
                Some(value) => member(self@, key@) == Some(value@),
                None => member(self@, key@) is None,
            },
    {
        match self {
            Json::Object(fields) => {
                let mut i: usize = fields.len();
                assert(fields@.take(i as int) =~= fields@);
                while i > 0
                    invariant
                        i <= fields@.len(),
                        lookup(fields_view(fields@), key@) == lookup(
                            fields_view(fields@.take(i as int)),
                            key@,
                        ),
                        *self == Json::Object(*fields),
                    decreases i,
                {
                    i = i - 1;
                    let ghost prefix = fields@.take(i + 1);
                    assert(prefix.drop_last() =~= fields@.take(i as int));
                    assert(prefix.last() == fields@[i as int]);
                    assert(fields_view(prefix) == fields_view(prefix.drop_last()).insert(
                        prefix.last().0@,
                        prefix.last().1@,
                    ));
                    if text::same(fields[i].0.as_str(), key) {
                        return Some(&fields[i].1);
                    }
                }
                None
            },
            _ => None,
        }
    }
}

/// The member of an object named `key`, where there is one.
pub open spec fn member(v: JsonView, key: Seq<char>) -> Option<JsonView> {
    match v {
        JsonView::Object(fields) => lookup(fields, key),
        _ => None,
    }
}

/// The value that the member `key` has, where there is one.
pub open spec fn lookup(fields: Members, key: Seq<char>) -> Option<JsonView> {
    if fields.dom().contains(key) {
        Some(fields[key])
    } else {
        None
    }
}

/// The documents of a list, one by one.
pub proof fn lemma_items(items: Seq<Json>)
    ensures
        items_view(items).len() == items.len(),
        forall|i: int| 0 <= i < items.len() ==> #[trigger] items_view(items)[i] == items[i]@,
{
}

/// The members of an object, taken from the last one back.
pub proof fn lemma_fields(fields: Seq<(String, Json)>)
    ensures
        fields.len() == 0 ==> fields_view(fields) == Members::empty(),
        fields.len() > 0 ==> fields_view(fields) == fields_view(fields.drop_last()).insert(
            fields.last().0@,
            fields.last().1@,
        ),
{
}

/// Whether some field of the list has a name.
pub open spec fn has_field(fields: Seq<(String, Json)>, k: Seq<char>) -> bool {
    exists|i: int| 0 <= i < fields.len() && #[trigger] fields[i].0@ == k
}

/// The members of a list are those that it names.
pub proof fn lemma_names(fields: Seq<(String, Json)>, k: Seq<char>)
    ensures
        fields_view(fields).dom().contains(k) <==> has_field(fields, k),
    decreases fields.len(),
{
    if fields.len() > 0 {
        let rest = fields.drop_last();
        lemma_names(rest, k);
        lemma_fields(fields);
        if has_field(rest, k) {
            let i = choose|i: int| 0 <= i < rest.len() && #[trigger] rest[i].0@ == k;
            assert(fields[i].0@ == k);
        }
        if has_field(fields, k) {
            let i = choose|i: int| 0 <= i < fields.len() && #[trigger] fields[i].0@ == k;
            if i < rest.len() {
                assert(rest[i].0@ == k);
            }
        }
        if k == fields.last().0@ {
            assert(fields[fields.len() - 1].0@ == k);
        }
    }
}

/// Of several fields of one name, the last is the member.
pub proof fn lemma_latest(fields: Seq<(String, Json)>, at: int)
    requires
        0 <= at < fields.len(),
        forall|i: int| at < i < fields.len() ==> #[trigger] fields[i].0@ != fields[at].0@,
    ensures
        fields_view(fields).dom().contains(fields[at].0@),
        fields_view(fields)[fields[at].0@] == fields[at].1@,
    decreases fields.len(),
{
    lemma_fields(fields);
    if at < fields.len() - 1 {
        let rest = fields.drop_last();
        assert forall|i: int| at < i < rest.len() implies #[trigger] rest[i].0@ != rest[at].0@ by {
            assert(fields[i].0@ != fields[at].0@);
        }
        lemma_latest(rest, at);
        assert(fields[fields.len() - 1].0@ != fields[at].0@);
    }
}

/// Where a name's last field stands.
proof fn lemma_has_latest(fields: Seq<(String, Json)>, k: Seq<char>) -> (at: int)
    requires
        has_field(fields, k),
    ensures
        0 <= at < fields.len(),
        fields[at].0@ == k,
        forall|i: int| at < i < fields.len() ==> #[trigger] fields[i].0@ != k,
    decreases fields.len(),
{
    if fields.last().0@ == k {
        fields.len() - 1
    } else {
        let rest = fields.drop_last();
        let i = choose|i: int| 0 <= i < fields.len() && #[trigger] fields[i].0@ == k;
        assert(rest[i].0@ == k);
        let at = lemma_has_latest(rest, k);
        assert forall|i: int| at < i < fields.len() implies #[trigger] fields[i].0@ != k by {
            if i < rest.len() {
                assert(rest[i].0@ != k);
            }
        }
        at
    }
}

/// The members of a list are written once each.
pub proof fn lemma_members_are_orderly(fields: Seq<(String, Json)>)
    ensures
        fields_view(fields).orderly(),
    decreases fields.len(),
{
    lemma_fields(fields);
    if fields.len() > 0 {
        let before = fields_view(fields.drop_last());
        let after = fields_view(fields);
        let key = fields.last().0@;
        lemma_members_are_orderly(fields.drop_last());
        assert forall|k: Seq<char>| #[trigger] after.order.contains(k) <==> after.dom().contains(
            k,
        ) by {
            assert(before.order.contains(k) <==> before.dom().contains(k));
            if before.order.contains(k) {
                let at = choose|at: int| 0 <= at < before.order.len() && before.order[at] == k;
                assert(after.order[at] == k);
            }
            if k == key && !before.order.contains(key) {
                assert(after.order[before.order.len() as int] == k);
            }
        }
        assert(after.order.no_duplicates());
    }
}

/// What a list begins with is written first.
pub proof fn lemma_order_grows(fields: Seq<(String, Json)>, n: int)
    requires
        0 <= n <= fields.len(),
    ensures
        fields_view(fields.take(n)).order.is_prefix_of(fields_view(fields).order),
    decreases fields.len(),
{
    if n == fields.len() {
        assert(fields.take(n) =~= fields);
    } else {
        lemma_fields(fields);
        lemma_order_grows(fields.drop_last(), n);
        assert(fields.drop_last().take(n) =~= fields.take(n));
    }
}

/// No document writes a member of an object twice: where a list has a name
/// twice, the later field only gives the member its value.
pub proof fn every_document_is_orderly(json: Json)
    ensures
        orderly(json@),
    decreases json,
{
    match json {
        Json::Array(list) => {
            lemma_items(list@);
            assert forall|i: int|
                #![trigger items_view(list@)[i]]
                0 <= i < items_view(list@).len() implies orderly(items_view(list@)[i]) by {
                assert(decreases_to!(json => json->Array_0));
                assert(decreases_to!(list => list@));
                assert(decreases_to!(list@ => list@[i]));
                every_document_is_orderly(list@[i]);
            }
        },
        Json::Object(fields) => {
            lemma_members_are_orderly(fields@);
            let members = fields_view(fields@);
            assert forall|k: Seq<char>| #[trigger] members.dom().contains(k) implies orderly(
                members[k],
            ) by {
                lemma_names(fields@, k);
                let at = lemma_has_latest(fields@, k);
                lemma_latest(fields@, at);
                assert(decreases_to!(json => json->Object_0));
                assert(decreases_to!(fields => fields@));
                assert(decreases_to!(fields@ => fields@[at]));
                assert(decreases_to!(fields@[at] => fields@[at].1));
                every_document_is_orderly(fields@[at].1);
            }
        },
        _ => {},
    }
}

} // verus!
