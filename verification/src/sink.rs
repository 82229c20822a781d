//! The sink seam events flow through, and the redaction every event passes
//! before it reaches the log.

use crate::event::{self, RunEvent};
use crate::json::{self, Json};
use crate::scrub;
use crate::secrets::SecretEnv;
use crate::text;
use crate::wire;
use vstd::prelude::*;

verus! {

/// An event that could not be recorded. Fatal to a run: a loop whose audit
/// trail has holes must not keep going.
#[derive(Debug, Clone, PartialEq, Eq)]
pub struct EventSinkError(pub String);

impl EventSinkError {
    pub fn to_text(&self) -> (s: String)
        ensures
            s@ == "event sink failure: "@ + self.0@,
    {
        let mut s = "event sink failure: ".to_owned();
        s.append(self.0.as_str());
        s
    }
}

/// Where a kernel's events go: an append-only log in production, a vector in
/// tests. Serves exactly one run. Order is meaning: events land in the order
/// they were emitted.
pub trait EventSink: Sized {
    /// What has landed so far.
    spec fn landed(&self) -> Seq<event::EventView>;

    /// Whether the sink lets `given` land as `landing`.
    spec fn lands_as(&self, given: event::EventView, landing: event::EventView) -> bool;

    /// Whether emitting `given` may answer `r` and leave the sink as `after`.
    spec fn takes(
        &self,
        given: event::EventView,
        after: Self,
        r: Result<(), EventSinkError>,
    ) -> bool;

    /// Appends one event.
    fn emit(&mut self, event: RunEvent) -> (r: Result<(), EventSinkError>)
        ensures
            old(self).takes(event@, *final(self), r),
            match r {
                Ok(_) => exists|landing: event::EventView| #[trigger]
                    old(self).lands_as(event@, landing) && final(self).landed() == old(
                        self,
                    ).landed().push(landing),
                Err(_) => final(self).landed() == old(self).landed(),
            },
    ;
}

/// A document with every string and every member's name scrubbed, the members
/// in the order they had. Where two names become one, the member keeps the
/// place of the first and takes the value of the later.
pub open spec fn scrubbed_json(patterns: Seq<Seq<char>>, v: json::JsonView) -> json::JsonView
    decreases v, 0int,
{
    match v {
        json::JsonView::Str(s) => json::JsonView::Str(scrub::scrubbed(patterns, s)),
        json::JsonView::Array(items) => json::JsonView::Array(
            Seq::new(
                items.len(),
                |i: int|
                    if 0 <= i < items.len() {
                        scrubbed_json(patterns, items[i])
                    } else {
                        json::JsonView::Null
                    },
            ),
        ),
        json::JsonView::Object(fields) => json::JsonView::Object(
            scrubbed_members(patterns, fields, fields.order.len()),
        ),
        _ => v,
    }
}

/// The first `n` members of an object, scrubbed one after the other.
pub open spec fn scrubbed_members(
    patterns: Seq<Seq<char>>,
    fields: json::Members,
    n: nat,
) -> json::Members
    decreases fields, n,
{
    if n == 0 || n > fields.order.len() {
        json::Members::empty()
    } else {
        let name = fields.order[n - 1];
        scrubbed_members(patterns, fields, (n - 1) as nat).insert(
            scrub::scrubbed(patterns, name),
            if fields.dom().contains(name) {
                scrubbed_json(patterns, fields[name])
            } else {
                json::JsonView::Null
            },
        )
    }
}

/// Whether a field of the same name comes before the one at `at`.
fn named_before(fields: &Vec<(String, Json)>, at: usize) -> (r: bool)
    requires
        at < fields@.len(),
    ensures
        r <==> json::has_field(fields@.take(at as int), fields@[at as int].0@),
{
    let ghost earlier = fields@.take(at as int);
    for i in 0..at
        invariant
            at < fields@.len(),
            earlier == fields@.take(at as int),
            forall|j: int| 0 <= j < i ==> #[trigger] earlier[j].0@ != fields@[at as int].0@,
    {
        if text::same(fields[i].0.as_str(), fields[at].0.as_str()) {
            assert(earlier[i as int].0@ == fields@[at as int].0@);
            return true;
        }
    }
    false
}

/// The last field of the name that the one at `at` has.
fn latest(fields: &Vec<(String, Json)>, at: usize) -> (r: usize)
    requires
        at < fields@.len(),
    ensures
        r < fields@.len(),
        fields@[r as int].0@ == fields@[at as int].0@,
        json::fields_view(fields@)[fields@[at as int].0@] == fields@[r as int].1@,
{
    let mut last: usize = at;
    for i in at + 1..fields.len()
        invariant
            at <= last < fields@.len(),
            fields@[last as int].0@ == fields@[at as int].0@,
            forall|j: int| last < j < i ==> #[trigger] fields@[j].0@ != fields@[at as int].0@,
    {
        if text::same(fields[i].0.as_str(), fields[at].0.as_str()) {
            last = i;
        }
    }
    proof {
        json::lemma_latest(fields@, last as int);
    }
    last
}

/// Scrubs every string in the document, names included, because a stage
/// report is the agent's own JSON and an agent can name a field whatever it
/// printed.
pub fn scrub_json(secrets: &SecretEnv, value: &Json) -> (r: Json)
    ensures
        r@ == scrubbed_json(secrets.patterns(), value@),
    decreases value,
{
    match value {
        Json::Str(s) => Json::Str(secrets.scrub(s.as_str()).into_owned()),
        Json::Array(items) => {
            let mut out: Vec<Json> = Vec::new();
            for i in 0..items.len()
                invariant
                    *value == Json::Array(*items),
                    out@.len() == i,
                    forall|j: int|
                        0 <= j < i ==> #[trigger] out@[j]@ == scrubbed_json(
                            secrets.patterns(),
                            items@[j]@,
                        ),
                decreases items@.len() - i,
            {
                assert(decreases_to!(*value => value->Array_0));
                assert(decreases_to!(*items => items@));
                assert(decreases_to!(items@ => items@[i as int]));
                out.push(scrub_json(secrets, &items[i]));
            }
            proof {
                json::lemma_items(items@);
                json::lemma_items(out@);
                assert(json::items_view(out@) =~= scrubbed_json(
                    secrets.patterns(),
                    json::JsonView::Array(json::items_view(items@)),
                )->Array_0);
            }
            Json::Array(out)
        },
        Json::Object(fields) => {
            let mut out: Vec<(String, Json)> = Vec::new();
            let ghost whole = json::fields_view(fields@);
            proof {
                assert(fields@.take(0) =~= Seq::empty());
                json::lemma_fields(fields@.take(0));
                json::lemma_fields(out@);
            }
            for i in 0..fields.len()
                invariant
                    *value == Json::Object(*fields),
                    whole == json::fields_view(fields@),
                    json::fields_view(out@) == scrubbed_members(
                        secrets.patterns(),
                        whole,
                        json::fields_view(fields@.take(i as int)).order.len(),
                    ),
                decreases fields@.len() - i,
            {
                let ghost so_far = json::fields_view(fields@.take(i as int));
                let ghost key = fields@[i as int].0@;
                proof {
                    let longer = fields@.take(i + 1);
                    assert(longer.drop_last() =~= fields@.take(i as int));
                    assert(longer.last() == fields@[i as int]);
                    json::lemma_fields(longer);
                    json::lemma_members_are_orderly(fields@.take(i as int));
                    json::lemma_names(fields@.take(i as int), key);
                    json::lemma_order_grows(fields@, i + 1);
                    assert(so_far.order.contains(key) <==> so_far.dom().contains(key));
                }
                if !named_before(fields, i) {
                    let last: usize = latest(fields, i);
                    assert(decreases_to!(*value => value->Object_0));
                    assert(decreases_to!(*fields => fields@));
                    assert(decreases_to!(fields@ => fields@[last as int]));
                    assert(decreases_to!(fields@[last as int] => fields@[last as int].1));
                    let inner = scrub_json(secrets, &fields[last].1);
                    let name = secrets.scrub(fields[i].0.as_str());
                    wire::put(&mut out, name.as_str(), inner);
                    proof {
                        let at = so_far.order.len() as int;
                        assert(json::fields_view(fields@.take(i + 1)).order[at] == key);
                        assert(whole.order[at] == key);
                        assert(json::has_field(fields@, key));
                        json::lemma_names(fields@, key);
                    }
                }
            }
            assert(fields@.take(fields@.len() as int) =~= fields@);
            Json::Object(out)
        },
        _ => value.copy(),
    }
}

/// Whether an event lands as `landing` once its wire form is scrubbed: the
/// alternative would be a case for every variant and field, which the next
/// event added would silently escape.
pub open spec fn scrubs_event(
    patterns: Seq<Seq<char>>,
    given: event::EventView,
    landing: event::EventView,
) -> bool {
    event::as_event(
        scrubbed_json(patterns, json::JsonView::Object(event::event_fields(given))),
    ) == Some(landing)
}

/// The words for an event that scrubbing leaves no event of.
pub open spec fn unscrubbable(patterns: Seq<Seq<char>>, given: event::EventView) -> Seq<char> {
    let scrubbed = scrubbed_json(patterns, json::JsonView::Object(event::event_fields(given)));
    "cannot scrub event: "@ + (match event::event_fault(scrubbed) {
        Some(words) => words,
        None => Seq::empty(),
    })
}

/// Redacts secret values anywhere in an event, through its own wire form. A
/// run with no secrets pays nothing. Fails only where scrubbing leaves no
/// event: where a value spells a part of the wire form itself.
pub fn scrub_event(secrets: &SecretEnv, event: RunEvent) -> (r: Result<RunEvent, EventSinkError>)
    ensures
        secrets.patterns().len() == 0 ==> (r matches Ok(e) && e@ == event@),
        match event::as_event(
            scrubbed_json(
                secrets.patterns(),
                json::JsonView::Object(event::event_fields(event@)),
            ),
        ) {
            Some(scrubbed) => r matches Ok(e) && e@ == scrubbed,
            None => r matches Err(error) && error.0@ == unscrubbable(secrets.patterns(), event@),
        },
{
    let whole = event.to_json();
    proof {
        use_type_invariant(secrets);
        event::events_read_back(event@, event::event_fields(event@));
        json::every_document_is_orderly(whole);
        if secrets.patterns().len() == 0 {
            lemma_nothing_to_find(secrets.patterns(), whole@);
            a_document_without_a_secret_is_unchanged(secrets.patterns(), whole@);
        }
    }
    if secrets.is_empty() {
        return Ok(event);
    }
    let scrubbed = scrub_json(secrets, &whole);
    match RunEvent::from_json(&scrubbed) {
        Ok(event) => Ok(event),
        Err(error) => {
            let mut message = "cannot scrub event: ".to_owned();
            message.append(error.as_str());
            Err(EventSinkError(message))
        },
    }
}

/// Whether no secret value stands in any string or name of the document.
pub open spec fn json_free_of(patterns: Seq<Seq<char>>, v: json::JsonView) -> bool
    decreases v,
{
    match v {
        json::JsonView::Str(s) => scrub::free_of(patterns, s),
        json::JsonView::Array(items) => forall|i: int|
            #![trigger items[i]]
            0 <= i < items.len() ==> json_free_of(patterns, items[i]),
        json::JsonView::Object(fields) => {
            &&& forall|i: int|
                0 <= i < fields.order.len() ==> scrub::free_of(patterns, #[trigger] fields.order[i])
            &&& forall|k: Seq<char>|
                #![trigger fields.dom().contains(k)]
                fields.dom().contains(k) ==> scrub::free_of(patterns, k) && json_free_of(
                    patterns,
                    fields[k],
                )
        },
        _ => true,
    }
}

proof fn lemma_nothing_to_find(patterns: Seq<Seq<char>>, v: json::JsonView)
    requires
        patterns.len() == 0,
    ensures
        json_free_of(patterns, v),
    decreases v,
{
    match v {
        json::JsonView::Array(items) => {
            assert forall|i: int|
                #![trigger items[i]]
                0 <= i < items.len() implies json_free_of(patterns, items[i]) by {
                lemma_nothing_to_find(patterns, items[i]);
            }
        },
        json::JsonView::Object(fields) => {
            assert forall|k: Seq<char>| #[trigger] fields.dom().contains(k) implies json_free_of(
                patterns,
                fields[k],
            ) by {
                lemma_nothing_to_find(patterns, fields[k]);
            }
        },
        _ => {},
    }
}

/// Members in which no secret stands are kept as they are.
proof fn lemma_free_members_are_kept(patterns: Seq<Seq<char>>, fields: json::Members, n: nat)
    requires
        json_free_of(patterns, json::JsonView::Object(fields)),
        json::orderly(json::JsonView::Object(fields)),
        n <= fields.order.len(),
    ensures
        scrubbed_members(patterns, fields, n).order == fields.order.take(n as int),
        forall|k: Seq<char>| #[trigger]
            scrubbed_members(patterns, fields, n).values.dom().contains(k)
                <==> fields.order.take(n as int).contains(k),
        forall|k: Seq<char>| #[trigger]
            scrubbed_members(patterns, fields, n).values.dom().contains(k) ==> scrubbed_members(
                patterns,
                fields,
                n,
            ).values[k] == fields[k],
    decreases fields, n,
{
    if n > 0 {
        let name = fields.order[n - 1];
        let less = fields.order.take(n - 1);
        lemma_free_members_are_kept(patterns, fields, (n - 1) as nat);
        scrub::text_without_a_secret_is_unchanged(patterns, name);
        assert(fields.order.contains(name));
        assert(fields.dom().contains(name));
        a_document_without_a_secret_is_unchanged(patterns, fields[name]);
        assert(!less.contains(name)) by {
            if less.contains(name) {
                let at = choose|at: int| 0 <= at < less.len() && less[at] == name;
                assert(fields.order[at] == fields.order[n - 1]);
            }
        }
        let more = fields.order.take(n as int);
        assert(more =~= less.push(name));
        assert forall|k: Seq<char>| more.contains(k) <==> (#[trigger] less.contains(k) || k
            == name) by {
            if less.contains(k) {
                let at = choose|at: int| 0 <= at < less.len() && less[at] == k;
                assert(more[at] == k);
            }
            assert(more[n - 1] == name);
        }
    } else {
        assert(fields.order.take(0) =~= Seq::empty());
    }
}

/// Scrubbing a document in which no secret stands changes nothing.
pub proof fn a_document_without_a_secret_is_unchanged(
    patterns: Seq<Seq<char>>,
    v: json::JsonView,
)
    requires
        json_free_of(patterns, v),
        json::orderly(v),
    ensures
        scrubbed_json(patterns, v) == v,
    decreases v, 0nat,
{
    match v {
        json::JsonView::Str(s) => {
            scrub::text_without_a_secret_is_unchanged(patterns, s);
        },
        json::JsonView::Array(items) => {
            let out = scrubbed_json(patterns, v)->Array_0;
            assert forall|i: int| 0 <= i < items.len() implies items[i] == out[i] by {
                a_document_without_a_secret_is_unchanged(patterns, items[i]);
            }
            assert(items =~= out);
        },
        json::JsonView::Object(fields) => {
            let n = fields.order.len();
            let out = scrubbed_members(patterns, fields, n);
            lemma_free_members_are_kept(patterns, fields, n);
            assert(fields.order.take(n as int) =~= fields.order);
            assert forall|k: Seq<char>|
                #![trigger fields.values.dom().contains(k)]
                #![trigger out.values.dom().contains(k)]
                fields.values.dom().contains(k) == out.values.dom().contains(k) by {
                assert(fields.order.contains(k) <==> fields.dom().contains(k));
            }
            assert(fields.values =~= out.values);
        },
        _ => {},
    }
}

/// Scrubbed members hold no secret value.
proof fn lemma_scrubbed_members_are_free(patterns: Seq<Seq<char>>, fields: json::Members, n: nat)
    requires
        scrub::all_keep_clear(patterns),
    ensures
        json_free_of(
            patterns,
            json::JsonView::Object(scrubbed_members(patterns, fields, n)),
        ),
    decreases fields, n,
{
    if 0 < n <= fields.order.len() {
        let name = fields.order[n - 1];
        lemma_scrubbed_members_are_free(patterns, fields, (n - 1) as nat);
        scrub::scrubbed_text_holds_no_secret(patterns, name);
        if fields.dom().contains(name) {
            a_scrubbed_document_holds_no_secret(patterns, fields[name]);
        }
        let before = scrubbed_members(patterns, fields, (n - 1) as nat);
        let after = scrubbed_members(patterns, fields, n);
        assert forall|k: Seq<char>| #[trigger] after.dom().contains(k) implies scrub::free_of(
            patterns,
            k,
        ) && json_free_of(patterns, after[k]) by {
            if k != scrub::scrubbed(patterns, name) {
                assert(before.dom().contains(k));
            }
        }
        assert forall|i: int| 0 <= i < after.order.len() implies scrub::free_of(
            patterns,
            #[trigger] after.order[i],
        ) by {
            if i < before.order.len() {
                assert(after.order[i] == before.order[i]);
            }
        }
    }
}

/// A scrubbed document holds no secret value in any string or name, as long
/// as no value can run into a redaction mark.
pub proof fn a_scrubbed_document_holds_no_secret(patterns: Seq<Seq<char>>, v: json::JsonView)
    requires
        scrub::all_keep_clear(patterns),
    ensures
        json_free_of(patterns, scrubbed_json(patterns, v)),
    decreases v, 0nat,
{
    match v {
        json::JsonView::Str(s) => {
            scrub::scrubbed_text_holds_no_secret(patterns, s);
        },
        json::JsonView::Array(items) => {
            let out = scrubbed_json(patterns, v)->Array_0;
            assert forall|i: int|
                #![trigger out[i]]
                0 <= i < out.len() implies json_free_of(patterns, out[i]) by {
                a_scrubbed_document_holds_no_secret(patterns, items[i]);
            }
        },
        json::JsonView::Object(fields) => {
            lemma_scrubbed_members_are_free(patterns, fields, fields.order.len());
        },
        _ => {},
    }
}

/// An event in which no secret stands arrives as it was emitted.
pub proof fn an_event_without_a_secret_is_unchanged(
    patterns: Seq<Seq<char>>,
    given: event::EventView,
    landing: event::EventView,
)
    requires
        json::orderly(json::JsonView::Object(event::event_fields(given))),
        json_free_of(patterns, json::JsonView::Object(event::event_fields(given))),
        scrubs_event(patterns, given, landing),
    ensures
        landing == given,
{
    let whole = json::JsonView::Object(event::event_fields(given));
    a_document_without_a_secret_is_unchanged(patterns, whole);
    event::events_read_back(given, event::event_fields(given));
}

/// The sink a run's events actually go through: every known secret value
/// redacted before the event reaches the sink behind it. One wrapper rather
/// than a scrub at each site that builds an event, because the sites are the
/// leak.
pub struct ScrubbingSink<S: EventSink> {
    inner: S,
    secrets: SecretEnv,
}

impl<S: EventSink> ScrubbingSink<S> {
    /// The sink behind the scrub.
    pub closed spec fn behind(&self) -> S {
        self.inner
    }

    /// The values that are redacted.
    pub closed spec fn redacts(&self) -> Seq<Seq<char>> {
        self.secrets.patterns()
    }

    pub fn new(inner: S, secrets: SecretEnv) -> (r: ScrubbingSink<S>)
        ensures
            r.behind() == inner,
            r.redacts() == secrets.patterns(),
    {
        ScrubbingSink { inner, secrets }
    }

    /// The sink behind the scrub, given back.
    pub fn into_inner(self) -> (r: S)
        ensures
            r == self.behind(),
    {
        self.inner
    }
}

impl<S: EventSink> EventSink for ScrubbingSink<S> {
    closed spec fn landed(&self) -> Seq<event::EventView> {
        self.inner.landed()
    }

    open spec fn lands_as(&self, given: event::EventView, landing: event::EventView) -> bool {
        exists|scrubbed: event::EventView| #[trigger]
            scrubs_event(self.redacts(), given, scrubbed) && self.behind().lands_as(
                scrubbed,
                landing,
            )
    }

    /// The event is scrubbed; where that leaves one, the sink behind gets it
    /// and its answer is the answer, and where it leaves none, the sink
    /// behind gets nothing.
    open spec fn takes(
        &self,
        given: event::EventView,
        after: Self,
        r: Result<(), EventSinkError>,
    ) -> bool {
        &&& after.redacts() == self.redacts()
        &&& match event::as_event(
            scrubbed_json(self.redacts(), json::JsonView::Object(event::event_fields(given))),
        ) {
            Some(scrubbed) => self.behind().takes(scrubbed, after.behind(), r),
            None => after.behind() == self.behind() && (r matches Err(error) && error.0@
                == unscrubbable(self.redacts(), given)),
        }
    }

    fn emit(&mut self, event: RunEvent) -> (r: Result<(), EventSinkError>) {
        match scrub_event(&self.secrets, event) {
            Ok(scrubbed) => {
                let ghost middle = scrubbed@;
                let r = self.inner.emit(scrubbed);
                proof {
                    assert(scrubs_event(old(self).redacts(), event@, middle));
                    if r is Ok {
                        let landing = choose|landing: event::EventView| #[trigger]
                            old(self).inner.lands_as(middle, landing) && self.inner.landed() == old(
                                self,
                            ).inner.landed().push(landing);
                        assert(old(self).lands_as(event@, landing));
                    }
                }
                r
            },
            Err(error) => Err(error),
        }
    }
}

/// An event in which no secret stands reaches the sink behind the scrub as it
/// was emitted, and that sink's answer is the answer.
pub proof fn an_innocent_event_is_handed_on<S: EventSink>(
    sink: ScrubbingSink<S>,
    given: event::EventView,
    after: ScrubbingSink<S>,
    r: Result<(), EventSinkError>,
)
    requires
        json::orderly(json::JsonView::Object(event::event_fields(given))),
        json_free_of(sink.redacts(), json::JsonView::Object(event::event_fields(given))),
        sink.takes(given, after, r),
    ensures
        sink.behind().takes(given, after.behind(), r),
{
    let whole = json::JsonView::Object(event::event_fields(given));
    a_document_without_a_secret_is_unchanged(sink.redacts(), whole);
    event::events_read_back(given, event::event_fields(given));
}

} // verus!
