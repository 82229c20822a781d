//! Secrets: flows reference names, values exist only where the daemon runs.
//!
//! Resolution happens once, at submit: the host reads the flow's names and
//! the adapter's requirements through its store, one question at a time as
//! [`Resolution`] puts them, and hands the kernel a [`SecretEnv`]. Resolving
//! up front puts a provisioning gap in the submit's own answer, which is
//! where a human can act on it.

use crate::scrub::{scrub, Scrubbed, StreamScrubber};
use crate::text;
use vstd::prelude::*;

verus! {

/// The name a secret is provisioned under.
#[derive(Debug, Clone, PartialEq, Eq, Hash, PartialOrd, Ord)]
pub struct SecretName {
    name: String,
}

impl View for SecretName {
    type V = Seq<char>;

    closed spec fn view(&self) -> Seq<char> {
        self.name@
    }
}

impl SecretName {
    pub fn new(name: &str) -> (r: SecretName)
        ensures
            r@ == name@,
    {
        SecretName { name: name.to_owned() }
    }

    pub fn as_str(&self) -> (s: &str)
        ensures
            s@ == self@,
    {
        self.name.as_str()
    }

    /// The same name, once more.
    pub fn copy(&self) -> (r: SecretName)
        ensures
            r@ == self@,
    {
        SecretName { name: self.name.clone() }
    }
}

/// A resolved secret value. It has no printed form of its own, so a value
/// cannot slip into an event log or an error message.
#[derive(Clone, PartialEq, Eq)]
pub struct SecretValue {
    value: String,
}

impl View for SecretValue {
    type V = Seq<char>;

    closed spec fn view(&self) -> Seq<char> {
        self.value@
    }
}

impl SecretValue {
    pub fn new(value: &str) -> (r: SecretValue)
        ensures
            r@ == value@,
    {
        SecretValue { value: value.to_owned() }
    }

    /// The only way to read the value: search for `expose` to audit every
    /// point where a secret leaves its wrapper.
    pub fn expose(&self) -> (s: &str)
        ensures
            s@ == self@,
    {
        self.value.as_str()
    }

    /// How the value shows in a trace: not at all.
    pub fn debug_text(&self) -> (s: String)
        ensures
            s@ == "SecretValue(<redacted>)"@,
    {
        "SecretValue(<redacted>)".to_owned()
    }

    /// The same value, once more.
    pub fn copy(&self) -> (r: SecretValue)
        ensures
            r@ == self@,
    {
        SecretValue { value: self.value.clone() }
    }
}

/// One secret an adapter cannot run without, stated as the names that
/// satisfy it: built from a primary name so the set is never empty, and
/// ordered, so an operator who has several provisioned gets the adapter's
/// preferred credential.
#[derive(Debug, Clone, PartialEq, Eq)]
pub struct SecretRequirement {
    primary: SecretName,
    alternatives: Vec<SecretName>,
}

/// The texts of a list of names.
pub open spec fn name_texts(names: Seq<SecretName>) -> Seq<Seq<char>> {
    names.map_values(|name: SecretName| name@)
}

impl View for SecretRequirement {
    type V = Seq<Seq<char>>;

    /// Every name that satisfies the requirement, in preference order.
    closed spec fn view(&self) -> Seq<Seq<char>> {
        seq![self.primary@] + name_texts(self.alternatives@)
    }
}

impl SecretRequirement {
    /// A requirement only this name satisfies.
    pub fn named(name: &str) -> (r: SecretRequirement)
        ensures
            r@ == seq![name@],
    {
        let r = SecretRequirement { primary: SecretName::new(name), alternatives: Vec::new() };
        assert(r@ =~= seq![name@]);
        r
    }

    /// Widens the requirement: this name satisfies it too, tried after the
    /// ones already declared.
    pub fn or(self, alternative: &str) -> (r: SecretRequirement)
        ensures
            r@ == self@.push(alternative@),
    {
        let mut r = self;
        r.alternatives.push(SecretName::new(alternative));
        assert(r@ =~= self@.push(alternative@));
        r
    }

    /// Every name that satisfies this requirement, in preference order.
    /// Never empty.
    pub fn names(&self) -> (r: Vec<SecretName>)
        ensures
            name_texts(r@) == self@,
            r@.len() >= 1,
    {
        let mut r: Vec<SecretName> = Vec::new();
        r.push(self.primary.copy());
        for i in 0..self.alternatives.len()
            invariant
                r@.len() == i + 1,
                r@[0]@ == self.primary@,
                forall|j: int| 0 <= j < i ==> #[trigger] r@[j + 1]@ == self.alternatives@[j]@,
        {
            r.push(self.alternatives[i].copy());
        }
        assert forall|j: int| 0 <= j < r@.len() implies #[trigger] name_texts(r@)[j]
            == self@[j] by {
            if j > 0 {
                assert(r@[(j - 1) + 1]@ == self.alternatives@[j - 1]@);
            }
        }
        assert(name_texts(r@) =~= self@);
        r
    }

    /// The alternatives as an error message a human has to act on lists
    /// them: `ANTHROPIC_API_KEY or CLAUDE_CODE_OAUTH_TOKEN`.
    pub fn to_text(&self) -> (s: String)
        ensures
            s@ == text::joined(self@, " or "@),
    {
        let names = self.names();
        let mut parts: Vec<String> = Vec::new();
        for i in 0..names.len()
            invariant
                parts@.len() == i,
                forall|j: int| 0 <= j < i ==> #[trigger] parts@[j]@ == names@[j]@,
        {
            parts.push(names[i].as_str().to_owned());
        }
        assert(text::texts(parts@) =~= name_texts(names@));
        text::join(&parts, " or ")
    }

    /// The same requirement, once more.
    pub fn copy(&self) -> (r: SecretRequirement)
        ensures
            r@ == self@,
    {
        let mut alternatives: Vec<SecretName> = Vec::new();
        for i in 0..self.alternatives.len()
            invariant
                alternatives@.len() == i,
                forall|j: int|
                    0 <= j < i ==> #[trigger] alternatives@[j]@ == self.alternatives@[j]@,
        {
            alternatives.push(self.alternatives[i].copy());
        }
        let r = SecretRequirement { primary: self.primary.copy(), alternatives };
        assert(r@ =~= self@);
        r
    }
}

/// The map that a list of variables makes, the later of two namesakes
/// winning.
pub open spec fn vars_view(vars: Seq<(String, SecretValue)>) -> Map<Seq<char>, Seq<char>>
    decreases vars.len(),
{
    if vars.len() == 0 {
        Map::empty()
    } else {
        vars_view(vars.drop_last()).insert(vars.last().0@, vars.last().1@)
    }
}

/// The same variables, once more.
pub fn copied_vars(vars: &Vec<(String, SecretValue)>) -> (r: Vec<(String, SecretValue)>)
    ensures
        vars_view(r@) == vars_view(vars@),
{
    let mut r: Vec<(String, SecretValue)> = Vec::new();
    assert(vars@.take(0) =~= Seq::empty());
    for i in 0..vars.len()
        invariant
            vars_view(r@) == vars_view(vars@.take(i as int)),
    {
        let ghost before = r@;
        r.push((vars[i].0.clone(), vars[i].1.copy()));
        assert(r@.drop_last() =~= before);
        assert(vars@.take(i + 1).drop_last() =~= vars@.take(i as int));
    }
    assert(vars@.take(vars@.len() as int) =~= vars@);
    r
}

/// Whether `a` is scrubbed before `b`: longer values first, values of one
/// length in the order of their characters.
pub open spec fn ahead(a: Seq<char>, b: Seq<char>) -> bool {
    let m = vstd::utf8::encode_utf8(a).len();
    let n = vstd::utf8::encode_utf8(b).len();
    m > n || (m == n && text::precedes(a, b))
}

/// Whether a list of values stands in the order in which they are scrubbed,
/// none of them twice.
pub open spec fn in_scrub_order(patterns: Seq<String>) -> bool {
    forall|i: int, j: int|
        0 <= i < j < patterns.len() ==> ahead(#[trigger] patterns[i]@, #[trigger] patterns[j]@)
}

/// [`ahead`], computed.
fn is_ahead(a: &String, b: &String) -> (r: bool)
    ensures
        r == ahead(a@, b@),
{
    let m: usize = a.as_str().as_bytes().len();
    let n: usize = b.as_str().as_bytes().len();
    m > n || (m == n && text::comes_before(a.as_str(), b.as_str()))
}

proof fn lemma_ahead_orders(a: Seq<char>, b: Seq<char>)
    ensures
        !(ahead(a, b) && ahead(b, a)),
        a != b ==> ahead(a, b) || ahead(b, a),
        a == b ==> !ahead(a, b),
{
    text::lemma_precedes_orders(a, b);
}

proof fn lemma_ahead_chains(a: Seq<char>, b: Seq<char>, c: Seq<char>)
    requires
        ahead(a, b),
        ahead(b, c),
    ensures
        ahead(a, c),
{
    if text::precedes(a, b) && text::precedes(b, c) {
        text::lemma_precedes_chains(a, b, c);
    }
}

/// Puts `value` into its place among `patterns`, unless it is there.
fn place(patterns: &mut Vec<String>, value: String)
    requires
        in_scrub_order(old(patterns)@),
    ensures
        in_scrub_order(final(patterns)@),
        forall|words: Seq<char>|
            text::listed(final(patterns)@, words) <==> text::listed(old(patterns)@, words) || words
                == value@,
{
    let ghost before = patterns@;
    let mut at: usize = 0;
    while at < patterns.len() && is_ahead(&patterns[at], &value)
        invariant
            patterns@ == before,
            at <= before.len(),
            forall|i: int| 0 <= i < at ==> ahead(#[trigger] before[i]@, value@),
        decreases before.len() - at,
    {
        at = at + 1;
    }
    if at < patterns.len() && text::same(patterns[at].as_str(), value.as_str()) {
        assert(before[at as int]@ == value@);
        return;
    }
    proof {
        assert forall|i: int| at <= i < before.len() implies ahead(
            value@,
            #[trigger] before[i]@,
        ) by {
            lemma_ahead_orders(before[at as int]@, value@);
            if i > at {
                lemma_ahead_chains(value@, before[at as int]@, before[i]@);
            }
        }
    }
    patterns.insert(at, value);
    proof {
        let after = patterns@;
        assert forall|i: int, j: int| 0 <= i < j < after.len() implies ahead(
            #[trigger] after[i]@,
            #[trigger] after[j]@,
        ) by {
            let x = if i < at {
                before[i]@
            } else if i == at {
                value@
            } else {
                before[i - 1]@
            };
            assert(after[i]@ == x);
            if j > at {
                assert(after[j] == before[j - 1]);
            }
        }
        assert forall|words: Seq<char>|
            text::listed(after, words) <==> text::listed(before, words) || words == value@ by {
            if text::listed(before, words) {
                let i = choose|i: int| 0 <= i < before.len() && #[trigger] before[i]@ == words;
                if i < at {
                    assert(after[i]@ == words);
                } else {
                    assert(after[i + 1]@ == words);
                }
            }
            if words == value@ {
                assert(after[at as int]@ == words);
            }
            if text::listed(after, words) {
                let i = choose|i: int| 0 <= i < after.len() && #[trigger] after[i]@ == words;
                if i < at {
                    assert(before[i]@ == words);
                } else if i > at {
                    assert(before[i - 1]@ == words);
                }
            }
        }
    }
}

/// One run's resolved secrets: the environment its sandboxes are built with
/// and, because the same values are what must never reach the event log, the
/// single thing that knows how to scrub them out of text.
pub struct SecretEnv {
    values: Vec<(String, SecretValue)>,
    patterns: Vec<String>,
}

/// Whether `words` is one of the values that can be looked for: an empty
/// value stands everywhere, and looking for it would hide nothing.
pub open spec fn is_pattern(vars: Map<Seq<char>, Seq<char>>, words: Seq<char>) -> bool {
    words.len() > 0 && exists|name: Seq<char>| #[trigger] vars.dom().contains(name) && vars[name]
        == words
}

/// Whether each name occurs once in a list of variables.
pub open spec fn names_differ(vars: Seq<(String, SecretValue)>) -> bool {
    forall|i: int, j: int|
        0 <= i < j < vars.len() ==> #[trigger] vars[i].0@ != #[trigger] vars[j].0@
}

/// Whether a list of variables stands in the order of their names.
pub open spec fn by_name(vars: Seq<(String, SecretValue)>) -> bool {
    forall|i: int, j: int|
        0 <= i < j < vars.len() ==> text::precedes(#[trigger] vars[i].0@, #[trigger] vars[j].0@)
}

proof fn lemma_ordered_names_differ(vars: Seq<(String, SecretValue)>)
    requires
        by_name(vars),
    ensures
        names_differ(vars),
{
    assert forall|i: int, j: int| 0 <= i < j < vars.len() implies #[trigger] vars[i].0@
        != #[trigger] vars[j].0@ by {
        text::lemma_precedes_orders(vars[i].0@, vars[j].0@);
    }
}

impl SecretEnv {
    /// The environment: what each variable holds.
    pub closed spec fn env(&self) -> Map<Seq<char>, Seq<char>> {
        vars_view(self.values@)
    }

    /// The values that scrubbing looks for, in the order it takes them.
    pub closed spec fn patterns(&self) -> Seq<Seq<char>> {
        text::texts(self.patterns@)
    }

    /// Whether the variables stand by name, and the values looked for are
    /// those of the environment, in scrubbing order.
    #[verifier::type_invariant]
    pub closed spec fn well_formed(&self) -> bool {
        &&& by_name(self.values@)
        &&& in_scrub_order(self.patterns@)
        &&& forall|words: Seq<char>|
            text::listed(self.patterns@, words) <==> is_pattern(self.env(), words)
    }

    /// Builds the environment from resolved values, keyed by the variable
    /// each is injected as; a later value of one name replaces an earlier.
    pub fn new(values: Vec<(String, SecretValue)>) -> (r: SecretEnv)
        ensures
            r.well_formed(),
            r.env() == vars_view(values@),
    {
        let values = keep_latest(values);
        let mut patterns: Vec<String> = Vec::new();
        for i in 0..values.len()
            invariant
                in_scrub_order(patterns@),
                forall|words: Seq<char>|
                    text::listed(patterns@, words) <==> words.len() > 0 && has_value(
                        values@.take(i as int),
                        words,
                    ),
        {
            let ghost before = patterns@;
            let value = values[i].1.expose();
            let ghost seen = values@.take(i as int);
            let ghost more = values@.take(i + 1);
            if !value.is_empty() {
                place(&mut patterns, value.to_owned());
            }
            proof {
                vstd::utf8::encode_utf8_decode_utf8(value@);
                if value@.len() == 0 {
                    assert(value@ =~= Seq::empty());
                }
                assert forall|words: Seq<char>|
                    text::listed(patterns@, words) <==> words.len() > 0 && has_value(
                        more,
                        words,
                    ) by {
                    if has_value(seen, words) {
                        let k = choose|k: int| 0 <= k < seen.len() && #[trigger] seen[k].1@
                            == words;
                        assert(more[k].1@ == words);
                    }
                    if words == value@ {
                        assert(more[i as int].1@ == words);
                    }
                    if has_value(more, words) {
                        let k = choose|k: int| 0 <= k < more.len() && #[trigger] more[k].1@
                            == words;
                        if k < i {
                            assert(seen[k].1@ == words);
                        }
                    }
                }
            }
        }
        assert(values@.take(values@.len() as int) =~= values@);
        proof {
            lemma_ordered_names_differ(values@);
            assert forall|words: Seq<char>|
                text::listed(patterns@, words) <==> is_pattern(vars_view(values@), words) by {
                lemma_values_of_view(values@, words);
            }
        }
        SecretEnv { values, patterns }
    }

    /// The environment variables a sandbox is built with.
    pub fn vars(&self) -> (r: &Vec<(String, SecretValue)>)
        ensures
            vars_view(r@) == self.env(),
            self.well_formed() ==> by_name(r@),
    {
        &self.values
    }

    /// The value of one variable.
    pub fn get(&self, name: &str) -> (r: Option<&SecretValue>)
        ensures
            match r {
                Some(value) => self.env().dom().contains(name@) && self.env()[name@] == value@,
                None => !self.env().dom().contains(name@),
            },
    {
        let mut i: usize = self.values.len();
        assert(self.values@.take(i as int) =~= self.values@);
        while i > 0
            invariant
                i <= self.values@.len(),
                vars_view(self.values@.take(i as int)).dom().contains(name@)
                    == self.env().dom().contains(name@),
                self.env().dom().contains(name@) ==> vars_view(self.values@.take(i as int))[name@]
                    == self.env()[name@],
            decreases i,
        {
            i = i - 1;
            let ghost prefix = self.values@.take(i + 1);
            assert(prefix.drop_last() =~= self.values@.take(i as int));
            assert(prefix.last() == self.values@[i as int]);
            assert(vars_view(prefix) == vars_view(prefix.drop_last()).insert(
                prefix.last().0@,
                prefix.last().1@,
            ));
            if text::same(self.values[i].0.as_str(), name) {
                return Some(&self.values[i].1);
            }
        }
        None
    }

    /// Whether there is nothing to inject and nothing to scrub.
    pub fn is_empty(&self) -> (r: bool)
        ensures
            r ==> self.env() == Map::<Seq<char>, Seq<char>>::empty(),
            self.env() == Map::<Seq<char>, Seq<char>>::empty() ==> r,
            r && self.well_formed() ==> self.patterns() == Seq::<Seq<char>>::empty(),
    {
        proof {
            if self.values@.len() > 0 {
                assert(self.env().dom().contains(self.values@.last().0@));
            } else {
                assert(self.env() == Map::<Seq<char>, Seq<char>>::empty());
                if self.well_formed() && self.patterns@.len() > 0 {
                    assert(text::listed(self.patterns@, self.patterns@[0]@));
                    assert(is_pattern(self.env(), self.patterns@[0]@));
                }
                assert(self.well_formed() ==> self.patterns() =~= Seq::empty());
            }
        }
        self.values.len() == 0
    }

    /// Replaces every known secret value in `words` with
    /// [`crate::scrub::REDACTED`]; borrowed back untouched where none
    /// stands in it.
    pub fn scrub<'t>(&self, words: &'t str) -> (r: Scrubbed<'t>)
        ensures
            r.words() == crate::scrub::scrubbed(self.patterns(), words@),
            r is Borrowed <==> crate::scrub::free_of(self.patterns(), words@),
    {
        scrub(&self.patterns, words)
    }

    /// A scrubber for text that arrives in chunks.
    pub fn stream_scrubber(&self) -> (r: StreamScrubber)
        ensures
            r.patterns() == self.patterns(),
            r.held() == Seq::<char>::empty(),
    {
        StreamScrubber::new(text::copied_all(&self.patterns))
    }

    /// How the environment shows in a trace: its names, quoted and in order,
    /// without the values.
    pub fn debug_text(&self) -> (s: String)
        ensures
            s@ == "SecretEnv { names: ["@ + text::joined(
                self.names_shown().map_values(|name: Seq<char>| text::debug_quoted(name)),
                ", "@,
            ) + "], .. }"@,
            self.well_formed() ==> is_listing(self.names_shown(), self.env()),
    {
        let mut names: Vec<String> = Vec::new();
        for i in 0..self.values.len()
            invariant
                names@.len() == i,
                forall|j: int|
                    0 <= j < i ==> #[trigger] names@[j]@ == text::debug_quoted(self.values@[j].0@),
        {
            names.push(text::quote(self.values[i].0.as_str()));
        }
        assert(text::texts(names@) =~= self.names_shown().map_values(
            |name: Seq<char>| text::debug_quoted(name),
        ));
        proof {
            if self.well_formed() {
                lemma_listing(self.values@);
            }
        }
        let mut s = "SecretEnv { names: [".to_owned();
        let list = text::join(&names, ", ");
        s.append(list.as_str());
        s.append("], .. }");
        s
    }

    /// The names of the variables, in order.
    pub closed spec fn names_shown(&self) -> Seq<Seq<char>> {
        self.values@.map_values(|v: (String, SecretValue)| v.0@)
    }
}

/// Whether `names` are the names of `vars`, each once and in order.
pub open spec fn is_listing(names: Seq<Seq<char>>, vars: Map<Seq<char>, Seq<char>>) -> bool {
    &&& forall|i: int, j: int|
        0 <= i < j < names.len() ==> text::precedes(#[trigger] names[i], #[trigger] names[j])
    &&& forall|name: Seq<char>| names.contains(name) <==> #[trigger] vars.dom().contains(name)
}

proof fn lemma_listing(vars: Seq<(String, SecretValue)>)
    requires
        by_name(vars),
    ensures
        is_listing(vars.map_values(|v: (String, SecretValue)| v.0@), vars_view(vars)),
{
    let names = vars.map_values(|v: (String, SecretValue)| v.0@);
    assert forall|name: Seq<char>| names.contains(name) <==> #[trigger] vars_view(
        vars,
    ).dom().contains(name) by {
        lemma_view_names(vars, name);
        if names.contains(name) {
            let i = choose|i: int| 0 <= i < names.len() && names[i] == name;
            assert(vars[i].0@ == name);
        }
        if has_name(vars, name) {
            let i = choose|i: int| 0 <= i < vars.len() && #[trigger] vars[i].0@ == name;
            assert(names[i] == name);
        }
    }
    assert forall|i: int, j: int| 0 <= i < j < names.len() implies text::precedes(
        #[trigger] names[i],
        #[trigger] names[j],
    ) by {
        assert(names[i] == vars[i].0@ && names[j] == vars[j].0@);
    }
}

/// What scrubbing looks for is exactly what the environment holds, empty
/// values apart.
pub proof fn the_patterns_are_the_values(env: SecretEnv)
    requires
        env.well_formed(),
    ensures
        forall|words: Seq<char>|
            env.patterns().contains(words) <==> #[trigger] is_pattern(env.env(), words),
{
    assert forall|words: Seq<char>|
        env.patterns().contains(words) <==> #[trigger] is_pattern(env.env(), words) by {
        assert(text::listed(env.patterns@, words) <==> is_pattern(env.env(), words));
        if env.patterns().contains(words) {
            let i = choose|i: int| 0 <= i < env.patterns().len() && env.patterns()[i] == words;
            assert(env.patterns@[i]@ == words);
        }
        if text::listed(env.patterns@, words) {
            let i = choose|i: int| 0 <= i < env.patterns@.len() && #[trigger] env.patterns@[i]@
                == words;
            assert(env.patterns()[i] == words);
        }
    }
}

/// Longer values are looked for first, values of one length in the order of
/// their characters: a value that holds another is redacted whole.
pub proof fn longer_values_come_first(env: SecretEnv)
    requires
        env.well_formed(),
    ensures
        forall|i: int, j: int|
            0 <= i < j < env.patterns().len() ==> ahead(
                #[trigger] env.patterns()[i],
                #[trigger] env.patterns()[j],
            ),
        forall|i: int, j: int|
            0 <= i < j < env.patterns().len() ==> vstd::utf8::encode_utf8(
                #[trigger] env.patterns()[i],
            ).len() >= vstd::utf8::encode_utf8(#[trigger] env.patterns()[j]).len(),
{
    assert forall|i: int, j: int| 0 <= i < j < env.patterns().len() implies ahead(
        #[trigger] env.patterns()[i],
        #[trigger] env.patterns()[j],
    ) by {
        assert(env.patterns()[i] == env.patterns@[i]@ && env.patterns()[j] == env.patterns@[j]@);
    }
}

/// Whether a value can neither run into a redaction mark nor stand in one.
pub open spec fn unlike_the_mark(value: Seq<char>) -> bool {
    !value.contains('[') && !value.contains(']') && !text::contains(
        crate::scrub::REDACTED@,
        value,
    )
}

proof fn lemma_unlike_the_mark(value: Seq<char>)
    requires
        value.len() > 0,
        unlike_the_mark(value),
    ensures
        crate::scrub::keeps_clear(value),
{
    reveal_strlit("[redacted secret]");
    let mark = crate::scrub::REDACTED@;
    assert(mark.len() == 17 && mark[0] == '[' && mark[16] == ']');
    assert forall|shift: int| -value.len() < shift < mark.len() implies #[trigger]
        crate::scrub::clashes(value, shift) by {
        if shift < 0 {
            assert(value.contains(value[-shift]));
            assert(value[-shift] != mark[shift + (-shift)]);
        } else if shift + value.len() > mark.len() {
            let i = mark.len() - 1 - shift;
            assert(value.contains(value[i]));
            assert(value[i] != mark[shift + i]);
        } else {
            assert(!text::occurs_at(mark, value, shift));
            let part = mark.subrange(shift, shift + value.len());
            if forall|i: int| 0 <= i < value.len() ==> #[trigger] value[i] == mark[shift + i] {
                assert(part =~= value);
            }
        }
    }
}

/// Nothing known is left over: where no value resembles the redaction mark,
/// scrubbed text holds none of the environment's values, and scrubbing twice
/// is scrubbing once.
pub proof fn scrubbing_leaves_no_value(env: SecretEnv, words: Seq<char>)
    requires
        env.well_formed(),
        forall|value: Seq<char>| #[trigger]
            is_pattern(env.env(), value) ==> unlike_the_mark(value),
    ensures
        forall|value: Seq<char>| #[trigger]
            is_pattern(env.env(), value) ==> !text::contains(
                crate::scrub::scrubbed(env.patterns(), words),
                value,
            ),
        crate::scrub::scrubbed(env.patterns(), crate::scrub::scrubbed(env.patterns(), words))
            == crate::scrub::scrubbed(env.patterns(), words),
{
    the_patterns_are_the_values(env);
    let patterns = env.patterns();
    assert forall|i: int| 0 <= i < patterns.len() implies #[trigger] crate::scrub::keeps_clear(
        patterns[i],
    ) by {
        assert(patterns.contains(patterns[i]));
        assert(is_pattern(env.env(), patterns[i]));
        lemma_unlike_the_mark(patterns[i]);
    }
    crate::scrub::scrubbed_text_holds_no_secret(patterns, words);
    let left = crate::scrub::scrubbed(patterns, words);
    assert forall|value: Seq<char>| #[trigger] is_pattern(env.env(), value) implies !text::contains(
        left,
        value,
    ) by {
        assert(patterns.contains(value));
        let i = choose|i: int| 0 <= i < patterns.len() && patterns[i] == value;
        assert(!text::contains(left, patterns[i]));
    }
    crate::scrub::text_without_a_secret_is_unchanged(patterns, left);
}

impl Default for SecretEnv {
    fn default() -> (r: SecretEnv)
        ensures
            r.well_formed(),
            r.env() == Map::<Seq<char>, Seq<char>>::empty(),
    {
        SecretEnv::new(Vec::new())
    }
}

/// Whether some variable of the list holds `words`.
pub open spec fn has_value(vars: Seq<(String, SecretValue)>, words: Seq<char>) -> bool {
    exists|i: int| 0 <= i < vars.len() && #[trigger] vars[i].1@ == words
}

/// Whether some variable of the list is named `name`.
pub open spec fn has_name(vars: Seq<(String, SecretValue)>, name: Seq<char>) -> bool {
    exists|i: int| 0 <= i < vars.len() && #[trigger] vars[i].0@ == name
}

/// Where each name occurs once, the values of the map are those of the list.
proof fn lemma_values_of_view(vars: Seq<(String, SecretValue)>, words: Seq<char>)
    requires
        names_differ(vars),
    ensures
        has_value(vars, words) <==> exists|name: Seq<char>| #[trigger]
            vars_view(vars).dom().contains(name) && vars_view(vars)[name] == words,
    decreases vars.len(),
{
    assert forall|i: int| 0 <= i < vars.len() implies vars_view(vars).dom().contains(
        #[trigger] vars[i].0@,
    ) && vars_view(vars)[vars[i].0@] == vars[i].1@ by {
        lemma_view_gives(vars, i);
    }
    if has_value(vars, words) {
        let i = choose|i: int| 0 <= i < vars.len() && #[trigger] vars[i].1@ == words;
        assert(vars_view(vars).dom().contains(vars[i].0@));
    }
    if exists|name: Seq<char>| #[trigger]
        vars_view(vars).dom().contains(name) && vars_view(vars)[name] == words {
        let name = choose|name: Seq<char>| #[trigger]
            vars_view(vars).dom().contains(name) && vars_view(vars)[name] == words;
        lemma_view_names(vars, name);
        let i = choose|i: int| 0 <= i < vars.len() && #[trigger] vars[i].0@ == name;
        assert(vars[i].1@ == words);
    }
}

proof fn lemma_view_gives(vars: Seq<(String, SecretValue)>, i: int)
    requires
        names_differ(vars),
        0 <= i < vars.len(),
    ensures
        vars_view(vars).dom().contains(vars[i].0@),
        vars_view(vars)[vars[i].0@] == vars[i].1@,
    decreases vars.len(),
{
    if i < vars.len() - 1 {
        lemma_view_gives(vars.drop_last(), i);
        assert(vars[i].0@ != vars[vars.len() - 1].0@);
    }
}

proof fn lemma_view_names(vars: Seq<(String, SecretValue)>, name: Seq<char>)
    ensures
        vars_view(vars).dom().contains(name) <==> has_name(vars, name),
    decreases vars.len(),
{
    if vars.len() > 0 {
        let rest = vars.drop_last();
        lemma_view_names(rest, name);
        if has_name(rest, name) {
            let i = choose|i: int| 0 <= i < rest.len() && #[trigger] rest[i].0@ == name;
            assert(vars[i].0@ == name);
        }
        if has_name(vars, name) {
            let i = choose|i: int| 0 <= i < vars.len() && #[trigger] vars[i].0@ == name;
            if i < rest.len() {
                assert(rest[i].0@ == name);
            }
        }
        if vars.last().0@ == name {
            assert(vars[vars.len() - 1].0@ == name);
        }
    }
}

/// The list by name, with the last value of each name only.
fn keep_latest(values: Vec<(String, SecretValue)>) -> (r: Vec<(String, SecretValue)>)
    ensures
        by_name(r@),
        vars_view(r@) == vars_view(values@),
{
    let mut kept: Vec<(String, SecretValue)> = Vec::new();
    for i in 0..values.len()
        invariant
            by_name(kept@),
            vars_view(kept@) == vars_view(values@.take(i as int)),
    {
        let name = values[i].0.as_str();
        let ghost before = kept@;
        let mut at: usize = 0;
        while at < kept.len() && text::comes_before(kept[at].0.as_str(), name)
            invariant
                kept@ == before,
                at <= before.len(),
                forall|j: int| 0 <= j < at ==> text::precedes(#[trigger] before[j].0@, name@),
            decreases before.len() - at,
        {
            at = at + 1;
        }
        proof {
            lemma_ordered_names_differ(before);
        }
        if at < kept.len() && text::same(kept[at].0.as_str(), name) {
            kept.remove(at);
            proof {
                lemma_view_without(before, at as int);
                assert(before.remove(at as int) =~= kept@);
            }
        } else {
            proof {
                lemma_view_names(before, name@);
                assert forall|j: int| 0 <= j < before.len() implies #[trigger] before[j].0@
                    != name@ by {
                    text::lemma_precedes_orders(before[j].0@, name@);
                    if j > at {
                        text::lemma_precedes_orders(before[at as int].0@, name@);
                        text::lemma_precedes_chains(name@, before[at as int].0@, before[j].0@);
                    }
                }
            }
        }
        let ghost middle = kept@;
        proof {
            assert forall|j: int| 0 <= j < middle.len() implies if j < at {
                text::precedes(#[trigger] middle[j].0@, name@)
            } else {
                text::precedes(name@, middle[j].0@)
            } by {
                if j < at {
                    assert(middle[j] == before[j]);
                } else if middle.len() < before.len() {
                    assert(middle[j] == before[j + 1]);
                    assert(before[at as int].0@ == name@);
                } else {
                    text::lemma_precedes_orders(before[at as int].0@, name@);
                    if j > at {
                        text::lemma_precedes_chains(name@, before[at as int].0@, before[j].0@);
                    }
                }
            }
            assert forall|j: int, k: int| 0 <= j < k < middle.len() implies text::precedes(
                #[trigger] middle[j].0@,
                #[trigger] middle[k].0@,
            ) by {
                let x = if middle.len() < before.len() && j >= at {
                    j + 1
                } else {
                    j
                };
                let y = if middle.len() < before.len() && k >= at {
                    k + 1
                } else {
                    k
                };
                assert(middle[j] == before[x] && middle[k] == before[y]);
            }
        }
        let value: (String, SecretValue) = (values[i].0.clone(), values[i].1.copy());
        let ghost added = value;
        kept.insert(at, value);
        proof {
            let after = kept@;
            assert forall|j: int, k: int| 0 <= j < k < after.len() implies text::precedes(
                #[trigger] after[j].0@,
                #[trigger] after[k].0@,
            ) by {
                if j < at {
                    assert(after[j] == middle[j]);
                } else if j > at {
                    assert(after[j] == middle[j - 1]);
                }
                if k < at {
                    assert(after[k] == middle[k]);
                } else if k > at {
                    assert(after[k] == middle[k - 1]);
                }
            }
            lemma_ordered_names_differ(after);
            lemma_view_without(after, at as int);
            lemma_view_gives(after, at as int);
            assert(after.remove(at as int) =~= middle);
            assert(after[at as int] == added && added.0@ == name@);
            assert(vars_view(middle) =~= vars_view(before).remove(name@));
            assert(values@.take(i + 1).drop_last() =~= values@.take(i as int));
            assert(vars_view(after) =~= vars_view(after).remove(name@).insert(name@, added.1@));
            assert(vars_view(before).remove(name@).insert(name@, added.1@) =~= vars_view(
                before,
            ).insert(name@, added.1@));
        }
    }
    assert(values@.take(values@.len() as int) =~= values@);
    kept
}

/// Taking one of differently named variables out of the list takes it out of
/// the map.
proof fn lemma_view_without(vars: Seq<(String, SecretValue)>, at: int)
    requires
        names_differ(vars),
        0 <= at < vars.len(),
    ensures
        vars_view(vars.remove(at)) == vars_view(vars).remove(vars[at].0@),
    decreases vars.len(),
{
    let rest = vars.drop_last();
    if at == vars.len() - 1 {
        assert(vars.remove(at) =~= rest);
        lemma_view_names(rest, vars[at].0@);
        if has_name(rest, vars[at].0@) {
            let i = choose|i: int| 0 <= i < rest.len() && #[trigger] rest[i].0@ == vars[at].0@;
            assert(vars[i].0@ != vars[at].0@);
        }
        assert(vars_view(vars).remove(vars[at].0@) =~= vars_view(rest));
    } else {
        assert forall|i: int, j: int| 0 <= i < j < rest.len() implies #[trigger] rest[i].0@
            != #[trigger] rest[j].0@ by {
            assert(vars[i].0@ != vars[j].0@);
        }
        lemma_view_without(rest, at);
        assert(vars.remove(at).drop_last() =~= rest.remove(at));
        assert(vars.remove(at).last() == vars.last());
        assert(vars[at].0@ != vars[vars.len() - 1].0@);
        assert(vars_view(vars.remove(at)) =~= vars_view(vars).remove(vars[at].0@));
    }
}

/// Resolves secret names to values: a file store with restrictive permissions
/// in production, a map in tests. Reached once per run, at submit, and never
/// from inside a kernel.
pub trait SecretsProvider: Sized {
    /// The value of one secret, or why there is none.
    fn resolve(&self, name: &SecretName) -> (r: Result<SecretValue, SecretsError>);
}

/// Why a run's secrets could not be resolved. `NotFound` and `Unsatisfied`
/// are the two a submission answers for, a gap a human fixes by provisioning
/// something, so both name what is missing.
#[derive(Debug, PartialEq, Eq)]
pub enum SecretsError {
    NotFound(SecretName),
    Unsatisfied(SecretRequirement),
    Provider(String),
}

impl SecretsError {
    /// The message a submission is answered with.
    pub open spec fn message(self) -> Seq<char> {
        match self {
            SecretsError::NotFound(name) => "secret `"@ + name@ + "` is not provisioned"@,
            SecretsError::Unsatisfied(requirement) =>
                "the agent needs one of these secrets provisioned: "@ + text::joined(
                requirement@,
                " or "@,
            ),
            SecretsError::Provider(detail) => "secrets provider failure: "@ + detail@,
        }
    }

    pub fn to_text(&self) -> (s: String)
        ensures
            s@ == self.message(),
    {
        match self {
            SecretsError::NotFound(name) => {
                let mut s = "secret `".to_owned();
                s.append(name.as_str());
                s.append("` is not provisioned");
                s
            },
            SecretsError::Unsatisfied(requirement) => {
                let mut s = "the agent needs one of these secrets provisioned: ".to_owned();
                let names = requirement.to_text();
                s.append(names.as_str());
                s
            },
            SecretsError::Provider(detail) => {
                let mut s = "secrets provider failure: ".to_owned();
                s.append(detail.as_str());
                s
            },
        }
    }
}

/// The resolution of everything one run needs before it starts: the names
/// its flow references, then the requirements its adapter states, each value
/// kept under its own name. It stands at one question for the store.
pub struct Resolution {
    pub names: Vec<SecretName>,
    pub requirements: Vec<SecretRequirement>,
    /// What the store has given so far.
    pub values: Vec<(String, SecretValue)>,
    /// How many of the flow's names are resolved.
    pub resolved: usize,
    /// How many requirements are settled.
    pub settled: usize,
    /// How many names of the requirement at hand the store lacks.
    pub lacking: usize,
}

/// Where a resolution goes: to a question for the store, or to its end.
pub enum Resolve {
    Ask(Resolution, SecretName),
    Ready(SecretEnv),
    Refused(SecretsError),
}

/// Whether one of a requirement's names is among the variables.
pub open spec fn satisfied(requirement: Seq<Seq<char>>, vars: Seq<(String, SecretValue)>) -> bool {
    exists|i: int| 0 <= i < requirement.len() && has_name(vars, #[trigger] requirement[i])
}

impl Resolution {
    /// The name the resolution asks the store for.
    pub open spec fn question(&self) -> Seq<char> {
        if self.resolved < self.names@.len() {
            self.names@[self.resolved as int]@
        } else {
            self.requirements@[self.settled as int]@[self.lacking as int]
        }
    }

    /// Whether the resolution stands at a question: names before
    /// requirements, everything before the question settled, and no
    /// requirement asked about that the values at hand satisfy.
    pub open spec fn asking(&self) -> bool {
        &&& self.resolved <= self.names@.len()
        &&& forall|i: int| 0 <= i < self.resolved ==> has_name(self.values@, #[trigger] self.names@[i]@)
        &&& forall|i: int|
            0 <= i < self.settled ==> satisfied(#[trigger] self.requirements@[i]@, self.values@)
        &&& if self.resolved < self.names@.len() {
            self.settled == 0 && self.lacking == 0
        } else {
            &&& self.settled < self.requirements@.len()
            &&& self.lacking < self.requirements@[self.settled as int]@.len()
            &&& !satisfied(self.requirements@[self.settled as int]@, self.values@)
        }
    }

    /// Whether `next` resolves the same names and requirements.
    pub open spec fn continues(&self, next: Resolution) -> bool {
        next.names == self.names && next.requirements == self.requirements
    }

    /// Where the resolution goes from here once the question at hand is
    /// settled: to the next name of the flow, past every requirement that
    /// the values satisfy, to the first name of the next one, or to its end.
    pub open spec fn moves_to(&self, to: Resolve) -> bool {
        match to {
            Resolve::Ask(next, name) => {
                &&& self.continues(next)
                &&& next.values@ == self.values@
                &&& next.resolved == self.resolved
                &&& next.lacking == 0
                &&& next.asking()
                &&& name@ == next.question()
                &&& if self.resolved < self.names@.len() {
                    next.settled == 0
                } else {
                    &&& self.settled <= next.settled
                    &&& forall|i: int|
                        self.settled <= i < next.settled ==> satisfied(
                            #[trigger] self.requirements@[i]@,
                            self.values@,
                        )
                }
            },
            Resolve::Ready(env) => {
                &&& self.resolved == self.names@.len()
                &&& forall|i: int|
                    0 <= i < self.requirements@.len() ==> satisfied(
                        #[trigger] self.requirements@[i]@,
                        self.values@,
                    )
                &&& env.well_formed()
                &&& env.env() == vars_view(self.values@)
            },
            Resolve::Refused(_) => false,
        }
    }

    /// The resolution with `value` kept under the name that was asked for.
    pub open spec fn holding(&self, next: Resolution, value: SecretValue) -> bool {
        &&& self.continues(next)
        &&& next.values@.len() == self.values@.len() + 1
        &&& next.values@.drop_last() == self.values@
        &&& next.values@.last().0@ == self.question()
        &&& next.values@.last().1 == value
        &&& next.lacking == 0
        &&& if self.resolved < self.names@.len() {
            next.resolved == self.resolved + 1 && next.settled == self.settled
        } else {
            next.resolved == self.resolved && next.settled == self.settled + 1
        }
    }

    /// Where the store's answer takes the resolution. A value is kept and
    /// the resolution moves on. A name of the flow must resolve. A name of a
    /// requirement may be missing, and only a requirement with nothing
    /// provisioned fails. A failing store ends the resolution there and
    /// then: a store that cannot be read is not a store that lacks the
    /// secret.
    pub open spec fn answered(
        &self,
        answer: Result<SecretValue, SecretsError>,
        to: Resolve,
    ) -> bool {
        match answer {
            Ok(value) => exists|next: Resolution| #[trigger] self.holding(next, value)
                && next.moves_to(to),
            Err(SecretsError::NotFound(name)) => if self.resolved < self.names@.len() {
                to == Resolve::Refused(SecretsError::NotFound(name))
            } else if self.lacking + 1 < self.requirements@[self.settled as int]@.len() {
                &&& to matches Resolve::Ask(next, name)
                &&& next == Resolution { lacking: (self.lacking + 1) as usize, ..*self }
                &&& name@ == next.question()
            } else {
                &&& to matches Resolve::Refused(SecretsError::Unsatisfied(requirement))
                &&& requirement@ == self.requirements@[self.settled as int]@
            },
            Err(error) => to == Resolve::Refused(error),
        }
    }

    /// The first question of a resolution, or its end where there is none.
    pub fn begin(names: Vec<SecretName>, requirements: Vec<SecretRequirement>) -> (r: Resolve)
        ensures
            exists|start: Resolution| #[trigger]
                start.moves_to(r) && start.names == names && start.requirements == requirements
                    && start.values@.len() == 0 && start.resolved == 0 && start.settled == 0,
    {
        let start = Resolution {
            names,
            requirements,
            values: Vec::new(),
            resolved: 0,
            settled: 0,
            lacking: 0,
        };
        let ghost s = start;
        let r = start.advance();
        assert(s.moves_to(r));
        r
    }

    /// Moves past what is settled to the next question.
    fn advance(self) -> (r: Resolve)
        requires
            self.resolved <= self.names@.len(),
            self.settled <= self.requirements@.len(),
            self.lacking == 0,
            self.resolved < self.names@.len() ==> self.settled == 0,
            forall|i: int|
                0 <= i < self.resolved ==> has_name(self.values@, #[trigger] self.names@[i]@),
            forall|i: int|
                0 <= i < self.settled ==> satisfied(#[trigger] self.requirements@[i]@, self.values@),
        ensures
            self.moves_to(r),
    {
        if self.resolved < self.names.len() {
            let name = self.names[self.resolved].copy();
            return Resolve::Ask(self, name);
        }
        let mut next = self;
        while next.settled < next.requirements.len() && next.is_satisfied(next.settled)
            invariant
                self.continues(next),
                next.values@ == self.values@,
                next.values == self.values,
                next.resolved == self.resolved,
                next.resolved == next.names@.len(),
                next.lacking == 0,
                self.settled <= next.settled <= next.requirements@.len(),
                forall|i: int|
                    0 <= i < next.resolved ==> has_name(next.values@, #[trigger] next.names@[i]@),
                forall|i: int|
                    0 <= i < next.settled ==> satisfied(
                        #[trigger] next.requirements@[i]@,
                        next.values@,
                    ),
            decreases next.requirements@.len() - next.settled,
        {
            next.settled = next.settled + 1;
        }
        if next.settled < next.requirements.len() {
            let names = next.requirements[next.settled].names();
            let name = names[0].copy();
            assert(name_texts(names@)[0] == names@[0]@);
            assert(name_texts(names@).len() == names@.len());
            Resolve::Ask(next, name)
        } else {
            Resolve::Ready(SecretEnv::new(next.values))
        }
    }

    /// Whether the values at hand satisfy one requirement.
    fn is_satisfied(&self, at: usize) -> (r: bool)
        requires
            at < self.requirements@.len(),
        ensures
            r == satisfied(self.requirements@[at as int]@, self.values@),
    {
        let names = self.requirements[at].names();
        let ghost wanted = self.requirements@[at as int]@;
        for i in 0..names.len()
            invariant
                at < self.requirements@.len(),
                wanted == self.requirements@[at as int]@,
                wanted == name_texts(names@),
                forall|j: int| 0 <= j < i ==> !has_name(self.values@, #[trigger] wanted[j]),
        {
            assert(wanted[i as int] == names@[i as int]@);
            for k in 0..self.values.len()
                invariant
                    0 <= i < names@.len(),
                    wanted == name_texts(names@),
                    wanted[i as int] == names@[i as int]@,
                    at < self.requirements@.len(),
                    wanted == self.requirements@[at as int]@,
                    forall|j: int| 0 <= j < k ==> #[trigger] self.values@[j].0@ != names@[i as int]@,
            {
                if text::same(self.values[k].0.as_str(), names[i].as_str()) {
                    assert(self.values@[k as int].0@ == wanted[i as int]);
                    assert(has_name(self.values@, wanted[i as int]));
                    return true;
                }
            }
        }
        false
    }

    /// Takes the store's answer to the question at hand.
    pub fn answer(self, answer: Result<SecretValue, SecretsError>) -> (r: Resolve)
        requires
            self.asking(),
        ensures
            self.answered(answer, r),
    {
        match answer {
            Ok(value) => {
                let name: String = self.asked();
                let total: usize = self.requirements.len();
                assert(self.resolved < self.names@.len() || self.settled < total);
                let mut next = self;
                let ghost kept = value;
                next.values.push((name, value));
                next.lacking = 0;
                if next.resolved < next.names.len() {
                    next.resolved = next.resolved + 1;
                } else {
                    next.settled = next.settled + 1;
                }
                let ghost held = next;
                proof {
                    assert(held.values@.drop_last() =~= self.values@);
                    assert(self.holding(held, kept));
                    let last = held.values@.len() - 1;
                    assert(held.values@[last].0@ == self.question());
                    assert(has_name(held.values@, self.question()));
                    assert forall|name: Seq<char>| has_name(self.values@, name) implies has_name(
                        held.values@,
                        name,
                    ) by {
                        let i = choose|i: int|
                            0 <= i < self.values@.len() && #[trigger] self.values@[i].0@ == name;
                        assert(held.values@[i].0@ == name);
                    }
                    assert forall|i: int| 0 <= i < held.settled implies satisfied(
                        #[trigger] held.requirements@[i]@,
                        held.values@,
                    ) by {
                        let wanted = held.requirements@[i]@;
                        if i < self.settled {
                            assert(satisfied(self.requirements@[i]@, self.values@));
                            let k = choose|k: int|
                                0 <= k < wanted.len() && has_name(
                                    self.values@,
                                    #[trigger] wanted[k],
                                );
                            assert(has_name(held.values@, wanted[k]));
                        } else {
                            assert(has_name(held.values@, wanted[self.lacking as int]));
                        }
                    }
                }
                let r = next.advance();
                assert(held.moves_to(r));
                r
            },
            Err(SecretsError::NotFound(name)) => {
                if self.resolved < self.names.len() {
                    return Resolve::Refused(SecretsError::NotFound(name));
                }
                let names = self.requirements[self.settled].names();
                assert(name_texts(names@).len() == names@.len());
                let total: usize = names.len();
                assert(self.lacking < total);
                if self.lacking + 1 < total {
                    let mut next = self;
                    next.lacking = next.lacking + 1;
                    let name = names[next.lacking].copy();
                    assert(name_texts(names@)[next.lacking as int] == name@);
                    Resolve::Ask(next, name)
                } else {
                    let requirement = self.requirements[self.settled].copy();
                    Resolve::Refused(SecretsError::Unsatisfied(requirement))
                }
            },
            Err(error) => Resolve::Refused(error),
        }
    }

    /// The name the resolution stands at.
    fn asked(&self) -> (name: String)
        requires
            self.asking(),
        ensures
            name@ == self.question(),
    {
        if self.resolved < self.names.len() {
            self.names[self.resolved].as_str().to_owned()
        } else {
            let names = self.requirements[self.settled].names();
            assert(name_texts(names@)[self.lacking as int] == names@[self.lacking as int]@);
            assert(name_texts(names@).len() == names@.len());
            names[self.lacking].as_str().to_owned()
        }
    }
}

/// From one question to the next the resolution stays at a question, and no
/// name of a requirement is asked for that is already at hand.
pub proof fn every_question_is_worth_asking(
    at: Resolution,
    answer: Result<SecretValue, SecretsError>,
    next: Resolution,
    name: SecretName,
)
    requires
        at.asking(),
        at.answered(answer, Resolve::Ask(next, name)),
    ensures
        next.asking(),
        name@ == next.question(),
        next.resolved == next.names@.len() ==> !has_name(next.values@, name@),
{
    if next.resolved == next.names@.len() {
        let wanted = next.requirements@[next.settled as int]@;
        assert(wanted[next.lacking as int] == next.question());
    }
}

/// A finished resolution holds a value for every name of the flow, and for
/// at least one name of every requirement.
pub proof fn a_ready_environment_lacks_nothing(at: Resolution, env: SecretEnv)
    requires
        at.moves_to(Resolve::Ready(env)),
        forall|i: int| 0 <= i < at.resolved ==> has_name(at.values@, #[trigger] at.names@[i]@),
    ensures
        forall|i: int| 0 <= i < at.names@.len() ==> env.env().dom().contains(#[trigger] at.names@[i]@),
        forall|i: int|
            0 <= i < at.requirements@.len() ==> provided(
                #[trigger] at.requirements@[i]@,
                env.env(),
            ),
{
    assert forall|i: int| 0 <= i < at.names@.len() implies env.env().dom().contains(
        #[trigger] at.names@[i]@,
    ) by {
        lemma_view_names(at.values@, at.names@[i]@);
    }
    assert forall|i: int| 0 <= i < at.requirements@.len() implies provided(
        #[trigger] at.requirements@[i]@,
        env.env(),
    ) by {
        let wanted = at.requirements@[i]@;
        assert(satisfied(wanted, at.values@));
        let k = choose|k: int| 0 <= k < wanted.len() && has_name(at.values@, #[trigger] wanted[k]);
        lemma_view_names(at.values@, wanted[k]);
        assert(env.env().dom().contains(wanted[k]));
    }
}

/// Whether an environment holds a value for one of a requirement's names.
pub open spec fn provided(requirement: Seq<Seq<char>>, env: Map<Seq<char>, Seq<char>>) -> bool {
    exists|k: int| 0 <= k < requirement.len() && env.dom().contains(#[trigger] requirement[k])
}

} // verus!
