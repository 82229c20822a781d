//! Stand-ins for the agent, the event log, the notifier, and the secrets
//! store.

use crate::agent::AgentAdapter;
use crate::budget::TokenUsage;
use crate::event::{self, RunEvent};
use crate::notify::{self, Notification, Notifier, NotifierError};
use crate::sandbox::{ExecEvent, ExecSpec, ExitStatus, SandboxError};
use crate::secrets::{self, SecretEnv, SecretName, SecretValue, SecretsError, SecretsProvider};
use crate::sink::{EventSink, EventSinkError};
use crate::text;
use vstd::prelude::*;
use vstd::utf8::*;

verus! {

/// One scripted exec: the pieces its output replays.
pub type Transcript = Vec<Result<ExecEvent, SandboxError>>;

/// Whether a transcript prints `stdout` and exits with `code`.
pub open spec fn prints(t: Seq<Result<ExecEvent, SandboxError>>, stdout: Seq<char>, code: i32) -> bool {
    &&& t.len() == 2
    &&& t[0] matches Ok(ExecEvent::Stdout(bytes)) && bytes@ == encode_utf8(stdout)
    &&& t[1] == Ok::<ExecEvent, SandboxError>(
        ExecEvent::Exited(ExitStatus { code: Some(code) }),
    )
}

/// A transcript that prints `stdout` and exits with `code`.
pub fn exec(stdout: &str, code: i32) -> (r: Transcript)
    ensures
        prints(r@, stdout@, code),
{
    let mut bytes: Vec<u8> = Vec::new();
    bytes.extend_from_slice(stdout.as_bytes());
    assert(bytes@ =~= encode_utf8(stdout@));
    vec![Ok(ExecEvent::Stdout(bytes)), Ok(ExecEvent::Exited(ExitStatus { code: Some(code) }))]
}

/// The scripted agent's binary name: the first element of every invocation it
/// builds, and what tells an agent's exec from a check's.
pub const AGENT_BIN: &'static str = "scripted-agent";

/// The prompt of an invocation that the scripted agent built.
pub open spec fn prompt_in(argv: Seq<Seq<char>>) -> Option<Seq<char>> {
    if argv.len() == 3 && argv[0] == AGENT_BIN@ && argv[1] == "--prompt"@ {
        Some(argv[2])
    } else {
        None
    }
}

/// [`prompt_in`], computed.
pub fn prompt_from(argv: &Vec<String>) -> (r: Option<&str>)
    ensures
        match r {
            Some(prompt) => prompt_in(text::texts(argv@)) == Some(prompt@),
            None => prompt_in(text::texts(argv@)) is None,
        },
{
    if argv.len() == 3 && text::same(argv[0].as_str(), AGENT_BIN) && text::same(
        argv[1].as_str(),
        "--prompt",
    ) {
        Some(argv[2].as_str())
    } else {
        None
    }
}

/// A pure translator, like every real adapter: prompt in, argv out. It
/// requires no secrets and reports no usage unless told to.
#[derive(Debug, PartialEq, Eq)]
pub struct ScriptedAgent {
    pub secrets: Vec<SecretName>,
    /// What the agent bills for an invocation whose output says so.
    pub usage: Option<TokenUsage>,
}

impl ScriptedAgent {
    pub fn new() -> (r: ScriptedAgent)
        ensures
            r.secrets@.len() == 0,
            r.usage is None,
    {
        ScriptedAgent { secrets: Vec::new(), usage: None }
    }

    /// Declares a secret the agent requires.
    pub fn requiring(self, secret: &str) -> (r: ScriptedAgent)
        ensures
            secrets::name_texts(r.secrets@) == secrets::name_texts(self.secrets@).push(secret@),
            r.usage == self.usage,
    {
        let mut r = self;
        let ghost before = r.secrets@;
        r.secrets.push(SecretName::new(secret));
        assert(secrets::name_texts(r.secrets@) =~= secrets::name_texts(before).push(secret@));
        r
    }

    /// Reports this usage whenever the output says `tokens used`.
    pub fn reporting(self, usage: TokenUsage) -> (r: ScriptedAgent)
        ensures
            r.secrets == self.secrets,
            r.usage == Some(usage),
    {
        let mut r = self;
        r.usage = Some(usage);
        r
    }
}

impl AgentAdapter for ScriptedAgent {
    open spec fn known_as(&self) -> Seq<char> {
        "scripted"@
    }

    open spec fn needs(&self) -> Seq<Seq<char>> {
        secrets::name_texts(self.secrets@)
    }

    open spec fn command(&self, prompt: Seq<char>) -> Seq<Seq<char>> {
        seq![AGENT_BIN@, "--prompt"@, prompt]
    }

    open spec fn bill(&self, stdout: Seq<char>) -> Option<TokenUsage> {
        if text::contains(stdout, "tokens used"@) {
            self.usage
        } else {
            None
        }
    }

    fn name(&self) -> (s: &str) {
        "scripted"
    }

    fn required_secrets(&self) -> (r: Vec<SecretName>) {
        let mut r: Vec<SecretName> = Vec::new();
        for i in 0..self.secrets.len()
            invariant
                r@.len() == i,
                forall|j: int| 0 <= j < i ==> #[trigger] r@[j]@ == self.secrets@[j]@,
        {
            r.push(self.secrets[i].copy());
        }
        assert(secrets::name_texts(r@) =~= self.needs());
        r
    }

    fn invocation(&self, prompt: &str) -> (r: ExecSpec) {
        let argv = vec![AGENT_BIN.to_owned(), "--prompt".to_owned(), prompt.to_owned()];
        assert(text::texts(argv@) =~= self.command(prompt@));
        ExecSpec { argv, cwd: None }
    }

    fn token_usage(&self, stdout: &str) -> (r: Option<TokenUsage>) {
        if text::stands_in(stdout, "tokens used") {
            self.usage
        } else {
            None
        }
    }
}

/// An agent for runs that talk to no agent: its invocation runs nothing.
#[derive(Debug, Clone, Copy, PartialEq, Eq)]
pub struct NoAgent;

impl AgentAdapter for NoAgent {
    open spec fn known_as(&self) -> Seq<char> {
        "none"@
    }

    open spec fn needs(&self) -> Seq<Seq<char>> {
        Seq::empty()
    }

    open spec fn command(&self, prompt: Seq<char>) -> Seq<Seq<char>> {
        Seq::empty()
    }

    open spec fn bill(&self, stdout: Seq<char>) -> Option<TokenUsage> {
        None
    }

    fn name(&self) -> (s: &str) {
        "none"
    }

    fn required_secrets(&self) -> (r: Vec<SecretName>) {
        let r: Vec<SecretName> = Vec::new();
        assert(secrets::name_texts(r@) =~= Seq::empty());
        r
    }

    fn invocation(&self, _prompt: &str) -> (r: ExecSpec) {
        let argv: Vec<String> = Vec::new();
        assert(text::texts(argv@) =~= Seq::empty());
        ExecSpec { argv, cwd: None }
    }

    fn token_usage(&self, _stdout: &str) -> (r: Option<TokenUsage>) {
        None
    }
}

/// Records every emitted event for a test to go by.
#[derive(Debug, PartialEq, Eq)]
pub struct RecordingSink {
    events: Vec<RunEvent>,
}

impl RecordingSink {
    pub fn new() -> (r: RecordingSink)
        ensures
            r.landed() == Seq::<event::EventView>::empty(),
    {
        let r = RecordingSink { events: Vec::new() };
        assert(event::event_views(r.events@) =~= Seq::empty());
        r
    }

    pub fn events(&self) -> (r: &Vec<RunEvent>)
        ensures
            event::event_views(r@) == self.landed(),
    {
        &self.events
    }
}

impl EventSink for RecordingSink {
    closed spec fn landed(&self) -> Seq<event::EventView> {
        event::event_views(self.events@)
    }

    open spec fn lands_as(&self, given: event::EventView, landing: event::EventView) -> bool {
        landing == given
    }

    open spec fn takes(
        &self,
        given: event::EventView,
        after: Self,
        r: Result<(), EventSinkError>,
    ) -> bool {
        r is Ok && after.landed() == self.landed().push(given)
    }

    fn emit(&mut self, event: RunEvent) -> (r: Result<(), EventSinkError>)
        ensures
            r is Ok,
    {
        let ghost before = event::event_views(self.events@);
        let ghost view = event@;
        self.events.push(event);
        assert(event::event_views(self.events@) =~= before.push(view));
        assert(old(self).lands_as(view, view));
        Ok(())
    }
}

/// Swallows notifications.
#[derive(Debug, Clone, Copy, PartialEq, Eq)]
pub struct StubNotifier;

impl Notifier for StubNotifier {
    fn notify(&mut self, _notification: &Notification) -> (r: Result<(), NotifierError>)
        ensures
            r is Ok,
            *final(self) == *old(self),
    {
        Ok(())
    }
}

/// Records notifications for a test to go by.
#[derive(Debug, PartialEq, Eq)]
pub struct RecordingNotifier {
    notifications: Vec<Notification>,
}

impl RecordingNotifier {
    /// What has been told, in order.
    pub closed spec fn told(&self) -> Seq<notify::NotificationView> {
        self.notifications@.map_values(|n: Notification| n@)
    }

    pub fn new() -> (r: RecordingNotifier)
        ensures
            r.told() == Seq::<notify::NotificationView>::empty(),
    {
        let r = RecordingNotifier { notifications: Vec::new() };
        assert(r.told() =~= Seq::empty());
        r
    }

    pub fn notifications(&self) -> (r: &Vec<Notification>)
        ensures
            r@.map_values(|n: Notification| n@) == self.told(),
    {
        &self.notifications
    }
}

impl Notifier for RecordingNotifier {
    fn notify(&mut self, notification: &Notification) -> (r: Result<(), NotifierError>)
        ensures
            r is Ok,
            final(self).told() == old(self).told().push(notification@),
    {
        let ghost before = self.told();
        self.notifications.push(notification.copy());
        assert(self.told() =~= before.push(notification@));
        Ok(())
    }
}

/// The pairs as an environment's variables.
pub open spec fn pairs_view(pairs: Seq<(&str, &str)>) -> Map<Seq<char>, Seq<char>>
    decreases pairs.len(),
{
    if pairs.len() == 0 {
        Map::empty()
    } else {
        pairs_view(pairs.drop_last()).insert(pairs.last().0@, pairs.last().1@)
    }
}

/// A run's resolved secrets, built the short way: what a host hands a kernel
/// once resolution is done.
pub fn secret_env(pairs: &Vec<(&str, &str)>) -> (r: SecretEnv)
    ensures
        r.env() == pairs_view(pairs@),
{
    let mut values: Vec<(String, SecretValue)> = Vec::new();
    assert(pairs@.take(0) =~= Seq::empty());
    for i in 0..pairs.len()
        invariant
            secrets::vars_view(values@) == pairs_view(pairs@.take(i as int)),
    {
        let ghost before = values@;
        values.push((pairs[i].0.to_owned(), SecretValue::new(pairs[i].1)));
        assert(values@.drop_last() =~= before);
        assert(pairs@.take(i + 1).drop_last() =~= pairs@.take(i as int));
        assert(pairs@.take(i + 1).last() == pairs@[i as int]);
    }
    assert(pairs@.take(pairs@.len() as int) =~= pairs@);
    SecretEnv::new(values)
}

/// A provider with nothing in it: every resolve is a miss.
#[derive(Debug, Clone, Copy, PartialEq, Eq)]
pub struct NoSecrets;

impl SecretsProvider for NoSecrets {
    fn resolve(&self, name: &SecretName) -> (r: Result<SecretValue, SecretsError>)
        ensures
            r matches Err(SecretsError::NotFound(missing)) && missing@ == name@,
    {
        Err(SecretsError::NotFound(name.copy()))
    }
}

/// A provider over a fixed set of secrets.
pub struct MapSecrets {
    pub env: SecretEnv,
}

impl MapSecrets {
    pub fn new(pairs: &Vec<(&str, &str)>) -> (r: MapSecrets)
        ensures
            r.env.env() == pairs_view(pairs@),
    {
        MapSecrets { env: secret_env(pairs) }
    }
}

impl SecretsProvider for MapSecrets {
    fn resolve(&self, name: &SecretName) -> (r: Result<SecretValue, SecretsError>)
        ensures
            match r {
                Ok(value) => self.env.env().dom().contains(name@) && self.env.env()[name@]
                    == value@,
                Err(SecretsError::NotFound(missing)) => !self.env.env().dom().contains(name@)
                    && missing@ == name@,
                Err(_) => false,
            },
    {
        match self.env.get(name.as_str()) {
            Some(value) => Ok(value.copy()),
            None => Err(SecretsError::NotFound(name.copy())),
        }
    }
}

} // verus!
