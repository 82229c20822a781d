//! Finding the daemon: which address a command talks to, and with which
//! token. What is set by a flag wins over the environment, and the
//! environment over the defaults.

use crate::text;
use crate::utf8;
use crate::workspace;
use vstd::prelude::*;
use vstd::utf8::*;

verus! {

pub const DEFAULT_ADDRESS: &'static str = "http://127.0.0.1:7878";

/// Why no connection could be made out.
#[derive(Debug, Clone, PartialEq, Eq)]
pub struct ConfigError(pub String);

impl ConfigError {
    pub fn to_text(&self) -> (s: String)
        ensures
            s@ == self.0@,
    {
        self.0.clone()
    }

    fn says(words: &str) -> (r: ConfigError)
        ensures
            r.0@ == words@,
    {
        ConfigError(words.to_owned())
    }
}

/// The raw value of an environment variable, as bytes.
pub open spec fn raw_value(raw: Option<Vec<u8>>) -> Option<Seq<u8>> {
    match raw {
        Some(bytes) => Some(bytes@),
        None => None,
    }
}

/// What an environment variable says: empty and absent mean the same. The
/// outer `None` stands for a value that is not UTF-8.
pub open spec fn env_value(raw: Option<Seq<u8>>) -> Option<Option<Seq<char>>> {
    match raw {
        None => Some(None),
        Some(bytes) => if !valid_utf8(bytes) {
            None
        } else if decode_utf8(bytes).len() == 0 {
            Some(None)
        } else {
            Some(Some(decode_utf8(bytes)))
        },
    }
}

/// [`env_value`], computed; a value that is not UTF-8 fails loudly, naming
/// the variable.
pub fn env_text(variable: &str, raw: &Option<Vec<u8>>) -> (r: Result<Option<String>, ConfigError>)
    ensures
        match (env_value(raw_value(*raw)), r) {
            (Some(Some(value)), Ok(Some(words))) => words@ == value,
            (Some(None), Ok(None)) => true,
            (None, Err(error)) => error.0@ == variable@ + " is not valid UTF-8"@,
            _ => false,
        },
{
    match raw {
        None => Ok(None),
        Some(bytes) => match utf8::read_utf8(bytes.as_slice()) {
            Ok(value) => if value.as_str().is_empty() {
                Ok(None)
            } else {
                Ok(Some(value))
            },
            Err(_) => {
                let mut s = variable.to_owned();
                s.append(" is not valid UTF-8");
                Err(ConfigError(s))
            },
        },
    }
}

/// The canonical base URL of an address: a scheme in front, no slash behind.
pub open spec fn normalized(address: Seq<char>) -> Seq<char> {
    let trimmed = text::shorn(address, seq!['/']);
    if text::begins(trimmed, "http://"@) || text::begins(trimmed, "https://"@) {
        trimmed
    } else {
        "http://"@ + trimmed
    }
}

/// [`normalized`], computed.
pub fn normalize(address: &str) -> (s: String)
    ensures
        s@ == normalized(address@),
{
    let slashes: [char; 1] = ['/'];
    assert(slashes@ =~= seq!['/']);
    let trimmed = text::shear(address, &slashes);
    if text::strip_prefix(trimmed.as_str(), "http://").is_some() || text::strip_prefix(
        trimmed.as_str(),
        "https://",
    ).is_some() {
        trimmed
    } else {
        let mut s = "http://".to_owned();
        s.append(trimmed.as_str());
        s
    }
}

/// Which address a command talks to: the flag's, the environment's, the
/// default.
pub fn resolve_address(flag: Option<String>, env: &Option<Vec<u8>>) -> (r: Result<
    String,
    ConfigError,
>)
    ensures
        match flag {
            Some(address) => r matches Ok(s) && s@ == normalized(address@),
            None => match (env_value(raw_value(*env)), r) {
                (Some(Some(address)), Ok(s)) => s@ == normalized(address),
                (Some(None), Ok(s)) => s@ == normalized(DEFAULT_ADDRESS@),
                (None, Err(error)) => error.0@ == "HAKO_ADDR is not valid UTF-8"@,
                _ => false,
            },
        },
{
    match flag {
        Some(address) => Ok(normalize(address.as_str())),
        None => match env_text("HAKO_ADDR", env) {
            Ok(Some(address)) => Ok(normalize(address.as_str())),
            Ok(None) => Ok(normalize(DEFAULT_ADDRESS)),
            Err(error) => {
                proof {
                    reveal_strlit("HAKO_ADDR");
                    reveal_strlit(" is not valid UTF-8");
                    reveal_strlit("HAKO_ADDR is not valid UTF-8");
                    assert("HAKO_ADDR"@ + " is not valid UTF-8"@
                        =~= "HAKO_ADDR is not valid UTF-8"@);
                }
                Err(error)
            },
        },
    }
}

/// Where an auto-started daemon would bind, as far as the text of an address
/// tells.
#[derive(Debug, Clone, PartialEq, Eq)]
pub enum BindCandidate {
    /// Nowhere: the shape of a remote deployment, whatever host it names.
    Remote,
    /// The loopback address, on this port.
    Localhost(u16),
    /// A literal socket address, if it is one and a loopback one.
    Literal(String),
}

/// Whether `candidate` is what an address's text tells. Localness is read
/// from the literal text and never from a resolver.
pub open spec fn tells_bind(address: Seq<char>, candidate: BindCandidate) -> bool {
    let authority = address.skip("http://"@.len() as int);
    let port = text::natural(authority.skip("localhost:"@.len() as int));
    if !text::begins(address, "http://"@) || text::contains(authority, "/"@) {
        candidate == BindCandidate::Remote
    } else if text::begins(authority, "localhost:"@) {
        match port {
            Some(n) => if n <= u16::MAX {
                candidate == BindCandidate::Localhost(n as u16)
            } else {
                candidate == BindCandidate::Remote
            },
            None => candidate == BindCandidate::Remote,
        }
    } else {
        candidate matches BindCandidate::Literal(words) && words@ == authority
    }
}

/// An IP address as it is written out: four bytes, or eight groups.
#[derive(Debug, Clone, Copy, PartialEq, Eq, Structural)]
pub enum IpLiteral {
    V4(u8, u8, u8, u8),
    V6(u16, u16, u16, u16, u16, u16, u16, u16),
}

impl IpLiteral {
    /// Whether the address names the machine itself.
    pub open spec fn loops_back(self) -> bool {
        match self {
            IpLiteral::V4(a, b, c, d) => a == 127,
            IpLiteral::V6(a, b, c, d, e, f, g, h) => a == 0 && b == 0 && c == 0 && d == 0 && e == 0
                && f == 0 && g == 0 && h == 1,
        }
    }

    pub fn is_loopback(&self) -> (r: bool)
        ensures
            r == self.loops_back(),
    {
        match self {
            IpLiteral::V4(a, _, _, _) => *a == 127,
            IpLiteral::V6(a, b, c, d, e, f, g, h) => *a == 0 && *b == 0 && *c == 0 && *d == 0 && *e
                == 0 && *f == 0 && *g == 0 && *h == 1,
        }
    }
}

/// A literal socket address.
#[derive(Debug, Clone, Copy, PartialEq, Eq, Structural)]
pub struct SocketLiteral {
    pub ip: IpLiteral,
    pub port: u16,
}

/// Where an auto-started daemon would bind: the loopback address for
/// `localhost`, a literal address that is a loopback one, and nowhere else.
pub open spec fn local_bind(candidate: BindCandidate, literal: Option<SocketLiteral>) -> Option<
    SocketLiteral,
> {
    match (candidate, literal) {
        (BindCandidate::Localhost(port), _) => Some(
            SocketLiteral { ip: IpLiteral::V4(127, 0, 0, 1), port },
        ),
        (BindCandidate::Literal(_), Some(socket)) => if socket.ip.loops_back() {
            Some(socket)
        } else {
            None
        },
        _ => None,
    }
}

/// [`local_bind`], computed, where `literal` is the socket address that the
/// candidate's text spells, if it spells one.
pub fn local_bind_address(candidate: &BindCandidate, literal: Option<SocketLiteral>) -> (r: Option<
    SocketLiteral,
>)
    ensures
        r == local_bind(*candidate, literal),
{
    match (candidate, literal) {
        (BindCandidate::Localhost(port), _) => Some(
            SocketLiteral { ip: IpLiteral::V4(127, 0, 0, 1), port: *port },
        ),
        (BindCandidate::Literal(_), Some(socket)) => if socket.ip.is_loopback() {
            Some(socket)
        } else {
            None
        },
        _ => None,
    }
}

/// What an address's text tells of where a daemon would bind.
pub fn bind_candidate(address: &str) -> (r: BindCandidate)
    ensures
        tells_bind(address@, r),
{
    let authority = match text::strip_prefix(address, "http://") {
        Some(authority) => authority,
        None => return BindCandidate::Remote,
    };
    if text::stands_in(authority.as_str(), "/") {
        return BindCandidate::Remote;
    }
    match text::strip_prefix(authority.as_str(), "localhost:") {
        Some(port) => match text::read_natural(port.as_str(), u16::MAX as u64) {
            Some(port) => BindCandidate::Localhost(port as u16),
            None => BindCandidate::Remote,
        },
        None => BindCandidate::Literal(authority),
    }
}

/// Where a command's token comes from.
#[derive(Debug, Clone, PartialEq, Eq)]
pub enum TokenSource {
    Given(String),
    /// The user's own token file, written on first use.
    File,
}

/// Whether `r` is where a command's token comes from. An empty value typed at
/// the prompt is a mistake to report; an empty variable is one that is not
/// set; a remote daemon needs a token that was given.
pub open spec fn sources_token(
    flag: Option<String>,
    env: Option<Seq<u8>>,
    local: bool,
    r: Result<TokenSource, ConfigError>,
) -> bool {
    match flag {
        Some(token) => if token@.len() == 0 {
            r matches Err(error) && error.0@ == "daemon bearer token cannot be empty"@
        } else {
            r == Ok::<TokenSource, ConfigError>(TokenSource::Given(token))
        },
        None => match env_value(env) {
            None => r matches Err(error) && error.0@ == "HAKO_TOKEN is not valid UTF-8"@,
            Some(Some(token)) => r matches Ok(TokenSource::Given(given)) && given@ == token,
            Some(None) => if local {
                r == Ok::<TokenSource, ConfigError>(TokenSource::File)
            } else {
                r matches Err(error) && error.0@
                    == "a remote daemon requires `--token` or `HAKO_TOKEN`"@
            },
        },
    }
}

/// Where a command's token comes from; `local` says whether the daemon is one
/// that could be started here.
pub fn resolve_token(flag: Option<String>, env: &Option<Vec<u8>>, local: bool) -> (r: Result<
    TokenSource,
    ConfigError,
>)
    ensures
        sources_token(flag, raw_value(*env), local, r),
{
    match flag {
        Some(token) => if token.as_str().is_empty() {
            Err(ConfigError::says("daemon bearer token cannot be empty"))
        } else {
            Ok(TokenSource::Given(token))
        },
        None => match env_text("HAKO_TOKEN", env) {
            Err(error) => {
                proof {
                    reveal_strlit("HAKO_TOKEN");
                    reveal_strlit(" is not valid UTF-8");
                    reveal_strlit("HAKO_TOKEN is not valid UTF-8");
                    assert("HAKO_TOKEN"@ + " is not valid UTF-8"@
                        =~= "HAKO_TOKEN is not valid UTF-8"@);
                }
                Err(error)
            },
            Ok(Some(token)) => Ok(TokenSource::Given(token)),
            Ok(None) => if local {
                Ok(TokenSource::File)
            } else {
                Err(ConfigError::says("a remote daemon requires `--token` or `HAKO_TOKEN`"))
            },
        },
    }
}

/// A path below a directory, as bytes: a slash between the two unless the
/// directory ends with one.
pub open spec fn path_below(dir: Seq<u8>, path: Seq<u8>) -> Seq<u8> {
    if dir.last() == 47 {
        dir + path
    } else {
        dir.push(47) + path
    }
}

fn join_bytes(dir: &Vec<u8>, path: &str) -> (r: Vec<u8>)
    requires
        dir@.len() > 0,
    ensures
        r@ == path_below(dir@, encode_utf8(path@)),
{
    let mut r = workspace::copied_bytes(dir);
    if r[r.len() - 1] != 47 {
        r.push(47);
    }
    r.extend_from_slice(path.as_bytes());
    r
}

/// Where the user's token file lies: below `XDG_CONFIG_HOME`, or below
/// `.config` in `HOME`; an empty variable is one that is not set.
pub open spec fn token_file(xdg: Option<Seq<u8>>, home: Option<Seq<u8>>) -> Option<Seq<u8>> {
    match (xdg, home) {
        (Some(dir), _) if dir.len() > 0 => Some(path_below(dir, encode_utf8("hako/token"@))),
        (_, Some(dir)) if dir.len() > 0 => Some(
            path_below(path_below(dir, encode_utf8(".config"@)), encode_utf8("hako/token"@)),
        ),
        _ => None,
    }
}

/// [`token_file`], computed.
pub fn token_path(xdg: &Option<Vec<u8>>, home: &Option<Vec<u8>>) -> (r: Result<
    Vec<u8>,
    ConfigError,
>)
    ensures
        match (token_file(raw_value(*xdg), raw_value(*home)), r) {
            (Some(path), Ok(found)) => found@ == path,
            (None, Err(error)) => error.0@
                == "cannot locate a user config directory for local auth"@,
            _ => false,
        },
{
    if let Some(dir) = xdg {
        if dir.len() > 0 {
            return Ok(join_bytes(dir, "hako/token"));
        }
    }
    if let Some(dir) = home {
        if dir.len() > 0 {
            let config = join_bytes(dir, ".config");
            return Ok(join_bytes(&config, "hako/token"));
        }
    }
    Err(ConfigError::says("cannot locate a user config directory for local auth"))
}

/// Whether a text is a token of this program's making: 32 lowercase
/// hexadecimal digits.
pub open spec fn is_token(token: Seq<char>) -> bool {
    &&& token.len() == 32
    &&& forall|i: int|
        0 <= i < token.len() ==> ('0' <= #[trigger] token[i] <= '9' || 'a' <= token[i] <= 'f')
}

/// `uuid::Uuid::new_v4`, printed by `Uuid::simple`: 32 lowercase hexadecimal
/// digits. Which digits is a matter of chance, and nothing is claimed of it.
#[verifier::external_body]
fn fresh_token() -> (token: String)
    ensures
        is_token(token@),
{
    uuid::Uuid::new_v4().simple().to_string()
}

/// What came of an action on the token file.
#[derive(Debug, Clone, PartialEq, Eq)]
pub enum FileReply {
    Text(String),
    Done,
    NotFound,
    AlreadyExists,
    Failed { path: String, error: String },
}

/// An action on the token file.
#[derive(Debug, Clone, PartialEq, Eq)]
pub enum TokenAction {
    Read,
    /// Create the file's directory, for its owner alone.
    MakeDir,
    /// Create the file, for its owner alone, and write the token.
    Create(String),
}

/// Where the reading of a local token stands.
#[derive(Debug, Clone, PartialEq, Eq)]
pub enum LocalToken {
    Reading,
    MakingDir,
    Creating(String),
    /// Another process created the file first: its token is the one.
    Rereading,
}

/// Where the reading of a local token goes.
pub enum TokenTurn {
    Act(LocalToken, TokenAction),
    End(Result<String, ConfigError>),
}

/// Whether `to` is the end with what the token file holds, white space aside.
pub open spec fn ends_with_text(words: Seq<char>, to: TokenTurn) -> bool {
    let token = text::trimmed(words);
    if token.len() == 0 {
        to matches TokenTurn::End(Err(error)) && error.0@
            == "the local daemon token file is empty"@
    } else {
        to matches TokenTurn::End(Ok(found)) && found@ == token
    }
}

/// Whether `to` is the end with an error that says `words`.
pub open spec fn ends_with_error(words: Seq<char>, to: TokenTurn) -> bool {
    to matches TokenTurn::End(Err(error)) && error.0@ == words
}

impl LocalToken {
    /// Where the reading begins.
    pub fn begin() -> (r: TokenTurn)
        ensures
            r == TokenTurn::Act(LocalToken::Reading, TokenAction::Read),
    {
        TokenTurn::Act(LocalToken::Reading, TokenAction::Read)
    }

    /// Where a reply takes the reading.
    pub open spec fn answered(self, reply: FileReply, to: TokenTurn) -> bool {
        match (self, reply) {
            (_, FileReply::Failed { path, error }) => ends_with_error(
                path@ + ": "@ + error@,
                to,
            ),
            (LocalToken::Reading, FileReply::Text(words)) => ends_with_text(words@, to),
            (LocalToken::Rereading, FileReply::Text(words)) => ends_with_text(words@, to),
            (LocalToken::Reading, FileReply::NotFound) => to == TokenTurn::Act(
                LocalToken::MakingDir,
                TokenAction::MakeDir,
            ),
            (LocalToken::MakingDir, FileReply::Done) => to matches TokenTurn::Act(
                LocalToken::Creating(kept),
                TokenAction::Create(written),
            ) && kept@ == written@ && is_token(kept@),
            (LocalToken::Creating(token), FileReply::Done) => to == TokenTurn::End(Ok(token)),
            (LocalToken::Creating(_), FileReply::AlreadyExists) => to == TokenTurn::Act(
                LocalToken::Rereading,
                TokenAction::Read,
            ),
            _ => ends_with_error("a reply arrived out of step"@, to),
        }
    }

    fn found(words: &str) -> (r: TokenTurn)
        ensures
            ends_with_text(words@, r),
    {
        let token = text::trim(words);
        if token.as_str().is_empty() {
            TokenTurn::End(Err(ConfigError::says("the local daemon token file is empty")))
        } else {
            TokenTurn::End(Ok(token))
        }
    }

    /// The creation of the token file with a given token.
    pub fn create(token: String) -> (r: TokenTurn)
        ensures
            r matches TokenTurn::Act(next, TokenAction::Create(written)) && next
                == LocalToken::Creating(token) && written@ == token@,
    {
        let written = token.clone();
        TokenTurn::Act(LocalToken::Creating(token), TokenAction::Create(written))
    }

    /// Takes what came of the action at hand.
    pub fn answer(self, reply: FileReply) -> (r: TokenTurn)
        ensures
            self.answered(reply, r),
    {
        match (self, reply) {
            (_, FileReply::Failed { path, error }) => {
                let mut s = path;
                s.append(": ");
                s.append(error.as_str());
                TokenTurn::End(Err(ConfigError(s)))
            },
            (LocalToken::Reading, FileReply::Text(words)) => LocalToken::found(words.as_str()),
            (LocalToken::Rereading, FileReply::Text(words)) => LocalToken::found(words.as_str()),
            (LocalToken::Reading, FileReply::NotFound) => TokenTurn::Act(
                LocalToken::MakingDir,
                TokenAction::MakeDir,
            ),
            (LocalToken::MakingDir, FileReply::Done) => LocalToken::create(fresh_token()),
            (LocalToken::Creating(token), FileReply::Done) => TokenTurn::End(Ok(token)),
            (LocalToken::Creating(_), FileReply::AlreadyExists) => TokenTurn::Act(
                LocalToken::Rereading,
                TokenAction::Read,
            ),
            _ => TokenTurn::End(Err(ConfigError::says("a reply arrived out of step"))),
        }
    }
}

/// A trailing slash is spelling, not meaning.
pub proof fn a_trailing_slash_is_spelling(address: Seq<char>)
    ensures
        normalized(address.push('/')) == normalized(address),
{
    assert(seq!['/'][0] == '/');
    assert(seq!['/'].contains('/'));
    assert(address.push('/').drop_last() =~= address);
}

/// The scheme of a plain address is spelling, not meaning: writing out the
/// one it gets changes nothing.
pub proof fn the_plain_scheme_is_spelling(address: Seq<char>)
    requires
        text::shorn(address, seq!['/']).len() > 0,
        !text::begins(text::shorn(address, seq!['/']), "http://"@),
        !text::begins(text::shorn(address, seq!['/']), "https://"@),
    ensures
        normalized("http://"@ + address) == normalized(address),
{
    lemma_shorn_behind("http://"@, address);
    let shown = "http://"@ + text::shorn(address, seq!['/']);
    assert(shown.subrange(0, "http://"@.len() as int) =~= "http://"@);
}

proof fn lemma_shorn_behind(front: Seq<char>, address: Seq<char>)
    requires
        text::shorn(address, seq!['/']).len() > 0,
    ensures
        text::shorn(front + address, seq!['/']) == front + text::shorn(address, seq!['/']),
    decreases address.len(),
{
    let whole = front + address;
    assert(whole.last() == address.last());
    if seq!['/'].contains(address.last()) {
        assert(whole.drop_last() =~= front + address.drop_last());
        lemma_shorn_behind(front, address.drop_last());
    }
}

/// Every local token is one that can be sent: never an empty one.
pub proof fn a_local_token_is_never_empty(at: LocalToken, reply: FileReply, to: TokenTurn)
    requires
        at.answered(reply, to),
        at matches LocalToken::Creating(token) ==> is_token(token@),
    ensures
        to matches TokenTurn::End(Ok(token)) ==> token@.len() > 0,
        to matches TokenTurn::Act(LocalToken::Creating(token), _) ==> is_token(token@),
{
}

} // verus!
