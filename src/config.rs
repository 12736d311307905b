//! Workspace configuration and the environment handed to a collection's
//! server.

use vstd::prelude::*;

verus! {

/// The health answer of a running server.
pub struct Status {
    pub active: bool,
}

/// One collection of the workspace and where it is served.
pub struct Collection {
    pub name: String,
    pub address: String,
    pub port: u16,
    pub protocol: String,
}

/// The workspace configuration.
pub struct Config {
    pub collections: Option<Vec<Collection>>,
    pub identity: Option<String>,
    pub rpc_url: Option<String>,
}

/// Where the signing identity comes from.
pub enum IdentitySource {
    /// A path to a keypair file, still to be tilde-expanded.
    KeypairPath(String),
    /// The keypair itself, as base58 text.
    Keypair(String),
}

/// The environment of a collection's server.
pub struct ServerEnv {
    pub identity: Option<IdentitySource>,
    pub rpc_url: Option<String>,
    pub address: String,
    pub port: u16,
    pub protocol: String,
}

/// What to do after one health poll.
#[derive(PartialEq, Eq, Structural, Clone, Copy, Debug)]
pub enum PollAction {
    /// The server answered that it is active.
    Ready,
    /// Poll again after this many milliseconds.
    RetryAfterMillis(u64),
}

pub open spec fn text_of(s: Option<String>) -> Option<Seq<char>> {
    match s {
        Some(v) => Some(v@),
        None => None,
    }
}

/// The source of the identity: a keypair path from the environment first,
/// then a keypair from the environment, then the configured identity path.
pub open spec fn identity_choice(
    path_var: Option<Seq<char>>,
    keypair_var: Option<Seq<char>>,
    configured: Option<Seq<char>>,
) -> Option<(bool, Seq<char>)> {
    match path_var {
        Some(p) => Some((true, p)),
        None => match keypair_var {
            Some(k) => Some((false, k)),
            None => match configured {
                Some(p) => Some((true, p)),
                None => None,
            },
        },
    }
}

impl View for IdentitySource {
    type V = (bool, Seq<char>);

    /// `true` with a path, `false` with a keypair.
    open spec fn view(&self) -> (bool, Seq<char>) {
        match self {
            IdentitySource::KeypairPath(p) => (true, p@),
            IdentitySource::Keypair(k) => (false, k@),
        }
    }
}

fn copy_text(s: &Option<String>) -> (r: Option<String>)
    ensures
        text_of(r) == text_of(*s),
{
    match s {
        Some(v) => Some(v.clone()),
        None => None,
    }
}

/// Picks the identity source from the two environment variables and the
/// configuration, in that order of precedence.
pub fn select_identity(
    path_var: Option<String>,
    keypair_var: Option<String>,
    config: &Config,
) -> (r: Option<IdentitySource>)
    ensures
        match r {
            Some(s) => identity_choice(text_of(path_var), text_of(keypair_var), text_of(config.identity))
                == Some(s@),
            None => identity_choice(text_of(path_var), text_of(keypair_var), text_of(config.identity)) is None,
        },
{
    match path_var {
        Some(p) => Some(IdentitySource::KeypairPath(p)),
        None => match keypair_var {
            Some(k) => Some(IdentitySource::Keypair(k)),
            None => match &config.identity {
                Some(p) => Some(IdentitySource::KeypairPath(p.clone())),
                None => None,
            },
        },
    }
}

/// The environment of `collection`'s server: the identity as
/// `select_identity` picks it, the configured RPC URL, and the address, port
/// and protocol given on the command line, each defaulting to the
/// collection's own.
pub fn server_env(
    config: &Config,
    collection: &Collection,
    address: Option<String>,
    port: Option<u16>,
    protocol: Option<String>,
    path_var: Option<String>,
    keypair_var: Option<String>,
) -> (r: ServerEnv)
    ensures
        match r.identity {
            Some(s) => identity_choice(text_of(path_var), text_of(keypair_var), text_of(config.identity))
                == Some(s@),
            None => identity_choice(text_of(path_var), text_of(keypair_var), text_of(config.identity)) is None,
        },
        text_of(r.rpc_url) == text_of(config.rpc_url),
        r.address@ == match address {
            Some(a) => a@,
            None => collection.address@,
        },
        r.port == match port {
            Some(p) => p,
            None => collection.port,
        },
        r.protocol@ == match protocol {
            Some(p) => p@,
            None => collection.protocol@,
        },
{
    let identity = select_identity(path_var, keypair_var, config);
    let address = match address {
        Some(a) => a,
        None => collection.address.clone(),
    };
    let port = match port {
        Some(p) => p,
        None => collection.port,
    };
    let protocol = match protocol {
        Some(p) => p,
        None => collection.protocol.clone(),
    };
    ServerEnv { identity, rpc_url: copy_text(&config.rpc_url), address, port, protocol }
}

/// The decision after one health poll: ready once an answer says the server
/// is active; otherwise (no answer, an unreadable one, or an inactive
/// server) poll again after a second.
pub fn poll_step(answer: Option<Status>) -> (r: PollAction)
    ensures
        r == (if answer matches Some(s) && s.active {
            PollAction::Ready
        } else {
            PollAction::RetryAfterMillis(1000)
        }),
{
    match answer {
        Some(s) => if s.active {
            PollAction::Ready
        } else {
            PollAction::RetryAfterMillis(1000)
        },
        None => PollAction::RetryAfterMillis(1000),
    }
}

} // verus!
