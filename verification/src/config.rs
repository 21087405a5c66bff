//! Where to dial and what to call ourselves.
use vstd::prelude::*;

use crate::words::{parse_u64, same, trim, trimmed, unsigned_value};

verus! {

/// Where to dial and what to call ourselves, read from the environment. There is no flag and no
/// file: a pod spec already says all of it, and a second way to say it is a second thing that can
/// disagree.
pub struct Config {
    pub host: String,
    pub port: u16,
    pub bot_name: String,
    /// What proves to the server that this is one of its own bots, when it has one to check
    /// against. Sent once in `hello` and kept out of every log line.
    pub link_token: Option<String>,
    pub health_port: u16,
    /// In milliseconds.
    pub reconnect_min: u64,
    pub reconnect_max: u64,
}

/// What a variable of the environment holds, where it holds more than white space.
pub open spec fn variable(env: Seq<(String, String)>, name: Seq<char>) -> Option<Seq<char>>
    decreases env.len(),
{
    if env.len() == 0 {
        None
    } else if env[0].0@ == name {
        if trimmed(env[0].1@).len() > 0 {
            Some(env[0].1@)
        } else {
            None
        }
    } else {
        variable(env.drop_first(), name)
    }
}

/// The number a variable spells, where it is at most `most`.
pub open spec fn number_in(env: Seq<(String, String)>, name: Seq<char>, most: int) -> Option<int> {
    match variable(env, name) {
        Some(value) => match unsigned_value(trimmed(value)) {
            Some(n) => if n <= most {
                Some(n)
            } else {
                None
            },
            None => None,
        },
        None => None,
    }
}

pub open spec fn or_default<T>(value: Option<T>, default: T) -> T {
    match value {
        Some(value) => value,
        None => default,
    }
}

impl Config {
    /// What an environment says, given as its variables.
    pub fn from_env(env: &Vec<(String, String)>) -> (r: Config)
        ensures
            r.host@ == or_default(variable(env@, "MCP_SERVER_HOST"@), "127.0.0.1"@),
            r.port == or_default(number_in(env@, "MCP_SERVER_PORT"@, u16::MAX as int), 8765),
            r.bot_name@ == or_default(
                variable(env@, "BOT_NAME"@),
                or_default(variable(env@, "HOSTNAME"@), "azalea"@),
            ),
            match r.link_token {
                Some(token) => variable(env@, "BOT_LINK_TOKEN"@) == Some(token@),
                None => variable(env@, "BOT_LINK_TOKEN"@) is None,
            },
            r.health_port == or_default(number_in(env@, "HEALTH_PORT"@, u16::MAX as int), 8080),
            r.reconnect_min == or_default(
                number_in(env@, "RECONNECT_MIN_MS"@, u64::MAX as int),
                500,
            ),
            r.reconnect_max == or_default(
                number_in(env@, "RECONNECT_MAX_MS"@, u64::MAX as int),
                15000,
            ),
    {
        Config {
            host: match text(env, "MCP_SERVER_HOST") {
                Some(host) => host.to_owned(),
                None => "127.0.0.1".to_owned(),
            },
            port: match number(env, "MCP_SERVER_PORT", 65535) {
                Some(port) => port as u16,
                None => 8765,
            },
            bot_name: match text(env, "BOT_NAME") {
                Some(name) => name.to_owned(),
                None => match text(env, "HOSTNAME") {
                    Some(name) => name.to_owned(),
                    None => "azalea".to_owned(),
                },
            },
            link_token: match text(env, "BOT_LINK_TOKEN") {
                Some(token) => Some(token.to_owned()),
                None => None,
            },
            health_port: match number(env, "HEALTH_PORT", 65535) {
                Some(port) => port as u16,
                None => 8080,
            },
            reconnect_min: match number(env, "RECONNECT_MIN_MS", u64::MAX) {
                Some(ms) => ms,
                None => 500,
            },
            reconnect_max: match number(env, "RECONNECT_MAX_MS", u64::MAX) {
                Some(ms) => ms,
                None => 15000,
            },
        }
    }
}

fn text<'a>(env: &'a Vec<(String, String)>, name: &str) -> (r: Option<&'a str>)
    ensures
        match r {
            Some(value) => variable(env@, name@) == Some(value@),
            None => variable(env@, name@) is None,
        },
{
    let mut i: usize = 0;
    proof {
        assert(env@.skip(0) =~= env@);
    }
    while i < env.len()
        invariant
            i <= env@.len(),
            variable(env@, name@) == variable(env@.skip(i as int), name@),
        decreases env@.len() - i,
    {
        proof {
            assert(env@.skip(i as int)[0] == env@[i as int]);
            assert(env@.skip(i as int).drop_first() =~= env@.skip(i as int + 1));
        }
        if same(env[i].0.as_str(), name) {
            let bare = trim(env[i].1.as_str());
            if same(bare.as_str(), "") {
                proof {
                    reveal_strlit("");
                }
                return None;
            }
            proof {
                reveal_strlit("");
                if trimmed(env@[i as int].1@).len() == 0 {
                    assert(trimmed(env@[i as int].1@) =~= ""@);
                }
            }
            return Some(env[i].1.as_str());
        }
        i += 1;
    }
    None
}

fn number(env: &Vec<(String, String)>, name: &str, most: u64) -> (r: Option<u64>)
    ensures
        match r {
            Some(n) => number_in(env@, name@, most as int) == Some(n as int) && n <= most,
            None => number_in(env@, name@, most as int) is None,
        },
{
    match text(env, name) {
        Some(value) => match parse_u64(trim(value).as_str()) {
            Some(n) => if n <= most {
                Some(n)
            } else {
                None
            },
            None => None,
        },
        None => None,
    }
}

/// A variable is what it was set to, and one that is blank or missing is not set.
pub proof fn a_variable_is_what_it_was_set_to(env: Seq<(String, String)>, name: Seq<char>, most: int)
    requires
        env.len() > 0,
    ensures
        env[0].0@ == name && trimmed(env[0].1@).len() > 0 ==> variable(env, name) == Some(env[0].1@),
        env[0].0@ == name && trimmed(env[0].1@).len() == 0 ==> variable(env, name) is None,
        env[0].0@ != name ==> variable(env, name) == variable(env.drop_first(), name),
        variable(env, name) matches Some(value) ==> (unsigned_value(trimmed(value)) matches Some(n) ==> (
        n <= most ==> number_in(env, name, most) == Some(n)) && (n > most ==> number_in(env, name, most) is None)),
        variable(env, name) is None ==> number_in(env, name, most) is None,
        variable(Seq::empty(), name) is None,
{
}

/// What is not set is its default.
pub proof fn what_is_not_set_is_its_default<T>(value: T, default: T)
    ensures
        or_default(Some(value), default) == value,
        or_default(None, default) == default,
{
}

} // verus!
