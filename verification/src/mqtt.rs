//! What the MQTT connector is set up with, and how it reads what arrives.

use crate::command::{Command, CommandView};
use crate::settings::Credentials;
use crate::text::opt_string_view;
use vstd::prelude::*;
use vstd::string::StringExecFns;

verus! {

/// The topic filter that commands are subscribed with.
pub const COMMAND_FILTER: &'static str = "command/inbox/#";

/// What every topic that carries a command begins with.
pub const COMMAND_PREFIX: &'static str = "command/inbox//";

/// The seconds between two keep-alive messages.
pub const KEEP_ALIVE_SECS: u64 = 2;

/// The seconds after which connecting or subscribing is given up.
pub const TIMEOUT_SECS: u64 = 5;

/// What the connector connects with.
pub struct MqttConnector {
    pub username: Option<String>,
    pub password: Option<String>,
}

/// Whether `text` begins with `prefix`.
pub open spec fn starts_with(text: Seq<char>, prefix: Seq<char>) -> bool {
    prefix.len() <= text.len() && text.take(prefix.len() as int) == prefix
}

/// `str::strip_prefix` with a string as the pattern: what follows `prefix`
/// where `text` begins with it, and nothing where it does not.
#[verifier::external_body]
fn strip_prefix<'a>(text: &'a str, prefix: &str) -> (res: Option<&'a str>)
    ensures
        match res {
            Some(rest) => starts_with(text@, prefix@) && rest@ == text@.skip(prefix@.len() as int),
            None => !starts_with(text@, prefix@),
        },
{
    text.strip_prefix(prefix)
}

/// The name that a device logs in with when it has a password only.
pub open spec fn device_login(device: Seq<char>, application: Seq<char>) -> Seq<char> {
    device + "@"@ + application
}

/// The command that a message on `topic` carries, if it carries one: the
/// topic without what command topics begin with is the command's name.
pub open spec fn command_in(topic: Seq<char>, payload: Seq<u8>) -> Option<CommandView> {
    if starts_with(topic, COMMAND_PREFIX@) {
        Some(
            CommandView {
                name: topic.skip(COMMAND_PREFIX@.len() as int),
                payload: Some(payload),
            },
        )
    } else {
        None
    }
}

impl MqttConnector {
    /// The connector for a device `device` of `application` that proves who
    /// it is with `credentials`.
    pub fn new(credentials: &Credentials, device: &str, application: &str) -> (res: Self)
        ensures
            match *credentials {
                Credentials::Anonymous => res.username is None && res.password is None,
                Credentials::Password(password) => opt_string_view(res.username) == Some(
                    device_login(device@, application@),
                ) && opt_string_view(res.password) == Some(password@),
                Credentials::UsernamePassword { username, password } => opt_string_view(
                    res.username,
                ) == Some(username@) && opt_string_view(res.password) == Some(password@),
            },
    {
        match credentials {
            Credentials::Anonymous => MqttConnector { username: None, password: None },
            Credentials::Password(password) => {
                let mut login = device.to_owned();
                login.append("@");
                login.append(application);
                MqttConnector { username: Some(login), password: Some(password.clone()) }
            },
            Credentials::UsernamePassword { username, password } => MqttConnector {
                username: Some(username.clone()),
                password: Some(password.clone()),
            },
        }
    }

    /// The command that a message on `topic` with `payload` carries, if it
    /// carries one.
    pub fn command(topic: &str, payload: Vec<u8>) -> (res: Option<Command>)
        ensures
            match res {
                Some(command) => command_in(topic@, payload@) == Some(command@),
                None => command_in(topic@, payload@) is None,
            },
    {
        match strip_prefix(topic, COMMAND_PREFIX) {
            Some(name) => Some(Command { name: name.to_owned(), payload: Some(payload) }),
            None => None,
        }
    }
}

} // verus!
