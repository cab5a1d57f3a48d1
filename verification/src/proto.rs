//! Outbound protocol lines.
//!
//! The lines are made and checked by the `pircolate` crate. What this module
//! states of `pircolate` is believed, not proved: each such function says so.

use vstd::prelude::*;
use vstd::string::StringExecFns;
use crate::model::BotError;
use crate::text::{byte_len, str_eq};

verus! {

/// The error type of `pircolate`. The library keeps of a value of it only
/// the text that `error_text` takes from it.
#[verifier::external_type_specification]
#[verifier::external_body]
pub struct ExProtocolError(pircolate::error::Error);

/// Whether `pircolate::message::client::priv_msg` accepts this target and
/// this text.
pub uninterp spec fn priv_msg_accepted(target: Seq<char>, text: Seq<char>) -> bool;

/// Whether `pircolate::message::client::nick` accepts this nickname.
pub uninterp spec fn nick_accepted(nick: Seq<char>) -> bool;

/// Whether `pircolate::message::client::user` accepts this user name and this
/// real name.
pub uninterp spec fn user_accepted(username: Seq<char>, realname: Seq<char>) -> bool;

/// Whether `pircolate::Message` can be parsed from this line.
pub uninterp spec fn line_accepted(line: Seq<char>) -> bool;

/// Whether `line` spells out a message: it is not a lone `@`, which opens a
/// list of tags and ends there, and `pircolate` parses it.
pub open spec fn spells_message(line: Seq<char>) -> bool {
    line != "@"@ && line_accepted(line)
}

/// The line that sends `text` to `target`.
pub open spec fn priv_msg_line(target: Seq<char>, text: Seq<char>) -> Seq<char> {
    "PRIVMSG "@ + target + " :"@ + text
}

/// The line that asks for the nickname `nick`.
pub open spec fn nick_line(nick: Seq<char>) -> Seq<char> {
    "NICK "@ + nick
}

/// The line that registers the user name and the real name.
pub open spec fn user_line(username: Seq<char>, realname: Seq<char>) -> Seq<char> {
    "USER "@ + username + " 0 * :"@ + realname
}

/// The line that ends the session with the farewell `text`.
pub open spec fn quit_line(text: Seq<char>) -> Seq<char> {
    "QUIT :"@ + text
}

/// The longest target, in bytes, that `pircolate` accepts whatever the text.
pub const MAX_TARGET_LEN: usize = 500;

/// Calls `pircolate::message::client::priv_msg`. Believed: the call succeeds
/// on the inputs that `priv_msg_accepted` names, and the message it then
/// gives has the raw text `PRIVMSG <target> :<text>`. Believed as well: a
/// target of at most `MAX_TARGET_LEN` bytes is accepted whatever the text,
/// since the parser counts the line's length only up to the colon before the
/// text, and refuses more than 510 bytes.
#[verifier::external_body]
fn client_priv_msg(target: &str, text: &str) -> (r: Result<String, pircolate::error::Error>)
    ensures
        r is Ok == priv_msg_accepted(target@, text@),
        r matches Ok(line) ==> line@ == priv_msg_line(target@, text@),
        byte_len(target@) <= MAX_TARGET_LEN ==> r is Ok,
{
    match pircolate::message::client::priv_msg(target, text) {
        Ok(m) => Ok(m.raw_message().to_owned()),
        Err(e) => Err(e),
    }
}

/// The longest nickname, in bytes, that `pircolate` accepts in any case.
pub const MAX_NICK_LEN: usize = 505;

/// The longest user name, in bytes, that `pircolate` accepts whatever the
/// real name.
pub const MAX_USERNAME_LEN: usize = 499;

/// Calls `pircolate::message::client::nick`. Believed: the call succeeds on
/// the inputs that `nick_accepted` names, and the message it then gives has
/// the raw text `NICK <nick>`. Believed as well: an empty nickname is
/// refused, since the line then ends after the space, and a nickname of
/// 1 to `MAX_NICK_LEN` bytes is accepted, since the line is then within the
/// 510 bytes that the parser allows.
#[verifier::external_body]
fn client_nick(nick: &str) -> (r: Result<String, pircolate::error::Error>)
    ensures
        r is Ok == nick_accepted(nick@),
        r matches Ok(line) ==> line@ == nick_line(nick@),
        nick@.len() == 0 ==> r is Err,
        0 < byte_len(nick@) <= MAX_NICK_LEN ==> r is Ok,
{
    match pircolate::message::client::nick(nick) {
        Ok(m) => Ok(m.raw_message().to_owned()),
        Err(e) => Err(e),
    }
}

/// Calls `pircolate::message::client::user`. Believed: the call succeeds on
/// the inputs that `user_accepted` names, and the message it then gives has
/// the raw text `USER <username> 0 * :<realname>`. Believed as well: a user
/// name of at most `MAX_USERNAME_LEN` bytes is accepted whatever the real
/// name, since the parser counts the line's length only up to the first
/// colon, and refuses more than 510 bytes.
#[verifier::external_body]
fn client_user(username: &str, realname: &str) -> (r: Result<String, pircolate::error::Error>)
    ensures
        r is Ok == user_accepted(username@, realname@),
        r matches Ok(line) ==> line@ == user_line(username@, realname@),
        byte_len(username@) <= MAX_USERNAME_LEN ==> r is Ok,
{
    match pircolate::message::client::user(username, realname) {
        Ok(m) => Ok(m.raw_message().to_owned()),
        Err(e) => Err(e),
    }
}

/// Parses a `pircolate::Message` from `line`, through its `FromStr`. The
/// line that is a lone `@` is left out: on it the parser reads past the end
/// of the line. Believed: the call succeeds on the lines that
/// `line_accepted` names, and the message it then gives has `line` as its raw
/// text.
#[verifier::external_body]
fn parse_message(line: &str) -> (r: Result<String, pircolate::error::Error>)
    requires
        line@ != "@"@,
    ensures
        r is Ok == line_accepted(line@),
        r matches Ok(raw) ==> raw@ == line@,
{
    match line.parse::<pircolate::Message>() {
        Ok(m) => Ok(m.raw_message().to_owned()),
        Err(e) => Err(e),
    }
}

/// What `pircolate` says of its error, through the error's `Display`.
/// Nothing is claimed of the text.
#[verifier::external_body]
fn error_text(e: &pircolate::error::Error) -> String {
    format!("{}", e)
}

/// A protocol line that `pircolate` has accepted.
#[derive(Debug)]
pub struct OutMsg {
    line: String,
}

impl View for OutMsg {
    type V = Seq<char>;

    closed spec fn view(&self) -> Seq<char> {
        self.line@
    }
}

impl OutMsg {
    /// The line, without its terminator.
    pub fn raw_message(&self) -> (r: &str)
        ensures
            r@ == self@,
    {
        self.line.as_str()
    }
}

/// The lines of a list of messages, in order.
pub open spec fn out_lines(msgs: Seq<OutMsg>) -> Seq<Seq<char>> {
    msgs.map_values(|m: OutMsg| m@)
}

/// The library's error for a line that `pircolate` refused.
fn refused(e: pircolate::error::Error) -> (r: BotError)
    ensures
        r is Protocol,
{
    BotError::Protocol(error_text(&e))
}

/// The message that sends `text` to `target`, if `pircolate` accepts it, as
/// it does for every target of at most `MAX_TARGET_LEN` bytes.
pub fn priv_msg(target: &str, text: &str) -> (r: Result<OutMsg, BotError>)
    ensures
        r is Ok == priv_msg_accepted(target@, text@),
        r matches Ok(m) ==> m@ == priv_msg_line(target@, text@),
        r matches Err(e) ==> e is Protocol,
        byte_len(target@) <= MAX_TARGET_LEN ==> r is Ok,
{
    match client_priv_msg(target, text) {
        Ok(line) => Ok(OutMsg { line }),
        Err(e) => Err(refused(e)),
    }
}

/// The message that asks for the nickname `nickname`, if `pircolate` accepts
/// it.
pub fn nick(nickname: &str) -> (r: Result<OutMsg, BotError>)
    ensures
        r is Ok == nick_accepted(nickname@),
        r matches Ok(m) ==> m@ == nick_line(nickname@),
        r matches Err(e) ==> e is Protocol,
        nickname@.len() == 0 ==> r is Err,
        0 < byte_len(nickname@) <= MAX_NICK_LEN ==> r is Ok,
{
    match client_nick(nickname) {
        Ok(line) => Ok(OutMsg { line }),
        Err(e) => Err(refused(e)),
    }
}

/// The message that registers the user name and the real name, if
/// `pircolate` accepts it.
pub fn user(username: &str, realname: &str) -> (r: Result<OutMsg, BotError>)
    ensures
        r is Ok == user_accepted(username@, realname@),
        r matches Ok(m) ==> m@ == user_line(username@, realname@),
        r matches Err(e) ==> e is Protocol,
        byte_len(username@) <= MAX_USERNAME_LEN ==> r is Ok,
{
    match client_user(username, realname) {
        Ok(line) => Ok(OutMsg { line }),
        Err(e) => Err(refused(e)),
    }
}

/// The message that `line` spells out, if `pircolate` accepts it. The line
/// that is a lone `@` opens a list of tags and ends there: it is refused
/// without asking `pircolate`.
pub fn raw_msg(line: &str) -> (r: Result<OutMsg, BotError>)
    ensures
        r is Ok == spells_message(line@),
        r matches Ok(m) ==> m@ == line@,
        r matches Err(e) ==> e is Protocol,
{
    if str_eq(line, "@") {
        return Err(BotError::Protocol(String::from_str("The line ends in its list of tags.")));
    }
    match parse_message(line) {
        Ok(line) => Ok(OutMsg { line }),
        Err(e) => Err(refused(e)),
    }
}

} // verus!
