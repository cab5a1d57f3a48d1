//! The values that the bot's core works on: who sent a message and where to,
//! what a command answers, and what the core hands back.

use vstd::prelude::*;

verus! {

/// The text of an optional string.
pub open spec fn opt_text(s: Option<String>) -> Option<Seq<char>> {
    match s {
        Some(s) => Some(s@),
        None => None,
    }
}

/// The texts of a list of strings, in order.
pub open spec fn list_texts(list: Seq<String>) -> Seq<Seq<char>> {
    list.map_values(|s: String| s@)
}

/// A copy of `s`.
pub fn clone_opt(s: &Option<String>) -> (r: Option<String>)
    ensures
        r == *s,
{
    match s {
        Some(s) => Some(s.clone()),
        None => None,
    }
}

/// The identity that a server attaches to a message: `nick!user@host`, each
/// part of which may be missing.
#[derive(Debug)]
pub struct MsgPrefix {
    pub nick: Option<String>,
    pub user: Option<String>,
    pub host: Option<String>,
}

/// What a `MsgPrefix` stands for.
pub struct MsgPrefixView {
    pub nick: Option<Seq<char>>,
    pub user: Option<Seq<char>>,
    pub host: Option<Seq<char>>,
}

impl View for MsgPrefix {
    type V = MsgPrefixView;

    open spec fn view(&self) -> MsgPrefixView {
        MsgPrefixView {
            nick: opt_text(self.nick),
            user: opt_text(self.user),
            host: opt_text(self.host),
        }
    }
}

impl Clone for MsgPrefix {
    fn clone(&self) -> (r: Self)
        ensures
            r == *self,
    {
        MsgPrefix {
            nick: clone_opt(&self.nick),
            user: clone_opt(&self.user),
            host: clone_opt(&self.host),
        }
    }
}

/// The channel or the nick that a message is addressed to.
#[derive(Debug)]
pub struct MsgTarget(pub String);

impl View for MsgTarget {
    type V = Seq<char>;

    open spec fn view(&self) -> Seq<char> {
        self.0@
    }
}

impl Clone for MsgTarget {
    fn clone(&self) -> (r: Self)
        ensures
            r == *self,
    {
        MsgTarget(self.0.clone())
    }
}

/// Where a message was sent to and who sent it.
#[derive(Debug)]
pub struct MsgMetadata {
    pub target: MsgTarget,
    pub prefix: MsgPrefix,
}

/// What a `MsgMetadata` stands for.
pub struct MsgMetadataView {
    pub target: Seq<char>,
    pub prefix: MsgPrefixView,
}

impl View for MsgMetadata {
    type V = MsgMetadataView;

    open spec fn view(&self) -> MsgMetadataView {
        MsgMetadataView { target: self.target@, prefix: self.prefix@ }
    }
}

/// A private or channel message as it came in.
#[derive(Debug)]
pub struct PrivMsg {
    pub metadata: MsgMetadata,
    pub text: String,
}

/// What a `PrivMsg` stands for.
pub struct PrivMsgView {
    pub metadata: MsgMetadataView,
    pub text: Seq<char>,
}

impl View for PrivMsg {
    type V = PrivMsgView;

    open spec fn view(&self) -> PrivMsgView {
        PrivMsgView { metadata: self.metadata@, text: self.text@ }
    }
}

/// An inbound protocol message, as far as the core tells messages apart.
#[derive(Debug)]
pub enum InboundMsg {
    /// A private or channel message.
    PrivMsg(PrivMsg),
    /// The server's notice that its welcome is over.
    ServerInfo,
    /// Anything else.
    Other,
}

/// Who may run a command.
#[derive(Clone, Copy, Debug, PartialEq, Eq, Structural)]
pub enum BotCmdAuthLvl {
    Public,
    Admin,
}

/// What should happen in answer to a message.
#[derive(Debug)]
pub enum Reaction {
    /// Nothing is said.
    Nothing,
    /// A line to the reply target.
    Msg(String),
    /// Lines to the reply target.
    Msgs(Vec<String>),
    /// A line to the reply target that addresses the sender.
    Reply(String),
    /// Lines to the reply target that address the sender.
    Replies(Vec<String>),
    /// A literal protocol line.
    RawMsg(String),
    /// A command line to run as if the sender had given it.
    BotCmd(String),
    /// The bot is to shut down, with a farewell or without one.
    Quit(Option<String>),
}

/// What a `Reaction` stands for.
pub enum ReactionView {
    Nothing,
    Msg(Seq<char>),
    Msgs(Seq<Seq<char>>),
    Reply(Seq<char>),
    Replies(Seq<Seq<char>>),
    RawMsg(Seq<char>),
    BotCmd(Seq<char>),
    Quit(Option<Seq<char>>),
}

impl View for Reaction {
    type V = ReactionView;

    open spec fn view(&self) -> ReactionView {
        match *self {
            Reaction::Nothing => ReactionView::Nothing,
            Reaction::Msg(s) => ReactionView::Msg(s@),
            Reaction::Msgs(a) => ReactionView::Msgs(list_texts(a@)),
            Reaction::Reply(s) => ReactionView::Reply(s@),
            Reaction::Replies(a) => ReactionView::Replies(list_texts(a@)),
            Reaction::RawMsg(s) => ReactionView::RawMsg(s@),
            Reaction::BotCmd(s) => ReactionView::BotCmd(s@),
            Reaction::Quit(s) => ReactionView::Quit(opt_text(s)),
        }
    }
}

/// Why the core could not do what was asked.
#[derive(Debug)]
pub enum BotError {
    /// A command with the right to do so asked the bot to shut down; the text
    /// is its farewell.
    ModuleRequestedQuit(Option<String>),
    /// A protocol line could not be made or read; the text says why.
    Protocol(String),
    /// The sender's prefix and the target leave no room for text on a line.
    LineBudget,
    /// A private message without a sender's nick cannot be answered.
    NoReplyTarget,
    /// Commands answered with commands more often in a row than the core
    /// follows.
    TooManyRedirects,
    /// Something a collaborator reported.
    Msg(String),
}

/// What a `BotError` stands for.
pub enum BotErrorView {
    ModuleRequestedQuit(Option<Seq<char>>),
    Protocol(Seq<char>),
    LineBudget,
    NoReplyTarget,
    TooManyRedirects,
    Msg(Seq<char>),
}

impl View for BotError {
    type V = BotErrorView;

    open spec fn view(&self) -> BotErrorView {
        match *self {
            BotError::ModuleRequestedQuit(s) => BotErrorView::ModuleRequestedQuit(opt_text(s)),
            BotError::Protocol(s) => BotErrorView::Protocol(s@),
            BotError::LineBudget => BotErrorView::LineBudget,
            BotError::NoReplyTarget => BotErrorView::NoReplyTarget,
            BotError::TooManyRedirects => BotErrorView::TooManyRedirects,
            BotError::Msg(s) => BotErrorView::Msg(s@),
        }
    }
}

impl Clone for BotError {
    fn clone(&self) -> (r: Self)
        ensures
            r == *self,
    {
        match self {
            BotError::ModuleRequestedQuit(s) => BotError::ModuleRequestedQuit(clone_opt(s)),
            BotError::Protocol(s) => BotError::Protocol(s.clone()),
            BotError::LineBudget => BotError::LineBudget,
            BotError::NoReplyTarget => BotError::NoReplyTarget,
            BotError::TooManyRedirects => BotError::TooManyRedirects,
            BotError::Msg(s) => BotError::Msg(s.clone()),
        }
    }
}

/// What a command's handler answers.
#[derive(Debug)]
pub enum BotCmdResult {
    /// The command went through, with this outcome.
    Okay(Reaction),
    /// The sender may not use the command.
    Unauthorized,
    /// The arguments do not have the command's syntax.
    SyntaxErr,
    /// The named argument is required and was not given.
    ArgMissing(String),
    /// The named argument is required outside a channel and was not given.
    ArgMissing1To1(String),
    /// A collaborator failed.
    LibErr(BotError),
    /// The sender made a mistake, described by the text.
    UserErrMsg(String),
    /// The bot has a defect, described by the text.
    BotErrMsg(String),
}

/// What a `BotCmdResult` stands for.
pub enum BotCmdResultView {
    Okay(ReactionView),
    Unauthorized,
    SyntaxErr,
    ArgMissing(Seq<char>),
    ArgMissing1To1(Seq<char>),
    LibErr(BotErrorView),
    UserErrMsg(Seq<char>),
    BotErrMsg(Seq<char>),
}

impl View for BotCmdResult {
    type V = BotCmdResultView;

    open spec fn view(&self) -> BotCmdResultView {
        match *self {
            BotCmdResult::Okay(r) => BotCmdResultView::Okay(r@),
            BotCmdResult::Unauthorized => BotCmdResultView::Unauthorized,
            BotCmdResult::SyntaxErr => BotCmdResultView::SyntaxErr,
            BotCmdResult::ArgMissing(s) => BotCmdResultView::ArgMissing(s@),
            BotCmdResult::ArgMissing1To1(s) => BotCmdResultView::ArgMissing1To1(s@),
            BotCmdResult::LibErr(e) => BotCmdResultView::LibErr(e@),
            BotCmdResult::UserErrMsg(s) => BotCmdResultView::UserErrMsg(s@),
            BotCmdResult::BotErrMsg(s) => BotCmdResultView::BotErrMsg(s@),
        }
    }
}

/// What the error handler decides after an error.
#[derive(Debug)]
pub enum ErrorReaction {
    /// Go on with the next message.
    Proceed,
    /// Shut down, with a farewell or without one.
    Quit(Option<String>),
}

} // verus!
