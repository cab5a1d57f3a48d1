//! What the bot answers when a command does not simply go through, and the
//! rule that only an administrator's command ends the bot.

use vstd::prelude::*;
use vstd::string::StringExecFns;
use crate::model::{
    BotCmdAuthLvl, BotCmdResult, BotCmdResultView, BotError, BotErrorView, Reaction, ReactionView,
};
use crate::text::{debug_quote, str_debug};

verus! {

/// The name of an authorization level.
pub open spec fn auth_lvl_name(lvl: BotCmdAuthLvl) -> Seq<char> {
    match lvl {
        BotCmdAuthLvl::Public => "Public"@,
        BotCmdAuthLvl::Admin => "Admin"@,
    }
}

/// How an optional text is shown to an operator: `None`, or the quoted text
/// in `Some(..)`.
pub open spec fn opt_debug(text: Option<Seq<char>>) -> Seq<char> {
    match text {
        Some(s) => "Some("@ + str_debug(s) + ")"@,
        None => "None"@,
    }
}

/// What an error says of itself.
pub open spec fn error_display(e: BotErrorView) -> Seq<char> {
    match e {
        BotErrorView::ModuleRequestedQuit(msg) => "The bot was told to quit, with quit message "@
            + opt_debug(msg) + "."@,
        BotErrorView::Protocol(s) => s,
        BotErrorView::LineBudget =>
            "The sender's prefix and the target leave no room for text on a line."@,
        BotErrorView::NoReplyTarget =>
            "A private message without a sender's nick cannot be answered."@,
        BotErrorView::TooManyRedirects =>
            "Too many commands in a row answered with another command."@,
        BotErrorView::Msg(s) => s,
    }
}

/// The answer to a command that the bot does not know.
pub open spec fn unknown_command_text(name: Seq<char>) -> Seq<char> {
    "Unknown command "@ + str_debug(name) + "; apologies."@
}

/// The answer to a sender who may not use the command.
pub open spec fn unauthorized_text(name: Seq<char>) -> Seq<char> {
    "My apologies, but you do not appear to have sufficient authority to use my "@ + str_debug(
        name,
    ) + " command."@
}

/// The answer to arguments that do not have the command's syntax.
pub open spec fn syntax_text(name: Seq<char>, usage: Seq<char>) -> Seq<char> {
    "Syntax: "@ + name + " "@ + usage
}

/// The answer to a missing argument.
pub open spec fn arg_missing_text(name: Seq<char>, arg: Seq<char>) -> Seq<char> {
    "Syntax error: For command "@ + str_debug(name) + ", the argument "@ + str_debug(arg)
        + " is required, but it was not given."@
}

/// The answer to an argument that is missing outside a channel.
pub open spec fn arg_missing_1to1_text(name: Seq<char>, arg: Seq<char>) -> Seq<char> {
    "Syntax error: When command "@ + str_debug(name)
        + " is used outside of a channel, the argument "@ + str_debug(arg)
        + " is required, but it was not given."@
}

/// The answer to a collaborator's failure.
pub open spec fn lib_err_text(e: BotErrorView) -> Seq<char> {
    "Error: "@ + error_display(e)
}

/// The answer to a sender's mistake.
pub open spec fn user_err_text(s: Seq<char>) -> Seq<char> {
    "User error: "@ + s
}

/// The answer to a defect of the bot.
pub open spec fn bot_err_text(s: Seq<char>) -> Seq<char> {
    "Internal error: "@ + s
}

/// What is reported when a command without the right to do so tells the bot
/// to quit.
pub open spec fn quit_refused_text(
    name: Seq<char>,
    provider: Seq<char>,
    lvl: BotCmdAuthLvl,
    quit_msg: Option<Seq<char>>,
) -> Seq<char> {
    "Only commands at authorization level "@ + auth_lvl_name(BotCmdAuthLvl::Admin)
        + " may tell the bot to quit, but the command "@ + str_debug(name) + " from module "@
        + str_debug(provider) + ", at authorization level "@ + auth_lvl_name(lvl)
        + ", has told the bot to quit with quit message "@ + opt_debug(quit_msg) + "."@
}

/// The result of a command once the right to end the bot is enforced: a
/// request to quit from a command that is not at level `Admin` becomes the
/// report of a defect, and everything else stays.
pub open spec fn quit_guarded(
    name: Seq<char>,
    provider: Seq<char>,
    lvl: BotCmdAuthLvl,
    result: BotCmdResultView,
) -> BotCmdResultView {
    match result {
        BotCmdResultView::Okay(ReactionView::Quit(msg)) => if lvl == BotCmdAuthLvl::Admin {
            result
        } else {
            BotCmdResultView::BotErrMsg(quit_refused_text(name, provider, lvl, msg))
        },
        _ => result,
    }
}

/// What the bot does about the result of the command called `name`: the
/// command's own reaction where it went through, and a reply that says what
/// went wrong where it did not.
pub open spec fn result_reaction(
    name: Seq<char>,
    usage: Seq<char>,
    result: BotCmdResultView,
) -> ReactionView {
    match result {
        BotCmdResultView::Okay(r) => r,
        BotCmdResultView::Unauthorized => ReactionView::Reply(unauthorized_text(name)),
        BotCmdResultView::SyntaxErr => ReactionView::Reply(syntax_text(name, usage)),
        BotCmdResultView::ArgMissing(arg) => ReactionView::Reply(arg_missing_text(name, arg)),
        BotCmdResultView::ArgMissing1To1(arg) => ReactionView::Reply(
            arg_missing_1to1_text(name, arg),
        ),
        BotCmdResultView::LibErr(e) => ReactionView::Reply(lib_err_text(e)),
        BotCmdResultView::UserErrMsg(s) => ReactionView::Reply(user_err_text(s)),
        BotCmdResultView::BotErrMsg(s) => ReactionView::Reply(bot_err_text(s)),
    }
}

/// A request to quit from a command that is open to everybody is not
/// passed on: the bot replies with the report of a defect that names the
/// command, its module, its level and the farewell.
pub proof fn lemma_public_quit_is_reported(
    name: Seq<char>,
    provider: Seq<char>,
    usage: Seq<char>,
    farewell: Option<Seq<char>>,
)
    ensures
        quit_guarded(
            name,
            provider,
            BotCmdAuthLvl::Public,
            BotCmdResultView::Okay(ReactionView::Quit(farewell)),
        ) == BotCmdResultView::BotErrMsg(
            quit_refused_text(name, provider, BotCmdAuthLvl::Public, farewell),
        ),
        result_reaction(
            name,
            usage,
            quit_guarded(
                name,
                provider,
                BotCmdAuthLvl::Public,
                BotCmdResultView::Okay(ReactionView::Quit(farewell)),
            ),
        ) == ReactionView::Reply(
            bot_err_text(quit_refused_text(name, provider, BotCmdAuthLvl::Public, farewell)),
        ),
{
}

/// Whatever a command that is open to everybody answers, what the bot does
/// about it is not to quit.
pub proof fn lemma_public_command_never_quits(
    name: Seq<char>,
    provider: Seq<char>,
    usage: Seq<char>,
    result: BotCmdResultView,
)
    ensures
        !(result_reaction(name, usage, quit_guarded(name, provider, BotCmdAuthLvl::Public, result))
            is Quit),
{
}

/// A request to quit from a command at level `Admin` stands.
pub proof fn lemma_admin_quit_stands(
    name: Seq<char>,
    provider: Seq<char>,
    usage: Seq<char>,
    farewell: Option<Seq<char>>,
)
    ensures
        result_reaction(
            name,
            usage,
            quit_guarded(
                name,
                provider,
                BotCmdAuthLvl::Admin,
                BotCmdResultView::Okay(ReactionView::Quit(farewell)),
            ),
        ) == ReactionView::Quit(farewell),
{
}

/// The name of `lvl`.
pub fn auth_lvl_str(lvl: BotCmdAuthLvl) -> (r: &'static str)
    ensures
        r@ == auth_lvl_name(lvl),
{
    match lvl {
        BotCmdAuthLvl::Public => "Public",
        BotCmdAuthLvl::Admin => "Admin",
    }
}

/// Shows an optional text as `opt_debug` says.
pub fn opt_debug_string(text: &Option<String>) -> (r: String)
    ensures
        r@ == opt_debug(crate::model::opt_text(*text)),
{
    match text {
        Some(s) => {
            let mut r = String::from_str("Some(");
            r.append(debug_quote(s.as_str()).as_str());
            r.append(")");
            r
        },
        None => String::from_str("None"),
    }
}

impl BotError {
    /// What the error says of itself.
    pub fn to_text(&self) -> (r: String)
        ensures
            r@ == error_display(self@),
    {
        match self {
            BotError::ModuleRequestedQuit(msg) => {
                let mut r = String::from_str("The bot was told to quit, with quit message ");
                r.append(opt_debug_string(msg).as_str());
                r.append(".");
                r
            },
            BotError::Protocol(s) => s.clone(),
            BotError::LineBudget => String::from_str(
                "The sender's prefix and the target leave no room for text on a line.",
            ),
            BotError::NoReplyTarget => String::from_str(
                "A private message without a sender's nick cannot be answered.",
            ),
            BotError::TooManyRedirects => String::from_str(
                "Too many commands in a row answered with another command.",
            ),
            BotError::Msg(s) => s.clone(),
        }
    }
}

/// The answer to a command that the bot does not know.
pub fn unknown_command_reply(name: &str) -> (r: Reaction)
    ensures
        r@ == ReactionView::Reply(unknown_command_text(name@)),
{
    let mut text = String::from_str("Unknown command ");
    text.append(debug_quote(name).as_str());
    text.append("; apologies.");
    Reaction::Reply(text)
}

/// Enforces the right to end the bot on the result of the command `name` of
/// the module `provider`, which is at level `lvl`.
pub fn guard_quit(name: &str, provider: &str, lvl: BotCmdAuthLvl, result: BotCmdResult) -> (r:
    BotCmdResult)
    ensures
        r@ == quit_guarded(name@, provider@, lvl, result@),
{
    match result {
        BotCmdResult::Okay(Reaction::Quit(msg)) => {
            match lvl {
                BotCmdAuthLvl::Admin => BotCmdResult::Okay(Reaction::Quit(msg)),
                BotCmdAuthLvl::Public => {
                    let mut text = String::from_str("Only commands at authorization level ");
                    text.append(auth_lvl_str(BotCmdAuthLvl::Admin));
                    text.append(" may tell the bot to quit, but the command ");
                    text.append(debug_quote(name).as_str());
                    text.append(" from module ");
                    text.append(debug_quote(provider).as_str());
                    text.append(", at authorization level ");
                    text.append(auth_lvl_str(lvl));
                    text.append(", has told the bot to quit with quit message ");
                    text.append(opt_debug_string(&msg).as_str());
                    text.append(".");
                    BotCmdResult::BotErrMsg(text)
                },
            }
        },
        other => other,
    }
}

/// Turns the result of the command called `name` into what the bot does
/// about it.
pub fn command_reaction(name: &str, usage: &str, result: BotCmdResult) -> (r: Reaction)
    ensures
        r@ == result_reaction(name@, usage@, result@),
{
    match result {
        BotCmdResult::Okay(r) => r,
        BotCmdResult::Unauthorized => {
            let mut text = String::from_str(
                "My apologies, but you do not appear to have sufficient authority to use my ",
            );
            text.append(debug_quote(name).as_str());
            text.append(" command.");
            Reaction::Reply(text)
        },
        BotCmdResult::SyntaxErr => {
            let mut text = String::from_str("Syntax: ");
            text.append(name);
            text.append(" ");
            text.append(usage);
            Reaction::Reply(text)
        },
        BotCmdResult::ArgMissing(arg) => {
            let mut text = String::from_str("Syntax error: For command ");
            text.append(debug_quote(name).as_str());
            text.append(", the argument ");
            text.append(debug_quote(arg.as_str()).as_str());
            text.append(" is required, but it was not given.");
            Reaction::Reply(text)
        },
        BotCmdResult::ArgMissing1To1(arg) => {
            let mut text = String::from_str("Syntax error: When command ");
            text.append(debug_quote(name).as_str());
            text.append(" is used outside of a channel, the argument ");
            text.append(debug_quote(arg.as_str()).as_str());
            text.append(" is required, but it was not given.");
            Reaction::Reply(text)
        },
        BotCmdResult::LibErr(e) => {
            let mut text = String::from_str("Error: ");
            text.append(e.to_text().as_str());
            Reaction::Reply(text)
        },
        BotCmdResult::UserErrMsg(s) => {
            let mut text = String::from_str("User error: ");
            text.append(s.as_str());
            Reaction::Reply(text)
        },
        BotCmdResult::BotErrMsg(s) => {
            let mut text = String::from_str("Internal error: ");
            text.append(s.as_str());
            Reaction::Reply(text)
        },
    }
}

} // verus!
