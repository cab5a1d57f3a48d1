//! What the bot knows for as long as it runs: its configuration, its
//! commands, its collaborators, and its own prefix as the server shows it.

use vstd::prelude::*;
use crate::model::{
    BotCmdAuthLvl, BotCmdResult, BotError, ErrorReaction, MsgMetadata, MsgPrefix, MsgPrefixView,
};
use crate::text::{add_capped, byte_len, capped, str_eq, str_len};

verus! {

/// What can be asked whether a sender is an administrator: a function from
/// the sender's prefix to yes or no, which may fail.
pub trait AdminFn: Fn(&MsgPrefix) -> Result<bool, BotError> {

}

impl<F: Fn(&MsgPrefix) -> Result<bool, BotError>> AdminFn for F {

}

/// The check for administrators that the program around the bot supplies.
/// It can be asked about every prefix.
pub struct AdminCheck<A: AdminFn> {
    check: A,
}

impl<A: AdminFn> AdminCheck<A> {
    #[verifier::type_invariant]
    spec fn can_be_asked(self) -> bool {
        forall|prefix: MsgPrefix| call_requires(self.check, (&prefix,))
    }

    /// Whether `r` is an answer that the check gives for the sender with the
    /// prefix `prefix`.
    pub closed spec fn answers(&self, prefix: MsgPrefix, r: Result<bool, BotError>) -> bool {
        call_ensures(self.check, (&prefix,), r)
    }

    /// The check that asks `check`.
    pub fn new(check: A) -> (r: Self)
        requires
            forall|prefix: MsgPrefix| call_requires(check, (&prefix,)),
        ensures
            forall|prefix: MsgPrefix, answer: Result<bool, BotError>|
                #[trigger] r.answers(prefix, answer) == call_ensures(check, (&prefix,), answer),
    {
        AdminCheck { check }
    }

    /// Asks whether the sender with the prefix `prefix` is an administrator.
    /// The check itself may fail.
    pub fn have_admin(&self, prefix: &MsgPrefix) -> (r: Result<bool, BotError>)
        ensures
            self.answers(*prefix, r),
    {
        proof {
            use_type_invariant(self);
        }
        (self.check)(prefix)
    }
}

/// What a command does when it is run. A module implements this for the
/// commands that it brings.
pub trait BotCmdHandler<A: AdminFn>: Sized {
    /// Whether `r` is an answer that the command may give for the message
    /// with this metadata and these arguments. A module that says nothing of
    /// its commands leaves this as it is: then every answer is one.
    open spec fn answers(
        &self,
        state: &State<Self, A>,
        metadata: &MsgMetadata,
        args: Seq<char>,
        r: BotCmdResult,
    ) -> bool {
        true
    }

    /// Runs the command for the message with this metadata and these
    /// arguments.
    fn run(&self, state: &State<Self, A>, metadata: &MsgMetadata, args: &str) -> (r: BotCmdResult)
        ensures
            self.answers(state, metadata, args@, r),
    ;
}

/// Takes the errors that the core cannot turn into a reply.
pub trait ErrorHandler {
    /// Takes note of `err` and decides how to go on.
    fn handle(&self, err: BotError) -> ErrorReaction;
}

/// A command: what it is called, where it comes from, who may run it, what
/// it does, and how it is used.
pub struct BotCommand<H> {
    /// The name by which the command is called and found.
    pub name: String,
    /// The name of the module that brought the command.
    pub provider: String,
    /// Who may run the command.
    pub auth_lvl: BotCmdAuthLvl,
    /// What the command does.
    pub handler: H,
    /// The syntax of the command's arguments.
    pub usage: String,
    /// What the command is for.
    pub help_msg: String,
}

/// What a `BotCommand` stands for, but for what it does.
pub struct BotCommandView {
    pub name: Seq<char>,
    pub provider: Seq<char>,
    pub auth_lvl: BotCmdAuthLvl,
    pub usage: Seq<char>,
    pub help_msg: Seq<char>,
}

impl<H> View for BotCommand<H> {
    type V = BotCommandView;

    open spec fn view(&self) -> BotCommandView {
        BotCommandView {
            name: self.name@,
            provider: self.provider@,
            auth_lvl: self.auth_lvl,
            usage: self.usage@,
            help_msg: self.help_msg@,
        }
    }
}

/// Whether no two of `commands` have the same name.
pub open spec fn names_unique<H>(commands: Seq<BotCommand<H>>) -> bool {
    forall|i: int, j: int|
        0 <= i < j < commands.len() ==> (#[trigger] commands[i]).name@ != (
        #[trigger] commands[j]).name@
}

/// Whether one of `commands` has the name `name`.
pub open spec fn has_command<H>(commands: Seq<BotCommand<H>>, name: Seq<char>) -> bool {
    exists|i: int| 0 <= i < commands.len() && (#[trigger] commands[i]).name@ == name
}

/// The commands of the bot, found by name. No two commands have the same
/// name.
pub struct CommandRegistry<H> {
    commands: Vec<BotCommand<H>>,
}

impl<H> CommandRegistry<H> {
    /// The commands, in the order in which they were added.
    pub closed spec fn entries(&self) -> Seq<BotCommand<H>> {
        self.commands@
    }

    /// No two commands have the same name.
    pub open spec fn wf(&self) -> bool {
        names_unique(self.entries())
    }

    /// A registry without commands.
    pub fn new() -> (r: Self)
        ensures
            r.wf(),
            r.entries().len() == 0,
    {
        CommandRegistry { commands: Vec::new() }
    }

    /// The number of commands.
    pub fn len(&self) -> (n: usize)
        ensures
            n == self.entries().len(),
    {
        self.commands.len()
    }

    /// The position of the command called `name`, if there is one.
    fn position(&self, name: &str) -> (r: Option<usize>)
        ensures
            match r {
                Some(i) => i < self.entries().len() && self.entries()[i as int].name@ == name@,
                None => !has_command(self.entries(), name@),
            },
    {
        let n = self.commands.len();
        let mut i: usize = 0;
        while i < n
            invariant
                n == self.commands.len(),
                i <= n,
                forall|k: int| 0 <= k < i ==> (#[trigger] self.commands[k]).name@ != name@,
            decreases n - i,
        {
            if str_eq(self.commands[i].name.as_str(), name) {
                return Some(i);
            }
            i += 1;
        }
        None
    }

    /// The command called `name`, if there is one.
    pub fn lookup(&self, name: &str) -> (r: Option<&BotCommand<H>>)
        ensures
            match r {
                Some(cmd) => cmd.name@ == name@ && self.entries().contains(*cmd),
                None => !has_command(self.entries(), name@),
            },
    {
        match self.position(name) {
            Some(i) => {
                assert(self.entries()[i as int] == self.commands[i as int]);
                Some(&self.commands[i])
            },
            None => None,
        }
    }

    /// Adds `cmd`, unless a command of its name is there already: then the
    /// registry stays as it is and `cmd` comes back.
    pub fn insert(&mut self, cmd: BotCommand<H>) -> (r: Result<(), BotCommand<H>>)
        requires
            old(self).wf(),
        ensures
            final(self).wf(),
            match r {
                Ok(()) => !has_command(old(self).entries(), cmd.name@) && final(self).entries()
                    == old(self).entries().push(cmd),
                Err(back) => {
                    &&& has_command(old(self).entries(), cmd.name@)
                    &&& back == cmd
                    &&& final(self).entries() == old(self).entries()
                },
            },
    {
        match self.position(cmd.name.as_str()) {
            Some(_) => Err(cmd),
            None => {
                self.commands.push(cmd);
                Ok(())
            },
        }
    }
}

/// How the bot names itself to the server and to the people it answers.
pub struct Config {
    /// The nickname that the bot asks for.
    pub nick: String,
    /// The user name that the bot registers.
    pub username: String,
    /// The real name that the bot registers.
    pub realname: String,
    /// What follows the addressee's nick at the start of a reply.
    pub addressee_suffix: String,
}

/// How far the bot has come in making itself known to the server and in
/// learning its own prefix.
#[derive(Clone, Copy, Debug, PartialEq, Eq, Structural)]
pub enum HandshakePhase {
    /// Nothing has been sent.
    Connecting,
    /// The nickname and the user have been given; the server's welcome is
    /// awaited.
    AwaitingWelcome,
    /// The server's welcome is over; the bot has not yet asked for its
    /// prefix.
    WelcomeReceived,
    /// The bot has sent itself the message that will show its prefix.
    PrefixUpdateRequested,
    /// The bot has seen its prefix.
    PrefixKnown,
}

/// The state of the bot.
pub struct State<H, A: AdminFn> {
    /// The configuration.
    pub config: Config,
    /// The commands.
    pub commands: CommandRegistry<H>,
    /// The bot's own prefix as the server last showed it; empty until then.
    pub msg_prefix: MsgPrefix,
    /// How far the handshake has come.
    pub phase: HandshakePhase,
    /// Tells who is an administrator.
    pub admin_check: AdminCheck<A>,
    /// Takes the errors that cannot be turned into a reply.
    pub error_handler: Box<dyn ErrorHandler>,
}

/// The byte length of an optional part of a prefix, with the one character
/// that sets it off from the part before.
pub open spec fn part_len(part: Option<Seq<char>>) -> nat {
    match part {
        Some(s) => 1 + byte_len(s),
        None => 0,
    }
}

/// The byte length of the prefix `nick!user@host`, of which each part may be
/// missing.
pub open spec fn prefix_byte_len(prefix: MsgPrefixView) -> nat {
    (match prefix.nick {
        Some(s) => byte_len(s),
        None => 0,
    }) + part_len(prefix.user) + part_len(prefix.host)
}

/// The byte length of an optional part of a prefix that is set off by one
/// character, as far as a `usize` holds it.
fn part_len_capped(part: &Option<String>) -> (r: usize)
    ensures
        r == capped(part_len(crate::model::opt_text(*part))),
{
    match part {
        Some(s) => add_capped(1, str_len(s.as_str())),
        None => 0,
    }
}

impl MsgPrefix {
    /// The prefix of which nothing is known.
    pub fn unknown() -> (r: MsgPrefix)
        ensures
            r@ == (MsgPrefixView { nick: None, user: None, host: None }),
    {
        MsgPrefix { nick: None, user: None, host: None }
    }

    /// The byte length of the prefix, as far as a `usize` holds it.
    pub fn len(&self) -> (r: usize)
        ensures
            r == capped(prefix_byte_len(self@)),
    {
        let nick = match &self.nick {
            Some(s) => str_len(s.as_str()),
            None => 0,
        };
        let user = part_len_capped(&self.user);
        let host = part_len_capped(&self.host);
        add_capped(add_capped(nick, user), host)
    }
}

impl<H, A: AdminFn> State<H, A> {
    /// The state of a bot that has not yet connected: its prefix is unknown.
    pub fn new(
        config: Config,
        commands: CommandRegistry<H>,
        admin_check: AdminCheck<A>,
        error_handler: Box<dyn ErrorHandler>,
    ) -> (r: State<H, A>)
        ensures
            r.config == config,
            r.commands == commands,
            r.admin_check == admin_check,
            r.error_handler === error_handler,
            r.msg_prefix@ == (MsgPrefixView { nick: None, user: None, host: None }),
            r.phase == HandshakePhase::Connecting,
    {
        State {
            config,
            commands,
            msg_prefix: MsgPrefix::unknown(),
            phase: HandshakePhase::Connecting,
            admin_check,
            error_handler,
        }
    }

    /// The bot's nickname.
    pub fn nick(&self) -> (r: &str)
        ensures
            r@ == self.config.nick@,
    {
        self.config.nick.as_str()
    }

    /// The byte length of the bot's own prefix, as far as a `usize` holds
    /// it.
    pub fn prefix_len(&self) -> (r: usize)
        ensures
            r == capped(prefix_byte_len(self.msg_prefix@)),
    {
        self.msg_prefix.len()
    }
}

} // verus!
