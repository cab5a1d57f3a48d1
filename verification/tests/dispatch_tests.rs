use irc_bot::irc_comm::{
    authorize, bot_command_reaction, handle_bot_command, handle_reaction, parse_msg_to_nick, refuse,
    reply_route, run_bot_command, split_command_line, wrap_msg, MAX_COMMAND_CHAIN,
};
use irc_bot::model::{
    BotCmdAuthLvl, BotCmdResult, BotError, ErrorReaction, MsgMetadata, MsgPrefix, MsgTarget, PrivMsg,
    Reaction,
};
use irc_bot::proto::OutMsg;
use irc_bot::replies::{command_reaction, guard_quit, unknown_command_reply};
use irc_bot::state::{
    AdminCheck, BotCmdHandler, BotCommand, CommandRegistry, Config, ErrorHandler, State,
};

enum Handler {
    Echo,
    Who,
    Quit,
    Redirect(&'static str),
    Fixed(fn() -> BotCmdResult),
}

type Check = Box<dyn Fn(&MsgPrefix) -> Result<bool, BotError>>;

impl BotCmdHandler<Check> for Handler {
    fn run(&self, state: &State<Self, Check>, metadata: &MsgMetadata, args: &str) -> BotCmdResult {
        match self {
            Handler::Echo => BotCmdResult::Okay(Reaction::Reply(args.to_owned())),
            Handler::Who => BotCmdResult::Okay(Reaction::Msg(format!(
                "{} heard {:?} say {:?} in {}",
                state.nick(),
                metadata.prefix.nick,
                args,
                metadata.target.0
            ))),
            Handler::Quit => BotCmdResult::Okay(Reaction::Quit(Some(args.to_owned()))),
            Handler::Redirect(line) => BotCmdResult::Okay(Reaction::BotCmd((*line).to_owned())),
            Handler::Fixed(f) => f(),
        }
    }
}

struct Admins(Result<Vec<&'static str>, &'static str>);

impl Admins {
    fn have_admin(&self, prefix: &MsgPrefix) -> Result<bool, BotError> {
        match &self.0 {
            Ok(nicks) => Ok(match &prefix.nick {
                Some(n) => nicks.contains(&n.as_str()),
                None => false,
            }),
            Err(e) => Err(BotError::Msg((*e).to_owned())),
        }
    }
}

struct Ignore;

impl ErrorHandler for Ignore {
    fn handle(&self, _err: BotError) -> ErrorReaction {
        ErrorReaction::Proceed
    }
}

struct Record(std::rc::Rc<std::cell::RefCell<Vec<String>>>);

impl ErrorHandler for Record {
    fn handle(&self, err: BotError) -> ErrorReaction {
        self.0.borrow_mut().push(err.to_text());
        ErrorReaction::Proceed
    }
}

fn command(name: &str, lvl: BotCmdAuthLvl, handler: Handler) -> BotCommand<Handler> {
    BotCommand {
        name: name.to_owned(),
        provider: "test".to_owned(),
        auth_lvl: lvl,
        handler,
        usage: "<text>".to_owned(),
        help_msg: "help".to_owned(),
    }
}

fn check(admins: Admins) -> AdminCheck<Check> {
    AdminCheck::new(Box::new(move |prefix: &MsgPrefix| admins.have_admin(prefix)))
}

fn state_with(admins: Admins) -> State<Handler, Check> {
    let mut commands = CommandRegistry::new();
    assert!(commands.insert(command("echo", BotCmdAuthLvl::Public, Handler::Echo)).is_ok());
    assert!(commands.insert(command("leave", BotCmdAuthLvl::Public, Handler::Quit)).is_ok());
    assert!(commands.insert(command("quit", BotCmdAuthLvl::Admin, Handler::Quit)).is_ok());
    assert!(commands
        .insert(command("bye", BotCmdAuthLvl::Public, Handler::Redirect("quit so long")))
        .is_ok());
    assert!(commands
        .insert(command("loop", BotCmdAuthLvl::Public, Handler::Redirect("loop")))
        .is_ok());
    State::new(
        Config {
            nick: "bot".to_owned(),
            username: "botuser".to_owned(),
            realname: "A Bot".to_owned(),
            addressee_suffix: ": ".to_owned(),
        },
        commands,
        check(admins),
        Box::new(Ignore),
    )
}

fn state() -> State<Handler, Check> {
    state_with(Admins(Ok(vec!["root"])))
}

fn msg(target: &str, nick: Option<&str>, text: &str) -> PrivMsg {
    PrivMsg {
        metadata: MsgMetadata {
            target: MsgTarget(target.to_owned()),
            prefix: MsgPrefix {
                nick: nick.map(|s| s.to_owned()),
                user: Some("u".to_owned()),
                host: Some("h.example".to_owned()),
            },
        },
        text: text.to_owned(),
    }
}

fn lines(r: Result<Vec<OutMsg>, BotError>) -> Vec<String> {
    r.unwrap().iter().map(|m| m.raw_message().to_owned()).collect()
}

fn reply_text(r: Reaction) -> String {
    match r {
        Reaction::Reply(s) => s,
        other => panic!("not a reply: {:?}", other),
    }
}

#[test]
fn registry_refuses_a_second_command_of_the_same_name() {
    let mut commands = CommandRegistry::new();
    assert!(commands.insert(command("echo", BotCmdAuthLvl::Public, Handler::Echo)).is_ok());
    let back = commands.insert(command("echo", BotCmdAuthLvl::Admin, Handler::Quit));
    assert!(matches!(back, Err(ref c) if c.auth_lvl == BotCmdAuthLvl::Admin));
    assert_eq!(commands.len(), 1);
    assert_eq!(commands.lookup("echo").unwrap().auth_lvl, BotCmdAuthLvl::Public);
    assert!(commands.lookup("Echo").is_none());
    assert!(commands.lookup("").is_none());
}

#[test]
fn unknown_command_gets_an_apology() {
    let state = state();
    let m = msg("#chan", Some("alice"), "bot: foo");
    let r = bot_command_reaction(&state, &m, "foo", "");
    assert_eq!(reply_text(r), "Unknown command \"foo\"; apologies.");
    assert_eq!(
        reply_text(unknown_command_reply("a\"b")),
        "Unknown command \"a\\\"b\"; apologies."
    );
    assert_eq!(
        lines(handle_bot_command(&state, &m, "foo bar")),
        vec!["PRIVMSG #chan :alice: Unknown command \"foo\"; apologies.".to_owned()]
    );
}

#[test]
fn public_command_runs_for_anybody() {
    let state = state_with(Admins(Err("no admin list")));
    for nick in [Some("alice"), Some("root"), None] {
        let m = msg("#chan", nick, "bot: echo hi");
        assert_eq!(
            authorize(&state, BotCmdAuthLvl::Public, &m.metadata.prefix).unwrap(),
            true
        );
        let cmd = state.commands.lookup("echo").unwrap();
        match run_bot_command(&state, &m, cmd, "hi") {
            BotCmdResult::Okay(Reaction::Reply(s)) => assert_eq!(s, "hi"),
            other => panic!("unexpected: {:?}", other),
        }
    }
}

#[test]
fn admin_command_runs_for_an_administrator_only() {
    let state = state();
    let cmd = state.commands.lookup("quit").unwrap();
    let root = msg("#chan", Some("root"), "bot: quit bye");
    assert!(matches!(
        run_bot_command(&state, &root, cmd, "bye"),
        BotCmdResult::Okay(Reaction::Quit(Some(ref s))) if s == "bye"
    ));
    let alice = msg("#chan", Some("alice"), "bot: quit bye");
    assert!(matches!(run_bot_command(&state, &alice, cmd, "bye"), BotCmdResult::Unauthorized));
    assert_eq!(
        reply_text(bot_command_reaction(&state, &alice, "quit", "bye")),
        "My apologies, but you do not appear to have sufficient authority to use my \"quit\" command."
    );
}

#[test]
fn failing_admin_check_is_reported() {
    let state = state_with(Admins(Err("no admin list")));
    let root = msg("#chan", Some("root"), "bot: quit");
    let cmd = state.commands.lookup("quit").unwrap();
    assert!(matches!(
        run_bot_command(&state, &root, cmd, ""),
        BotCmdResult::LibErr(BotError::Msg(ref s)) if s == "no admin list"
    ));
    assert_eq!(
        reply_text(bot_command_reaction(&state, &root, "quit", "")),
        "Error: no admin list"
    );
}

#[test]
fn refusals() {
    assert!(refuse(Ok(true)).is_none());
    assert!(matches!(refuse(Ok(false)), Some(BotCmdResult::Unauthorized)));
    assert!(matches!(
        refuse(Err(BotError::LineBudget)),
        Some(BotCmdResult::LibErr(BotError::LineBudget))
    ));
}

#[test]
fn quit_from_a_public_command_is_not_honored() {
    let state = state();
    let root = msg("#chan", Some("root"), "bot: leave now");
    let expected = "Internal error: Only commands at authorization level Admin may tell the bot to \
                    quit, but the command \"leave\" from module \"test\", at authorization level \
                    Public, has told the bot to quit with quit message Some(\"now\").";
    assert_eq!(reply_text(bot_command_reaction(&state, &root, "leave", "now")), expected);
    let out = lines(handle_bot_command(&state, &root, "leave now"));
    assert_eq!(out.concat().contains("has told the bot to quit"), true);
    assert!(out.iter().all(|l| l.starts_with("PRIVMSG #chan :")));
    match guard_quit("c", "m", BotCmdAuthLvl::Public, BotCmdResult::Okay(Reaction::Quit(None))) {
        BotCmdResult::BotErrMsg(s) => assert_eq!(
            s,
            "Only commands at authorization level Admin may tell the bot to quit, but the command \
             \"c\" from module \"m\", at authorization level Public, has told the bot to quit with \
             quit message None."
        ),
        other => panic!("unexpected: {:?}", other),
    }
}

#[test]
fn quit_from_an_admin_command_is_passed_up() {
    let state = state();
    let root = msg("#chan", Some("root"), "bot: quit so long");
    match handle_bot_command(&state, &root, "quit so long") {
        Err(BotError::ModuleRequestedQuit(Some(s))) => assert_eq!(s, "so long"),
        other => panic!("unexpected: {:?}", other),
    }
    assert!(matches!(
        guard_quit("c", "m", BotCmdAuthLvl::Admin, BotCmdResult::Okay(Reaction::Quit(None))),
        BotCmdResult::Okay(Reaction::Quit(None))
    ));
}

#[test]
fn redirected_command_is_run_for_the_same_sender() {
    let state = state();
    let root = msg("#chan", Some("root"), "bot: bye");
    assert!(matches!(
        handle_bot_command(&state, &root, "bye"),
        Err(BotError::ModuleRequestedQuit(Some(ref s))) if s == "so long"
    ));
    let alice = msg("#chan", Some("alice"), "bot: bye");
    let out = lines(handle_bot_command(&state, &alice, "bye"));
    assert_eq!(out.len(), 1);
    assert!(out[0].starts_with("PRIVMSG #chan :alice: My apologies"));
}

#[test]
fn endless_redirection_ends_in_an_error() {
    let state = state();
    let alice = msg("#chan", Some("alice"), "bot: loop");
    assert!(matches!(
        handle_bot_command(&state, &alice, "loop"),
        Err(BotError::TooManyRedirects)
    ));
    assert_eq!(MAX_COMMAND_CHAIN, 16);
}

#[test]
fn results_become_replies() {
    let r = |res| reply_text(command_reaction("cmd", "<x> [y]", res));
    assert_eq!(r(BotCmdResult::SyntaxErr), "Syntax: cmd <x> [y]");
    assert_eq!(
        r(BotCmdResult::ArgMissing("x".to_owned())),
        "Syntax error: For command \"cmd\", the argument \"x\" is required, but it was not given."
    );
    assert_eq!(
        r(BotCmdResult::ArgMissing1To1("chan".to_owned())),
        "Syntax error: When command \"cmd\" is used outside of a channel, the argument \"chan\" \
         is required, but it was not given."
    );
    assert_eq!(r(BotCmdResult::UserErrMsg("no".to_owned())), "User error: no");
    assert_eq!(r(BotCmdResult::BotErrMsg("oops".to_owned())), "Internal error: oops");
    assert_eq!(
        r(BotCmdResult::LibErr(BotError::Protocol("bad line".to_owned()))),
        "Error: bad line"
    );
    assert!(matches!(
        command_reaction("cmd", "", BotCmdResult::Okay(Reaction::Nothing)),
        Reaction::Nothing
    ));
}

#[test]
fn errors_describe_themselves() {
    assert_eq!(
        BotError::ModuleRequestedQuit(Some("bye".to_owned())).to_text(),
        "The bot was told to quit, with quit message Some(\"bye\")."
    );
    assert_eq!(
        BotError::ModuleRequestedQuit(None).to_text(),
        "The bot was told to quit, with quit message None."
    );
    assert_eq!(BotError::Msg("m".to_owned()).to_text(), "m");
    assert_eq!(
        BotError::LineBudget.to_text(),
        "The sender's prefix and the target leave no room for text on a line."
    );
    assert_eq!(
        BotError::NoReplyTarget.to_text(),
        "A private message without a sender's nick cannot be answered."
    );
    assert_eq!(
        BotError::TooManyRedirects.to_text(),
        "Too many commands in a row answered with another command."
    );
}

#[test]
fn command_line_is_split_at_the_first_whitespace() {
    assert_eq!(split_command_line("echo hello world"), ("echo", "hello world"));
    assert_eq!(split_command_line("echo"), ("echo", ""));
    assert_eq!(split_command_line("echo   \t hello  "), ("echo", "hello  "));
    assert_eq!(split_command_line(""), ("", ""));
    assert_eq!(split_command_line(" echo x"), ("", "echo x"));
}

#[test]
fn addressed_messages() {
    let private = msg("bot", Some("alice"), "  echo hi ");
    assert_eq!(parse_msg_to_nick(&private, "bot"), Some("echo hi"));
    let named = msg("#chan", Some("alice"), "bot: echo hi");
    assert_eq!(parse_msg_to_nick(&named, "bot"), Some("echo hi"));
    let comma = msg("#chan", Some("alice"), "bot,echo hi ");
    assert_eq!(parse_msg_to_nick(&comma, "bot"), Some("echo hi"));
    let bare = msg("#chan", Some("alice"), "bot");
    assert_eq!(parse_msg_to_nick(&bare, "bot"), Some(""));
    let other = msg("#chan", Some("alice"), "bottle: echo hi");
    assert_eq!(parse_msg_to_nick(&other, "bot"), None);
    let chat = msg("#chan", Some("alice"), "hello bot: echo");
    assert_eq!(parse_msg_to_nick(&chat, "bot"), None);
}

#[test]
fn replies_go_to_the_channel_or_to_the_sender() {
    let in_channel = msg("#chan", Some("alice"), "bot: x");
    let (target, addressee) = reply_route(&in_channel, "bot").unwrap();
    assert_eq!((target.0.as_str(), addressee), ("#chan", "alice"));
    let private = msg("bot", Some("alice"), "x");
    let (target, addressee) = reply_route(&private, "bot").unwrap();
    assert_eq!((target.0.as_str(), addressee), ("alice", ""));
    let nameless = msg("#chan", None, "bot: x");
    let (target, addressee) = reply_route(&nameless, "bot").unwrap();
    assert_eq!((target.0.as_str(), addressee), ("#chan", ""));
    assert!(reply_route(&msg("bot", None, "x"), "bot").is_none());
}

#[test]
fn reactions_become_messages() {
    let state = state();
    let in_channel = msg("#chan", Some("alice"), "bot: x");
    let private = msg("bot", Some("alice"), "x");
    assert!(lines(handle_reaction(&state, &in_channel, Reaction::Nothing)).is_empty());
    assert_eq!(
        lines(handle_reaction(&state, &in_channel, Reaction::Msg("hi".to_owned()))),
        vec!["PRIVMSG #chan :hi".to_owned()]
    );
    assert_eq!(
        lines(handle_reaction(&state, &in_channel, Reaction::Reply("hi".to_owned()))),
        vec!["PRIVMSG #chan :alice: hi".to_owned()]
    );
    assert_eq!(
        lines(handle_reaction(&state, &private, Reaction::Reply("hi".to_owned()))),
        vec!["PRIVMSG alice :hi".to_owned()]
    );
    assert_eq!(
        lines(handle_reaction(
            &state,
            &in_channel,
            Reaction::Msgs(vec!["a".to_owned(), "b".to_owned()])
        )),
        vec!["PRIVMSG #chan :a".to_owned(), "PRIVMSG #chan :b".to_owned()]
    );
    assert_eq!(
        lines(handle_reaction(
            &state,
            &private,
            Reaction::Replies(vec!["a".to_owned(), "b".to_owned()])
        )),
        vec!["PRIVMSG alice :a".to_owned(), "PRIVMSG alice :b".to_owned()]
    );
    assert_eq!(
        lines(handle_reaction(&state, &in_channel, Reaction::RawMsg("JOIN #other".to_owned()))),
        vec!["JOIN #other".to_owned()]
    );
    assert_eq!(
        lines(handle_reaction(&state, &in_channel, Reaction::BotCmd("echo again".to_owned()))),
        vec!["PRIVMSG #chan :alice: again".to_owned()]
    );
    assert!(matches!(
        handle_reaction(&state, &in_channel, Reaction::Quit(None)),
        Err(BotError::ModuleRequestedQuit(None))
    ));
    assert!(matches!(
        handle_reaction(&state, &msg("bot", None, "x"), Reaction::Msg("hi".to_owned())),
        Err(BotError::NoReplyTarget)
    ));
}

#[test]
fn raw_line_that_cannot_be_parsed_is_an_error() {
    let state = state();
    let in_channel = msg("#chan", Some("alice"), "bot: x");
    assert!(matches!(
        handle_reaction(&state, &in_channel, Reaction::RawMsg(String::new())),
        Err(BotError::Protocol(_))
    ));
    assert!(matches!(
        handle_reaction(&state, &in_channel, Reaction::RawMsg("@".to_owned())),
        Err(BotError::Protocol(_))
    ));
}

#[test]
fn long_reply_is_wrapped_within_the_limit() {
    let mut state = state();
    state.msg_prefix = MsgPrefix {
        nick: Some("bot".to_owned()),
        user: Some("botuser".to_owned()),
        host: Some("host.example".to_owned()),
    };
    assert_eq!(state.prefix_len(), "bot!botuser@host.example".len());
    let in_channel = msg("#chan", Some("alice"), "bot: x");
    let text = "word ".repeat(300);
    let out = lines(handle_reaction(&state, &in_channel, Reaction::Reply(text.clone())));
    assert!(out.len() > 1);
    for line in &out {
        let wire = format!(":bot!botuser@host.example {}\r\n", line);
        assert!(wire.len() <= 512);
        assert!(line.starts_with("PRIVMSG #chan :"));
    }
    let said: Vec<&str> = out.iter().map(|l| &l["PRIVMSG #chan :".len()..]).collect();
    assert_eq!(said.join(" "), format!("alice: {}", text.trim()));
}

#[test]
fn wrap_msg_uses_what_the_prefix_and_target_leave() {
    let state = state();
    let target = MsgTarget("#chan".to_owned());
    // Nothing is known of the prefix: 512 - (0 + 7 + 5 + 7) = 493 bytes.
    let lines = wrap_msg(&state, &target, &"x".repeat(1000)).unwrap();
    assert_eq!(
        lines.iter().map(|l| l.len()).collect::<Vec<_>>(),
        vec![493, 493, 14]
    );
    // 512 - (0 + 7 + 496 + 7) = 2 bytes.
    let crowded = MsgTarget("#".repeat(496));
    assert_eq!(
        wrap_msg(&state, &crowded, "hello").unwrap(),
        vec!["he".to_owned(), "ll".to_owned(), "o".to_owned()]
    );
    assert!(matches!(
        wrap_msg(&state, &crowded, "h\u{20AC}"),
        Err(BotError::LineBudget)
    ));
    assert!(matches!(
        wrap_msg(&state, &MsgTarget("#".repeat(498)), ""),
        Err(BotError::LineBudget)
    ));
    assert_eq!(
        wrap_msg(&state, &MsgTarget("#".repeat(497)), "").unwrap(),
        vec![String::new()]
    );
    assert_eq!(
        wrap_msg(&state, &MsgTarget("#".repeat(495)), "ab").unwrap(),
        vec!["ab".to_owned()]
    );
}

#[test]
fn failure_of_a_collaborator_reaches_the_error_handler() {
    let seen = std::rc::Rc::new(std::cell::RefCell::new(Vec::new()));
    let mut state = state_with(Admins(Err("no admin list")));
    state.error_handler = Box::new(Record(seen.clone()));
    let root = msg("#chan", Some("root"), "bot: quit");
    assert_eq!(
        lines(handle_bot_command(&state, &root, "quit")),
        vec!["PRIVMSG #chan :root: Error: no admin list".to_owned()]
    );
    assert_eq!(*seen.borrow(), vec!["no admin list".to_owned()]);
    // What a command itself answers is a reply and nothing more.
    assert_eq!(lines(handle_bot_command(&state, &root, "echo hi")).len(), 1);
    assert_eq!(seen.borrow().len(), 1);
}

#[test]
fn handler_results_pass_through_the_dispatch() {
    let mut commands = CommandRegistry::new();
    assert!(commands
        .insert(command("syn", BotCmdAuthLvl::Public, Handler::Fixed(|| BotCmdResult::SyntaxErr)))
        .is_ok());
    assert!(commands
        .insert(command(
            "deny",
            BotCmdAuthLvl::Public,
            Handler::Fixed(|| BotCmdResult::Unauthorized)
        ))
        .is_ok());
    let state = State::new(
        Config {
            nick: "bot".to_owned(),
            username: "u".to_owned(),
            realname: "r".to_owned(),
            addressee_suffix: ", ".to_owned(),
        },
        commands,
        check(Admins(Ok(vec![]))),
        Box::new(Ignore),
    );
    let alice = msg("#chan", Some("alice"), "bot: syn");
    assert_eq!(
        lines(handle_bot_command(&state, &alice, "syn")),
        vec!["PRIVMSG #chan :alice, Syntax: syn <text>".to_owned()]
    );
    assert!(lines(handle_bot_command(&state, &alice, "deny"))[0]
        .starts_with("PRIVMSG #chan :alice, My apologies, but you do not appear"));
}

#[test]
fn quoted_names_are_escaped() {
    assert_eq!(
        reply_text(unknown_command_reply("tab\there")),
        "Unknown command \"tab\\there\"; apologies."
    );
    assert_eq!(
        reply_text(unknown_command_reply("\n")),
        "Unknown command \"\\n\"; apologies."
    );
    assert_eq!(reply_text(unknown_command_reply("")), "Unknown command \"\"; apologies.");
}

#[test]
fn saying_wraps_and_addresses() {
    let state = state();
    let target = MsgTarget("#chan".to_owned());
    let out = lines(state.say(&target, "alice", "hello"));
    assert_eq!(out, vec!["PRIVMSG #chan :alice: hello".to_owned()]);
    let out = lines(state.say(&target, "", "hello"));
    assert_eq!(out, vec!["PRIVMSG #chan :hello".to_owned()]);
    let out = lines(state.say(&target, "alice", &"x".repeat(500)));
    assert_eq!(
        out,
        vec![
            "PRIVMSG #chan :alice:".to_owned(),
            format!("PRIVMSG #chan :{}", "x".repeat(492)),
            format!("PRIVMSG #chan :{}", "x".repeat(8)),
        ]
    );
    let out = lines(state.say_all(&target, "bob", &vec!["one".to_owned(), "two".to_owned()]));
    assert_eq!(
        out,
        vec!["PRIVMSG #chan :bob: one".to_owned(), "PRIVMSG #chan :bob: two".to_owned()]
    );
    assert!(lines(state.say_all(&target, "bob", &Vec::new())).is_empty());
    assert!(matches!(
        state.say(&MsgTarget("#".repeat(600)), "", "hello"),
        Err(BotError::LineBudget)
    ));
    assert!(matches!(
        state.say_all(&MsgTarget("#".repeat(600)), "", &vec!["a".to_owned()]),
        Err(BotError::LineBudget)
    ));
}

#[test]
fn handler_is_given_the_state_the_metadata_and_the_arguments() {
    let state = state();
    let who = command("who", BotCmdAuthLvl::Public, Handler::Who);
    let alice = msg("#chan", Some("alice"), "bot: who is  there ");
    match run_bot_command(&state, &alice, &who, "is  there ") {
        BotCmdResult::Okay(Reaction::Msg(s)) => {
            assert_eq!(s, "bot heard Some(\"alice\") say \"is  there \" in #chan")
        }
        other => panic!("unexpected: {:?}", other),
    }
    // An administrator's command is not run for anybody else: the handler
    // is not asked.
    let guarded = command("who", BotCmdAuthLvl::Admin, Handler::Who);
    assert!(matches!(
        run_bot_command(&state, &alice, &guarded, "x"),
        BotCmdResult::Unauthorized
    ));
    let root = msg("#chan", Some("root"), "bot: who x");
    assert!(matches!(
        run_bot_command(&state, &root, &guarded, "x"),
        BotCmdResult::Okay(Reaction::Msg(_))
    ));
}

#[test]
fn command_line_decides_what_the_handler_is_given() {
    let mut commands = CommandRegistry::new();
    assert!(commands.insert(command("foo", BotCmdAuthLvl::Public, Handler::Who)).is_ok());
    let state = State::new(
        Config {
            nick: "bot".to_owned(),
            username: "u".to_owned(),
            realname: "r".to_owned(),
            addressee_suffix: ": ".to_owned(),
        },
        commands,
        check(Admins(Ok(vec![]))),
        Box::new(Ignore),
    );
    let alice = msg("#chan", Some("alice"), "bot: foo   bar baz");
    assert_eq!(
        lines(handle_bot_command(&state, &alice, "foo   bar baz")),
        vec!["PRIVMSG #chan :bot heard Some(\"alice\") say \"bar baz\" in #chan".to_owned()]
    );
    assert_eq!(
        lines(handle_reaction(&state, &alice, Reaction::BotCmd("foo bar".to_owned()))),
        vec!["PRIVMSG #chan :bot heard Some(\"alice\") say \"bar\" in #chan".to_owned()]
    );
}

#[test]
fn small_budget_still_says_everything() {
    let state = state();
    // 512 - (0 + 7 + 495 + 7) = 3 bytes for the text of a line.
    let target = MsgTarget("#".repeat(495));
    let out = lines(state.say(&target, "", "hello you"));
    let head = "PRIVMSG ".len() + 495 + " :".len();
    let said: Vec<&str> = out.iter().map(|l| &l[head..]).collect();
    assert_eq!(said, vec!["hel", "lo", "yo", "u"]);
}
