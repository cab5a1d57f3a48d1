use irc_bot::irc_comm::{
    connection_sequence, handle_004, handle_msg, handle_privmsg, is_update_request, quit,
    send_msg_prefix_update_request, update_prefix_info, UPDATE_MSG_PREFIX_STR,
};
use irc_bot::model::{
    BotCmdResult, BotError, ErrorReaction, InboundMsg, MsgMetadata, MsgPrefix, MsgTarget, PrivMsg,
};
use irc_bot::proto::{nick, priv_msg, raw_msg, user};
use irc_bot::state::{
    AdminCheck, BotCmdHandler, CommandRegistry, Config, ErrorHandler, HandshakePhase, State,
};
use std::borrow::Cow;
use std::cell::Cell;
use std::rc::Rc;

struct NoCommands;

type Check = fn(&MsgPrefix) -> Result<bool, BotError>;

impl BotCmdHandler<Check> for NoCommands {
    fn run(&self, _state: &State<Self, Check>, _metadata: &MsgMetadata, _args: &str) -> BotCmdResult {
        BotCmdResult::SyntaxErr
    }
}

fn no_admins(_prefix: &MsgPrefix) -> Result<bool, BotError> {
    Ok(false)
}

struct Count(Rc<Cell<usize>>);

impl ErrorHandler for Count {
    fn handle(&self, _err: BotError) -> ErrorReaction {
        self.0.set(self.0.get() + 1);
        ErrorReaction::Proceed
    }
}

fn state_counting(errors: Rc<Cell<usize>>) -> State<NoCommands, Check> {
    State::new(
        Config {
            nick: "bot".to_owned(),
            username: "botuser".to_owned(),
            realname: "A Bot".to_owned(),
            addressee_suffix: ": ".to_owned(),
        },
        CommandRegistry::new(),
        AdminCheck::new(no_admins as Check),
        Box::new(Count(errors)),
    )
}

fn state() -> State<NoCommands, Check> {
    state_counting(Rc::new(Cell::new(0)))
}

fn privmsg(target: &str, prefix: MsgPrefix, text: &str) -> PrivMsg {
    PrivMsg {
        metadata: MsgMetadata { target: MsgTarget(target.to_owned()), prefix },
        text: text.to_owned(),
    }
}

fn observed() -> MsgPrefix {
    MsgPrefix {
        nick: Some("bot".to_owned()),
        user: Some("~botuser".to_owned()),
        host: Some("unaffiliated/bot".to_owned()),
    }
}

fn same_prefix(a: &MsgPrefix, b: &MsgPrefix) -> bool {
    a.nick == b.nick && a.user == b.user && a.host == b.host
}

#[test]
fn new_state_knows_no_prefix() {
    let state = state();
    assert!(same_prefix(&state.msg_prefix, &MsgPrefix { nick: None, user: None, host: None }));
    assert_eq!(state.prefix_len(), 0);
    assert_eq!(state.phase, HandshakePhase::Connecting);
    assert_eq!(state.nick(), "bot");
}

#[test]
fn prefix_length_counts_the_separators() {
    assert_eq!(observed().len(), "bot!~botuser@unaffiliated/bot".len());
    assert_eq!(MsgPrefix { nick: Some("bot".to_owned()), user: None, host: None }.len(), 3);
    assert_eq!(
        MsgPrefix { nick: Some("bot".to_owned()), user: None, host: Some("h".to_owned()) }.len(),
        5
    );
    assert_eq!(MsgPrefix::unknown().len(), 0);
}

#[test]
fn connection_sequence_gives_nick_then_user() {
    let mut state = state();
    let msgs = connection_sequence(&mut state).unwrap();
    let lines: Vec<&str> = msgs.iter().map(|m| m.raw_message()).collect();
    assert_eq!(lines, vec!["NICK bot", "USER botuser 0 * :A Bot"]);
    assert_eq!(state.phase, HandshakePhase::AwaitingWelcome);
}

#[test]
fn end_of_welcome_asks_for_the_prefix() {
    let mut state = state();
    let msgs = handle_msg(&mut state, InboundMsg::ServerInfo).unwrap();
    let lines: Vec<&str> = msgs.iter().map(|m| m.raw_message()).collect();
    assert_eq!(lines, vec!["PRIVMSG bot :!!! UPDATE MESSAGE PREFIX !!!"]);
    assert_eq!(state.phase, HandshakePhase::PrefixUpdateRequested);
    assert_eq!(state.prefix_len(), 0);
    let mut again = self::state();
    assert_eq!(handle_004(&mut again).unwrap().len(), 1);
    assert_eq!(
        send_msg_prefix_update_request(&again).unwrap().raw_message(),
        "PRIVMSG bot :!!! UPDATE MESSAGE PREFIX !!!"
    );
}

#[test]
fn sentinel_round_trip_stores_the_observed_prefix() {
    let mut state = state();
    let request = handle_msg(&mut state, InboundMsg::ServerInfo).unwrap();
    assert_eq!(request[0].raw_message(), format!("PRIVMSG bot :{}", UPDATE_MSG_PREFIX_STR));
    let echo = privmsg("bot", observed(), UPDATE_MSG_PREFIX_STR);
    assert!(is_update_request(&echo, "bot"));
    let out = handle_msg(&mut state, InboundMsg::PrivMsg(echo)).unwrap();
    assert!(out.is_empty());
    assert!(same_prefix(&state.msg_prefix, &observed()));
    assert_eq!(state.phase, HandshakePhase::PrefixKnown);
    assert_eq!(state.prefix_len(), "bot!~botuser@unaffiliated/bot".len());
}

#[test]
fn round_trip_can_be_repeated() {
    let mut state = state();
    let first = privmsg("bot", observed(), UPDATE_MSG_PREFIX_STR);
    assert!(handle_privmsg(&mut state, &first).unwrap().is_empty());
    let moved = MsgPrefix {
        nick: Some("bot".to_owned()),
        user: Some("~botuser".to_owned()),
        host: Some("other.example".to_owned()),
    };
    assert_eq!(handle_msg(&mut state, InboundMsg::ServerInfo).unwrap().len(), 1);
    assert_eq!(state.phase, HandshakePhase::PrefixUpdateRequested);
    let second = privmsg("bot", moved, UPDATE_MSG_PREFIX_STR);
    assert!(handle_privmsg(&mut state, &second).unwrap().is_empty());
    assert_eq!(state.msg_prefix.host.as_deref(), Some("other.example"));
    assert_eq!(state.phase, HandshakePhase::PrefixKnown);
}

#[test]
fn sentinel_from_somebody_else_is_a_command() {
    let mut state = state();
    let stranger = MsgPrefix {
        nick: Some("alice".to_owned()),
        user: Some("a".to_owned()),
        host: Some("h".to_owned()),
    };
    let fake = privmsg("bot", stranger, UPDATE_MSG_PREFIX_STR);
    assert!(!is_update_request(&fake, "bot"));
    let out = handle_msg(&mut state, InboundMsg::PrivMsg(fake)).unwrap();
    assert_eq!(out.len(), 1);
    assert_eq!(out[0].raw_message(), "PRIVMSG alice :Unknown command \"!!!\"; apologies.");
    assert_eq!(state.prefix_len(), 0);
    assert_eq!(state.phase, HandshakePhase::Connecting);
    let in_channel = privmsg("#chan", observed(), UPDATE_MSG_PREFIX_STR);
    assert!(!is_update_request(&in_channel, "bot"));
    let padded = privmsg("bot", observed(), "!!! UPDATE MESSAGE PREFIX !!! ");
    assert!(!is_update_request(&padded, "bot"));
}

#[test]
fn update_prefix_info_takes_the_prefix_as_it_is() {
    let mut state = state();
    let partial = MsgPrefix { nick: Some("bot".to_owned()), user: None, host: None };
    assert!(update_prefix_info(&mut state, &partial).unwrap().is_empty());
    assert!(same_prefix(&state.msg_prefix, &partial));
    assert_eq!(state.phase, HandshakePhase::PrefixKnown);
}

#[test]
fn other_messages_are_passed_over() {
    let mut state = state();
    assert!(handle_msg(&mut state, InboundMsg::Other).unwrap().is_empty());
    let chat = privmsg("#chan", observed(), "just talking");
    assert!(handle_msg(&mut state, InboundMsg::PrivMsg(chat)).unwrap().is_empty());
    assert_eq!(state.phase, HandshakePhase::Connecting);
}

#[test]
fn message_that_only_names_the_bot_gets_a_question() {
    let mut state = state();
    let stranger = MsgPrefix { nick: Some("alice".to_owned()), user: None, host: None };
    let bare = privmsg("#chan", stranger, "bot");
    let out = handle_msg(&mut state, InboundMsg::PrivMsg(bare)).unwrap();
    assert_eq!(out.len(), 1);
    assert_eq!(out[0].raw_message(), "PRIVMSG #chan :alice: Yes?");
    let stranger = MsgPrefix { nick: Some("alice".to_owned()), user: None, host: None };
    let blank = privmsg("bot", stranger, "   ");
    let out = handle_msg(&mut state, InboundMsg::PrivMsg(blank)).unwrap();
    assert_eq!(out[0].raw_message(), "PRIVMSG alice :Yes?");
}

#[test]
fn quit_gives_the_quit_line() {
    let errors = Rc::new(Cell::new(0));
    let state = state_counting(errors.clone());
    assert_eq!(
        quit(&state, Some(Cow::Borrowed("so long"))).unwrap().raw_message(),
        "QUIT :so long"
    );
    assert_eq!(
        quit(&state, Some(Cow::Owned("bye now".to_owned()))).unwrap().raw_message(),
        "QUIT :bye now"
    );
    assert_eq!(quit(&state, None).unwrap().raw_message(), "QUIT :<> v0.1.0");
    assert_eq!(errors.get(), 0);
}

#[test]
fn protocol_lines_are_made_as_the_protocol_writes_them() {
    assert_eq!(priv_msg("#chan", "hello there").unwrap().raw_message(), "PRIVMSG #chan :hello there");
    assert_eq!(nick("bot").unwrap().raw_message(), "NICK bot");
    assert_eq!(user("u", "Real Name").unwrap().raw_message(), "USER u 0 * :Real Name");
    assert_eq!(raw_msg("PING :irc.example").unwrap().raw_message(), "PING :irc.example");
    match raw_msg("") {
        Err(BotError::Protocol(text)) => assert!(!text.is_empty()),
        other => panic!("unexpected: {:?}", other.map(|m| m.raw_message().to_owned())),
    }
    // A tag without an end is refused.
    assert!(matches!(raw_msg("@tag"), Err(BotError::Protocol(_))));
    // So is the line that only opens its tags.
    match raw_msg("@") {
        Err(BotError::Protocol(text)) => assert_eq!(text, "The line ends in its list of tags."),
        other => panic!("unexpected: {:?}", other.map(|m| m.raw_message().to_owned())),
    }
    assert_eq!(raw_msg("@a=b CMD").unwrap().raw_message(), "@a=b CMD");
}

#[test]
fn target_of_five_hundred_bytes_is_accepted_whatever_the_text() {
    let long = "t".repeat(2000);
    assert!(priv_msg(&"#".repeat(500), &long).is_ok());
    assert!(priv_msg(&"#".repeat(500), "").is_ok());
    assert!(priv_msg("", &long).is_ok());
    assert!(matches!(priv_msg(&"#".repeat(501), "x"), Err(BotError::Protocol(_))));
}

#[test]
fn nicknames_and_user_names_within_the_parser_limit_are_accepted() {
    assert!(matches!(nick(""), Err(BotError::Protocol(_))));
    assert!(nick("n").is_ok());
    assert!(nick(&"n".repeat(505)).is_ok());
    assert!(nick(&"n".repeat(506)).is_err());
    assert!(nick("a b:c").is_ok());
    let long = "r".repeat(2000);
    assert!(user("", &long).is_ok());
    assert!(user(&"u".repeat(499), &long).is_ok());
    assert!(user(&"u".repeat(500), "r").is_err());
    assert!(user("a:b", "").is_ok());
}

#[test]
fn connection_sequence_fails_without_a_nickname() {
    let mut state = state();
    state.config.nick = String::new();
    assert!(matches!(connection_sequence(&mut state), Err(BotError::Protocol(_))));
    assert_eq!(state.phase, HandshakePhase::Connecting);
}
