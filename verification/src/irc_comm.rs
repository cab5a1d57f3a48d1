//! From an inbound message to the lines that the bot sends in answer.

use vstd::prelude::*;
use vstd::string::StringExecFns;
use std::borrow::Cow;
use crate::model::{
    list_texts, BotCmdAuthLvl, BotCmdResult, BotCmdResultView, BotError, BotErrorView, InboundMsg,
    MsgPrefix, MsgTarget, PrivMsg, PrivMsgView, Reaction, ReactionView,
};
use crate::proto::{
    line_accepted, nick, nick_accepted, nick_line, out_lines, priv_msg, priv_msg_accepted,
    MAX_NICK_LEN, MAX_TARGET_LEN, MAX_USERNAME_LEN,
    priv_msg_line, quit_line, raw_msg, spells_message, user, user_accepted, user_line, OutMsg,
};
use crate::replies::{
    command_reaction, guard_quit, quit_guarded, result_reaction, unknown_command_reply,
    unknown_command_text,
};
use crate::state::{
    has_command, prefix_byte_len, AdminFn, BotCmdHandler, BotCommand, HandshakePhase, State,
};
use crate::text::{
    byte_len, capped, chars_start_with, find_whitespace, first_whitespace, starts_with, str_eq,
    str_len, to_chars, trim_bounds, trim_start, trimmed, TextIndex,
};
use crate::wrap::{can_wrap, lemma_lines_within_budget, wrap_text, wrapped};

verus! {

/// The longest line that the protocol allows, in bytes, terminator included.
pub const RAW_LEN_LIMIT: usize = 512;

/// The bytes of the command keyword of a message that carries text.
pub const CMD_LEN: usize = 7;

/// The bytes of punctuation around the parts of such a message: three
/// spaces, two colons, and the two bytes of the terminator.
pub const PUNCTUATION_LEN: usize = 7;

/// The text by which the bot asks itself for its prefix.
pub const UPDATE_MSG_PREFIX_STR: &'static str = "!!! UPDATE MESSAGE PREFIX !!!";

/// The bytes that a line takes beside its text, when the server passes it on
/// from a sender with a prefix of `prefix_len` bytes to a target of
/// `target_len` bytes.
pub open spec fn metadata_len(prefix_len: nat, target_len: nat) -> nat {
    prefix_len + CMD_LEN as nat + target_len + PUNCTUATION_LEN as nat
}

/// The bytes that are left for the text of such a line.
pub open spec fn line_budget(prefix_len: nat, target_len: nat) -> nat {
    if metadata_len(prefix_len, target_len) < RAW_LEN_LIMIT {
        (RAW_LEN_LIMIT - metadata_len(prefix_len, target_len)) as nat
    } else {
        0
    }
}

/// Computes `line_budget`. The lengths may be capped: a length that no
/// `usize` holds leaves no budget either way.
pub fn compute_line_budget(prefix_len: usize, target_len: usize) -> (r: usize)
    ensures
        r == line_budget(prefix_len as nat, target_len as nat),
        forall|p: nat, t: nat|
            capped(p) == prefix_len && capped(t) == target_len ==> r == #[trigger] line_budget(
                p,
                t,
            ),
{
    if prefix_len >= RAW_LEN_LIMIT || target_len >= RAW_LEN_LIMIT {
        0
    } else {
        let metadata = prefix_len + CMD_LEN + target_len + PUNCTUATION_LEN;
        if metadata < RAW_LEN_LIMIT {
            RAW_LEN_LIMIT - metadata
        } else {
            0
        }
    }
}

impl<H, A: AdminFn> State<H, A> {
    /// The bytes that are left for text on a line to `target`, given the
    /// bot's prefix as it is known.
    pub open spec fn budget_for(&self, target: Seq<char>) -> nat {
        line_budget(prefix_byte_len(self.msg_prefix@), byte_len(target))
    }
}

/// Wraps `msg` into lines that the server can pass on to `target` within the
/// protocol's limit.
///
/// There is no result where the prefix and the target leave no byte for
/// text, nor where `msg` has to be cut and one of its characters takes more
/// bytes than they leave.
pub fn wrap_msg<H, A: AdminFn>(state: &State<H, A>, target: &MsgTarget, msg: &str) -> (r: Result<
    Vec<String>,
    BotError,
>)
    ensures
        match r {
            Ok(lines) => {
                &&& can_wrap(msg@, state.budget_for(target@))
                &&& list_texts(lines@) == wrapped(msg@, state.budget_for(target@))
                &&& forall|i: int|
                    0 <= i < lines.len() ==> byte_len(#[trigger] lines[i]@) + metadata_len(
                        prefix_byte_len(state.msg_prefix@),
                        byte_len(target@),
                    ) <= RAW_LEN_LIMIT
            },
            Err(e) => !can_wrap(msg@, state.budget_for(target@)) && e is LineBudget,
        },
{
    let budget = compute_line_budget(state.prefix_len(), str_len(target.0.as_str()));
    match wrap_text(msg, budget) {
        Some(lines) => {
            proof {
                lemma_lines_within_budget(msg@, budget as nat);
                assert forall|i: int| 0 <= i < lines.len() implies byte_len(#[trigger] lines[i]@)
                    <= budget by {
                    assert(list_texts(lines@)[i] == lines[i]@);
                }
            }
            Ok(lines)
        },
        None => Err(BotError::LineBudget),
    }
}

/// What the bot says to `addressee`: the message, after the addressee's name
/// and the suffix where there is an addressee.
pub open spec fn say_text(addressee: Seq<char>, suffix: Seq<char>, msg: Seq<char>) -> Seq<char> {
    if addressee.len() == 0 {
        msg
    } else {
        addressee + suffix + msg
    }
}

/// How an attempt to say something ends.
pub enum Said {
    /// These lines go out, in this order.
    Lines(Seq<Seq<char>>),
    /// The prefix and the target leave no room for the text.
    NoRoom,
    /// A line was refused when it was made.
    Refused,
}

/// Whether every one of `lines` can be sent to `target`.
pub open spec fn all_accepted(target: Seq<char>, lines: Seq<Seq<char>>) -> bool {
    forall|i: int| 0 <= i < lines.len() ==> priv_msg_accepted(target, #[trigger] lines[i])
}

/// How saying `text` to `target` ends under a budget of `budget` bytes: the
/// text is wrapped, and each line becomes a message to `target`.
pub open spec fn say_outcome(budget: nat, target: Seq<char>, text: Seq<char>) -> Said {
    if !can_wrap(text, budget) {
        Said::NoRoom
    } else if !all_accepted(target, wrapped(text, budget)) {
        Said::Refused
    } else {
        Said::Lines(wrapped(text, budget).map_values(|line: Seq<char>| priv_msg_line(target, line)))
    }
}

/// How saying each of `texts` in turn ends: as the first that does not go
/// through, or with the lines of all of them.
pub open spec fn say_all_outcome(budget: nat, target: Seq<char>, texts: Seq<Seq<char>>) -> Said
    decreases texts.len(),
{
    if texts.len() == 0 {
        Said::Lines(Seq::empty())
    } else {
        match say_all_outcome(budget, target, texts.drop_last()) {
            Said::Lines(before) => match say_outcome(budget, target, texts.last()) {
                Said::Lines(last) => Said::Lines(before + last),
                other => other,
            },
            other => other,
        }
    }
}

/// Whether `r` is what `said` describes.
pub open spec fn is_said(r: Result<Vec<OutMsg>, BotError>, said: Said) -> bool {
    match said {
        Said::Lines(lines) => r matches Ok(msgs) && out_lines(msgs@) == lines,
        Said::NoRoom => r matches Err(e) && e is LineBudget,
        Said::Refused => r matches Err(e) && e is Protocol,
    }
}

impl<H, A: AdminFn> State<H, A> {
    /// Says `msg` to `target`, addressed to `addressee` if that is not
    /// empty: one message for each line into which the text is wrapped.
    pub fn say(&self, target: &MsgTarget, addressee: &str, msg: &str) -> (r: Result<
        Vec<OutMsg>,
        BotError,
    >)
        ensures
            is_said(
                r,
                say_outcome(
                    self.budget_for(target@),
                    target@,
                    say_text(addressee@, self.config.addressee_suffix@, msg@),
                ),
            ),
            r is Ok == can_wrap(
                say_text(addressee@, self.config.addressee_suffix@, msg@),
                self.budget_for(target@),
            ),
    {
        let mut final_msg = String::from_str(addressee);
        if str_len(addressee) != 0 {
            final_msg.append(self.config.addressee_suffix.as_str());
        }
        final_msg.append(msg);
        proof {
            crate::text::lemma_byte_len_bounds(addressee@);
            if addressee@.len() == 0 {
                assert(addressee@ + msg@ =~= msg@);
            }
        }
        let ghost text = final_msg@;
        let ghost budget = self.budget_for(target@);
        let lines = wrap_msg(self, target, final_msg.as_str())?;
        let mut out: Vec<OutMsg> = Vec::new();
        let n = lines.len();
        let mut i: usize = 0;
        while i < n
            invariant
                n == lines.len(),
                i <= n,
                budget == self.budget_for(target@),
                text == say_text(addressee@, self.config.addressee_suffix@, msg@),
                can_wrap(text, budget),
                byte_len(target@) <= MAX_TARGET_LEN,
                list_texts(lines@) == wrapped(text, budget),
                out.len() == i,
                forall|k: int|
                    0 <= k < i ==> priv_msg_accepted(target@, #[trigger] wrapped(text, budget)[k]),
                forall|k: int|
                    0 <= k < i ==> (#[trigger] out[k])@ == priv_msg_line(
                        target@,
                        wrapped(text, budget)[k],
                    ),
            decreases n - i,
        {
            assert(list_texts(lines@)[i as int] == lines[i as int]@);
            match priv_msg(target.0.as_str(), lines[i].as_str()) {
                Ok(m) => {
                    out.push(m);
                },
                Err(e) => {
                    return Err(e);
                },
            }
            i += 1;
        }
        proof {
            assert(list_texts(lines@).len() == n);
            assert(out_lines(out@) =~= wrapped(text, budget).map_values(
                |line: Seq<char>| priv_msg_line(target@, line),
            ));
        }
        Ok(out)
    }
}

/// What the bot says of each of `msgs` to `addressee`.
pub open spec fn say_texts(addressee: Seq<char>, suffix: Seq<char>, msgs: Seq<Seq<char>>) -> Seq<
    Seq<char>,
> {
    msgs.map_values(|msg: Seq<char>| say_text(addressee, suffix, msg))
}

impl<H, A: AdminFn> State<H, A> {
    /// Says each of `msgs` to `target` in turn, and stops at the first that
    /// does not go through.
    pub fn say_all(&self, target: &MsgTarget, addressee: &str, msgs: &Vec<String>) -> (r: Result<
        Vec<OutMsg>,
        BotError,
    >)
        ensures
            is_said(
                r,
                say_all_outcome(
                    self.budget_for(target@),
                    target@,
                    say_texts(addressee@, self.config.addressee_suffix@, list_texts(msgs@)),
                ),
            ),
    {
        let ghost budget = self.budget_for(target@);
        let ghost texts = say_texts(addressee@, self.config.addressee_suffix@, list_texts(msgs@));
        let mut out: Vec<OutMsg> = Vec::new();
        let n = msgs.len();
        let mut i: usize = 0;
        proof {
            assert(texts.take(0) =~= Seq::<Seq<char>>::empty());
            assert(out_lines(out@) =~= Seq::<Seq<char>>::empty());
        }
        while i < n
            invariant
                n == msgs.len(),
                i <= n,
                budget == self.budget_for(target@),
                texts == say_texts(addressee@, self.config.addressee_suffix@, list_texts(msgs@)),
                say_all_outcome(budget, target@, texts.take(i as int)) == Said::Lines(
                    out_lines(out@),
                ),
            decreases n - i,
        {
            let ghost before = out_lines(out@);
            let said = self.say(target, addressee, msgs[i].as_str());
            proof {
                assert(texts.take(i + 1).drop_last() =~= texts.take(i as int));
                assert(texts.take(i + 1).last() == texts[i as int]);
                assert(list_texts(msgs@)[i as int] == msgs[i as int]@);
                assert(texts[i as int] == say_text(
                    addressee@,
                    self.config.addressee_suffix@,
                    msgs[i as int]@,
                ));
            }
            match said {
                Ok(mut lines) => {
                    let ghost added = out_lines(lines@);
                    out.append(&mut lines);
                    proof {
                        assert(out_lines(out@) =~= before + added);
                    }
                },
                Err(e) => {
                    proof {
                        lemma_say_all_stops(budget, target@, texts, i + 1);
                    }
                    return Err(e);
                },
            }
            i += 1;
        }
        proof {
            assert(texts.take(n as int) =~= texts);
        }
        Ok(out)
    }
}

/// Once saying the first `upto` texts has failed, saying all of them fails
/// in the same way.
pub proof fn lemma_say_all_stops(budget: nat, target: Seq<char>, texts: Seq<Seq<char>>, upto: int)
    requires
        0 <= upto <= texts.len(),
        !(say_all_outcome(budget, target, texts.take(upto)) is Lines),
    ensures
        say_all_outcome(budget, target, texts) == say_all_outcome(budget, target, texts.take(upto)),
    decreases texts.len() - upto,
{
    if upto < texts.len() {
        assert(texts.take(upto + 1).drop_last() =~= texts.take(upto));
        lemma_say_all_stops(budget, target, texts, upto + 1);
    } else {
        assert(texts.take(upto) =~= texts);
    }
}

/// The target of an answer to `msg`: the sender, if `msg` was sent to the
/// bot alone, and else the channel that `msg` was sent to. There is none
/// where the sender of a message to the bot alone has no nick.
pub open spec fn reply_target(msg: PrivMsgView, nick: Seq<char>) -> Option<Seq<char>> {
    if msg.metadata.target == nick {
        msg.metadata.prefix.nick
    } else {
        Some(msg.metadata.target)
    }
}

/// The addressee of a reply to `msg`: nobody, if `msg` was sent to the bot
/// alone, and else the sender, as far as the sender's nick is known.
pub open spec fn reply_addressee(msg: PrivMsgView, nick: Seq<char>) -> Seq<char> {
    if msg.metadata.target == nick {
        Seq::empty()
    } else {
        match msg.metadata.prefix.nick {
            Some(sender) => sender,
            None => Seq::empty(),
        }
    }
}

/// Where an answer to `msg` goes and whom it addresses, for a bot with the
/// nickname `nick`.
pub fn reply_route<'a>(msg: &'a PrivMsg, nick: &str) -> (r: Option<(MsgTarget, &'a str)>)
    ensures
        match r {
            Some((target, addressee)) => {
                &&& reply_target(msg@, nick@) == Some(target@)
                &&& addressee@ == reply_addressee(msg@, nick@)
            },
            None => reply_target(msg@, nick@) is None,
        },
{
    if str_eq(msg.metadata.target.0.as_str(), nick) {
        match &msg.metadata.prefix.nick {
            Some(sender) => {
                let addressee: &'a str = "";
                proof {
                    reveal_strlit("");
                    assert(addressee@ =~= Seq::<char>::empty());
                }
                Some((MsgTarget(sender.clone()), addressee))
            },
            None => None,
        }
    } else {
        let addressee: &'a str = match &msg.metadata.prefix.nick {
            Some(sender) => sender.as_str(),
            None => {
                proof {
                    reveal_strlit("");
                    assert(""@ =~= Seq::<char>::empty());
                }
                ""
            },
        };
        Some((msg.metadata.target.clone(), addressee))
    }
}

/// The name of the command in a command line: what stands before the first
/// whitespace.
pub open spec fn command_name(line: Seq<char>) -> Seq<char> {
    line.take(first_whitespace(line))
}

/// The arguments in a command line: what stands after the whitespace that
/// follows the name.
pub open spec fn command_args(line: Seq<char>) -> Seq<char> {
    trim_start(line.skip(first_whitespace(line)))
}

/// Splits a command line into the command's name and its arguments.
pub fn split_command_line<'a>(line: &'a str) -> (r: (&'a str, &'a str))
    ensures
        r.0@ == command_name(line@),
        r.1@ == command_args(line@),
{
    let index = TextIndex::new(line);
    let n = index.len();
    let at = find_whitespace(&index.chars);
    let mut from: usize = at;
    while from < n && crate::text::char_is_whitespace(index.chars[from])
        invariant
            index.wf(),
            n == index.chars.len(),
            at <= from <= n,
            trim_start(index.chars@.subrange(at as int, n as int)) == trim_start(
                index.chars@.subrange(from as int, n as int),
            ),
        decreases n - from,
    {
        proof {
            crate::text::lemma_trim_start_step(index.chars@, from as int, n as int);
        }
        from += 1;
    }
    proof {
        crate::text::lemma_trim_start_step(index.chars@, from as int, n as int);
        assert(line@.skip(at as int) =~= line@.subrange(at as int, n as int));
        assert(line@.take(at as int) =~= line@.subrange(0, at as int));
    }
    (index.part(line, 0, at), index.part(line, from, n))
}

/// What a message says to the bot, if it is addressed to the bot: all of a
/// message that was sent to the bot alone, and in a channel what follows the
/// bot's nickname and a colon or a comma, in both cases without the
/// whitespace around it. A message that is the bot's nickname and no more
/// says nothing to the bot, but is addressed to it.
pub open spec fn addressed_text(text: Seq<char>, target: Seq<char>, nick: Seq<char>) -> Option<
    Seq<char>,
> {
    if target == nick {
        Some(trimmed(text))
    } else if text == nick {
        Some(Seq::empty())
    } else if starts_with(text, nick) && text.len() > nick.len() && (text[nick.len() as int] == ':'
        || text[nick.len() as int] == ',') {
        Some(trimmed(text.skip(nick.len() as int + 1)))
    } else {
        None
    }
}

/// Finds what `msg` says to a bot with the nickname `nick`, if it is
/// addressed to the bot.
pub fn parse_msg_to_nick<'a>(msg: &'a PrivMsg, nick: &str) -> (r: Option<&'a str>)
    ensures
        match r {
            Some(said) => addressed_text(msg.text@, msg.metadata.target@, nick@) == Some(said@),
            None => addressed_text(msg.text@, msg.metadata.target@, nick@) is None,
        },
{
    let text: &'a str = msg.text.as_str();
    let index = TextIndex::new(text);
    let n = index.len();
    proof {
        assert(text@.subrange(0, n as int) =~= text@);
    }
    if str_eq(msg.metadata.target.0.as_str(), nick) {
        let (a, b) = trim_bounds(&index.chars, 0, n);
        Some(index.part(text, a, b))
    } else if str_eq(text, nick) {
        let said = index.part(text, 0, 0);
        proof {
            assert(said@ =~= Seq::<char>::empty());
        }
        Some(said)
    } else {
        let name = to_chars(nick);
        let k = name.len();
        if chars_start_with(&index.chars, &name) && n > k && (index.chars[k] == ':'
            || index.chars[k] == ',') {
            let (a, b) = trim_bounds(&index.chars, k + 1, n);
            proof {
                assert(text@.skip(k + 1) =~= text@.subrange(k + 1, n as int));
            }
            Some(index.part(text, a, b))
        } else {
            None
        }
    }
}

/// Whether a sender may run a command at level `lvl`, where `check` is what
/// the check for administrators answers: everybody may run a command at
/// level `Public`, and the check decides on one at level `Admin`.
pub open spec fn authorization(lvl: BotCmdAuthLvl, check: Result<bool, BotError>) -> Result<
    bool,
    BotError,
> {
    match lvl {
        BotCmdAuthLvl::Public => Ok(true),
        BotCmdAuthLvl::Admin => check,
    }
}

/// What becomes of a command that the sender may not run: the sender is
/// told so, or the failure of the check is passed on. There is none where
/// the sender may run the command.
pub open spec fn refusal(authorized: Result<bool, BotError>) -> Option<BotCmdResult> {
    match authorized {
        Ok(true) => None,
        Ok(false) => Some(BotCmdResult::Unauthorized),
        Err(e) => Some(BotCmdResult::LibErr(e)),
    }
}

/// Whether a command at level `lvl` is run, where `check` is what the check
/// for administrators answers.
pub open spec fn runnable(lvl: BotCmdAuthLvl, check: Result<bool, BotError>) -> bool {
    refusal(authorization(lvl, check)) is None
}

/// Anybody may run a command at level `Public`; a command at level `Admin`
/// is run where the check for administrators answers yes, and nowhere else.
pub proof fn lemma_who_may_run(check: Result<bool, BotError>)
    ensures
        runnable(BotCmdAuthLvl::Public, check),
        runnable(BotCmdAuthLvl::Admin, check) <==> check == Ok::<bool, BotError>(true),
{
}

/// Whether `authorized` is the decision on a command at level `lvl` for the
/// sender with the prefix `prefix`: yes for a command at level `Public`,
/// and for one at level `Admin` an answer of the check for administrators
/// for this prefix.
pub open spec fn is_decision<H, A: AdminFn>(
    state: &State<H, A>,
    lvl: BotCmdAuthLvl,
    prefix: MsgPrefix,
    authorized: Result<bool, BotError>,
) -> bool {
    match lvl {
        BotCmdAuthLvl::Public => authorized == Ok::<bool, BotError>(true),
        BotCmdAuthLvl::Admin => state.admin_check.answers(prefix, authorized),
    }
}

/// Decides whether the sender with the prefix `prefix` may run a command at
/// level `lvl`. The check for administrators is asked for a command at level
/// `Admin` only, and its answer for `prefix` is the decision.
pub fn authorize<H, A: AdminFn>(state: &State<H, A>, lvl: BotCmdAuthLvl, prefix: &MsgPrefix) -> (r:
    Result<bool, BotError>)
    ensures
        lvl == BotCmdAuthLvl::Public ==> r == Ok::<bool, BotError>(true),
        lvl == BotCmdAuthLvl::Admin ==> state.admin_check.answers(*prefix, r),
        is_decision(state, lvl, *prefix, r),
{
    match lvl {
        BotCmdAuthLvl::Public => Ok(true),
        BotCmdAuthLvl::Admin => state.admin_check.have_admin(prefix),
    }
}

/// Computes `refusal`.
pub fn refuse(authorized: Result<bool, BotError>) -> (r: Option<BotCmdResult>)
    ensures
        r == refusal(authorized),
{
    match authorized {
        Ok(true) => None,
        Ok(false) => Some(BotCmdResult::Unauthorized),
        Err(e) => Some(BotCmdResult::LibErr(e)),
    }
}

/// Whether `r` is what the command `cmd` gives for the sender of `msg` and
/// the arguments `args` once the right to end the bot is enforced: an
/// answer of the command's handler for this state, this metadata and these
/// arguments, in which a request to quit from a command that is not at
/// level `Admin` has become the report of a defect.
pub open spec fn is_guarded_answer<A: AdminFn, H: BotCmdHandler<A>>(
    state: &State<H, A>,
    msg: &PrivMsg,
    cmd: &BotCommand<H>,
    args: Seq<char>,
    r: BotCmdResult,
) -> bool {
    exists|answer: BotCmdResult|
        #[trigger] cmd.handler.answers(state, &msg.metadata, args, answer) && r@ == quit_guarded(
            cmd.name@,
            cmd.provider@,
            cmd.auth_lvl,
            answer@,
        )
}

/// Whether `r` is what comes of the command `cmd` for the sender of `msg`
/// and the arguments `args`: where the sender may not run the command, the
/// refusal, and where the sender may, the handler's answer with the right to
/// end the bot enforced.
pub open spec fn is_command_result<A: AdminFn, H: BotCmdHandler<A>>(
    state: &State<H, A>,
    msg: &PrivMsg,
    cmd: &BotCommand<H>,
    args: Seq<char>,
    r: BotCmdResult,
) -> bool {
    exists|authorized: Result<bool, BotError>|
        #[trigger] is_decision(state, cmd.auth_lvl, msg.metadata.prefix, authorized) && match refusal(
            authorized,
        ) {
            Some(refused) => r == refused,
            None => is_guarded_answer(state, msg, cmd, args, r),
        }
}

/// Runs `cmd` for the sender of `msg`, if the sender may run it, and
/// enforces the right to end the bot on what comes back.
///
/// A command at level `Public` is run for everybody, and one at level
/// `Admin` where the check for administrators answers yes for the sender's
/// prefix: the result is then the handler's answer for this state, the
/// metadata of `msg` and `cmd_args`, with the right to end the bot enforced.
/// Where the check answers no or fails, the result says so and the handler
/// is not asked. A command that is not at level `Admin` does not end the
/// bot.
pub fn run_bot_command<A: AdminFn, H: BotCmdHandler<A>>(
    state: &State<H, A>,
    msg: &PrivMsg,
    cmd: &BotCommand<H>,
    cmd_args: &str,
) -> (r: BotCmdResult)
    ensures
        is_command_result(state, msg, cmd, cmd_args@, r),
        cmd.auth_lvl == BotCmdAuthLvl::Public ==> is_guarded_answer(
            state,
            msg,
            cmd,
            cmd_args@,
            r,
        ),
        cmd.auth_lvl != BotCmdAuthLvl::Admin ==> !(r@ matches BotCmdResultView::Okay(
            ReactionView::Quit(_),
        )),
{
    let authorized = authorize(state, cmd.auth_lvl, &msg.metadata.prefix);
    let ghost decision = authorized;
    match refuse(authorized) {
        Some(refused) => {
            proof {
                assert(is_decision(state, cmd.auth_lvl, msg.metadata.prefix, decision));
            }
            refused
        },
        None => {
            let answer = cmd.handler.run(state, &msg.metadata, cmd_args);
            let ghost given = answer;
            let r = guard_quit(cmd.name.as_str(), cmd.provider.as_str(), cmd.auth_lvl, answer);
            proof {
                assert(cmd.handler.answers(state, &msg.metadata, cmd_args@, given));
                assert(is_decision(state, cmd.auth_lvl, msg.metadata.prefix, decision));
            }
            r
        },
    }
}

/// Whether every command called `name` is open to everybody.
pub open spec fn is_public_command<H>(commands: Seq<BotCommand<H>>, name: Seq<char>) -> bool {
    forall|i: int|
        0 <= i < commands.len() && (#[trigger] commands[i]).name@ == name ==> commands[i].auth_lvl
            == BotCmdAuthLvl::Public
}

/// Whether `r` is what the bot does about the command `name` with the
/// arguments `args` from the sender of `msg`: the reply that the command is
/// not known, or, for the command of that name, what `result_reaction`
/// makes of a result of that command for this sender and these arguments.
pub open spec fn is_command_reaction<A: AdminFn, H: BotCmdHandler<A>>(
    state: &State<H, A>,
    msg: &PrivMsg,
    name: Seq<char>,
    args: Seq<char>,
    r: ReactionView,
) -> bool {
    if has_command(state.commands.entries(), name) {
        exists|i: int, result: BotCmdResult|
            0 <= i < state.commands.entries().len() && state.commands.entries()[i].name@ == name
                && #[trigger] is_command_result(
                state,
                msg,
                &state.commands.entries()[i],
                args,
                result,
            ) && r == result_reaction(name, state.commands.entries()[i].usage@, result@)
    } else {
        r == ReactionView::Reply(unknown_command_text(name))
    }
}

/// What the bot does about the command `cmd_name` with the arguments
/// `cmd_args` from the sender of `msg`.
///
/// A command that the bot does not know gets a reply that says so. A
/// command that the bot knows is run for the sender, if the sender may run
/// it, and its result is passed on or turned into a reply. A command that
/// is not at level `Admin` never ends the bot. The failure of a collaborator
/// goes to the error handler as well as into the reply.
pub fn bot_command_reaction<A: AdminFn, H: BotCmdHandler<A>>(
    state: &State<H, A>,
    msg: &PrivMsg,
    cmd_name: &str,
    cmd_args: &str,
) -> (r: Reaction)
    ensures
        is_command_reaction(state, msg, cmd_name@, cmd_args@, r@),
        !has_command(state.commands.entries(), cmd_name@) ==> r@ == ReactionView::Reply(
            unknown_command_text(cmd_name@),
        ),
        is_public_command(state.commands.entries(), cmd_name@) ==> !(r@ is Quit),
{
    let cmd = match state.commands.lookup(cmd_name) {
        Some(cmd) => cmd,
        None => {
            return unknown_command_reply(cmd_name);
        },
    };
    let ghost at = choose|i: int|
        0 <= i < state.commands.entries().len() && state.commands.entries()[i] == *cmd;
    let result = run_bot_command(state, msg, cmd, cmd_args);
    let ghost given = result;
    let reaction = match result {
        BotCmdResult::LibErr(e) => {
            let reported = e.clone();
            let reaction = command_reaction(
                cmd.name.as_str(),
                cmd.usage.as_str(),
                BotCmdResult::LibErr(e),
            );
            let _ = state.error_handler.handle(reported);
            reaction
        },
        result => command_reaction(cmd.name.as_str(), cmd.usage.as_str(), result),
    };
    proof {
        assert(state.commands.entries().contains(*cmd));
        assert(state.commands.entries()[at] == *cmd);
        assert(is_command_result(state, msg, &state.commands.entries()[at], cmd_args@, given));
        assert(reaction@ == result_reaction(cmd_name@, cmd.usage@, given@));
    }
    reaction
}

/// How many commands in a row may answer with another command before the
/// bot gives up on what was asked.
pub const MAX_COMMAND_CHAIN: usize = 16;

/// Whether one of `commands` is at level `Admin`.
pub open spec fn has_admin_command<H>(commands: Seq<BotCommand<H>>) -> bool {
    exists|i: int|
        0 <= i < commands.len() && (#[trigger] commands[i]).auth_lvl == BotCmdAuthLvl::Admin
}

/// Whether `r` is what comes of saying `text` in answer to `msg`, to
/// `addressee` if that is not empty.
pub open spec fn answers<H, A: AdminFn>(
    state: &State<H, A>,
    msg: PrivMsgView,
    addressee: Seq<char>,
    text: Seq<char>,
    r: Result<Vec<OutMsg>, BotError>,
) -> bool {
    match reply_target(msg, state.config.nick@) {
        Some(target) => is_said(
            r,
            say_outcome(
                state.budget_for(target),
                target,
                say_text(addressee, state.config.addressee_suffix@, text),
            ),
        ),
        None => r matches Err(e) && e is NoReplyTarget,
    }
}

/// Whether `r` is what comes of saying each of `texts` in answer to `msg`,
/// to `addressee` if that is not empty.
pub open spec fn answers_all<H, A: AdminFn>(
    state: &State<H, A>,
    msg: PrivMsgView,
    addressee: Seq<char>,
    texts: Seq<Seq<char>>,
    r: Result<Vec<OutMsg>, BotError>,
) -> bool {
    match reply_target(msg, state.config.nick@) {
        Some(target) => is_said(
            r,
            say_all_outcome(
                state.budget_for(target),
                target,
                say_texts(addressee, state.config.addressee_suffix@, texts),
            ),
        ),
        None => r matches Err(e) && e is NoReplyTarget,
    }
}

/// Whether `r` is what `reaction` to `msg` comes to, where at most `fuel`
/// commands in a row are followed that answer with a command.
///
/// What is said goes out as `answers` and `answers_all` say; a literal line
/// goes out as it is, if it spells out a message; a request to quit comes
/// back as the error that carries the farewell. A reaction that names a
/// command line is run as `dispatches` says, with one command less to
/// follow, and with none left it ends in the error `TooManyRedirects`.
pub open spec fn resolves<A: AdminFn, H: BotCmdHandler<A>>(
    state: &State<H, A>,
    msg: &PrivMsg,
    reaction: ReactionView,
    fuel: nat,
    r: Result<Vec<OutMsg>, BotError>,
) -> bool
    decreases fuel, 0int,
{
    match reaction {
        ReactionView::Nothing => sends_nothing(r),
        ReactionView::Msg(text) => answers(state, msg@, Seq::empty(), text, r),
        ReactionView::Msgs(texts) => answers_all(state, msg@, Seq::empty(), texts, r),
        ReactionView::Reply(text) => answers(
            state,
            msg@,
            reply_addressee(msg@, state.config.nick@),
            text,
            r,
        ),
        ReactionView::Replies(texts) => answers_all(
            state,
            msg@,
            reply_addressee(msg@, state.config.nick@),
            texts,
            r,
        ),
        ReactionView::RawMsg(line) => if spells_message(line) {
            r matches Ok(msgs) && out_lines(msgs@) == seq![line]
        } else {
            r matches Err(e) && e is Protocol
        },
        ReactionView::BotCmd(line) => if fuel == 0 {
            r matches Err(e) && e is TooManyRedirects
        } else {
            dispatches(state, msg, line, (fuel - 1) as nat, r)
        },
        ReactionView::Quit(farewell) => r matches Err(e) && e@ == BotErrorView::ModuleRequestedQuit(
            farewell,
        ),
    }
}

/// Whether `r` is what comes of the command line `line` from the sender of
/// `msg`, where at most `fuel` commands in a row are followed that answer
/// with a command: the name is what stands before the first whitespace of
/// the line, the arguments are what stands after that whitespace, and `r`
/// is what the bot's reaction to that command comes to.
pub open spec fn dispatches<A: AdminFn, H: BotCmdHandler<A>>(
    state: &State<H, A>,
    msg: &PrivMsg,
    line: Seq<char>,
    fuel: nat,
    r: Result<Vec<OutMsg>, BotError>,
) -> bool
    decreases fuel, 1int,
{
    exists|reaction: ReactionView|
        #[trigger] is_command_reaction(
            state,
            msg,
            command_name(line),
            command_args(line),
            reaction,
        ) && resolves(state, msg, reaction, fuel, r)
}

/// Whether `r` is a success without a message to send.
pub open spec fn sends_nothing(r: Result<Vec<OutMsg>, BotError>) -> bool {
    r matches Ok(msgs) && msgs.len() == 0
}

/// Whether `r` asks for the end of the bot.
pub open spec fn is_quit_request(r: Result<Vec<OutMsg>, BotError>) -> bool {
    r matches Err(e) && e is ModuleRequestedQuit
}

/// Turns `reaction` to `msg` into messages, and follows at most `fuel`
/// commands that answer with a command.
fn resolve_reaction<A: AdminFn, H: BotCmdHandler<A>>(
    state: &State<H, A>,
    msg: &PrivMsg,
    reaction: Reaction,
    fuel: usize,
) -> (r: Result<Vec<OutMsg>, BotError>)
    ensures
        resolves(state, msg, reaction@, fuel as nat, r),
        is_quit_request(r) ==> reaction@ is Quit || has_admin_command(state.commands.entries()),
    decreases fuel, 0int,
{
    let no_addressee = "";
    proof {
        reveal_strlit("");
        assert(no_addressee@ =~= Seq::<char>::empty());
    }
    match reaction {
        Reaction::Nothing => Ok(Vec::new()),
        Reaction::Msg(text) => match reply_route(msg, state.nick()) {
            Some((target, _)) => state.say(&target, no_addressee, text.as_str()),
            None => Err(BotError::NoReplyTarget),
        },
        Reaction::Msgs(texts) => match reply_route(msg, state.nick()) {
            Some((target, _)) => state.say_all(&target, no_addressee, &texts),
            None => Err(BotError::NoReplyTarget),
        },
        Reaction::Reply(text) => match reply_route(msg, state.nick()) {
            Some((target, addressee)) => state.say(&target, addressee, text.as_str()),
            None => Err(BotError::NoReplyTarget),
        },
        Reaction::Replies(texts) => match reply_route(msg, state.nick()) {
            Some((target, addressee)) => state.say_all(&target, addressee, &texts),
            None => Err(BotError::NoReplyTarget),
        },
        Reaction::RawMsg(line) => match raw_msg(line.as_str()) {
            Ok(m) => {
                let mut msgs: Vec<OutMsg> = Vec::new();
                msgs.push(m);
                proof {
                    assert(out_lines(msgs@) =~= seq![line@]);
                }
                Ok(msgs)
            },
            Err(e) => Err(e),
        },
        Reaction::BotCmd(line) => {
            if fuel == 0 {
                Err(BotError::TooManyRedirects)
            } else {
                dispatch_command(state, msg, line.as_str(), fuel - 1)
            }
        },
        Reaction::Quit(farewell) => Err(BotError::ModuleRequestedQuit(farewell)),
    }
}

/// Runs the command line `line` for the sender of `msg` and turns what comes
/// of it into messages, following at most `fuel` commands that answer with a
/// command.
fn dispatch_command<A: AdminFn, H: BotCmdHandler<A>>(
    state: &State<H, A>,
    msg: &PrivMsg,
    line: &str,
    fuel: usize,
) -> (r: Result<Vec<OutMsg>, BotError>)
    ensures
        dispatches(state, msg, line@, fuel as nat, r),
        !has_command(state.commands.entries(), command_name(line@)) ==> resolves(
            state,
            msg,
            ReactionView::Reply(unknown_command_text(command_name(line@))),
            fuel as nat,
            r,
        ),
        is_quit_request(r) ==> has_admin_command(state.commands.entries()),
    decreases fuel, 1int,
{
    let (cmd_name, cmd_args) = split_command_line(line);
    let reaction = bot_command_reaction(state, msg, cmd_name, cmd_args);
    proof {
        if !has_admin_command(state.commands.entries()) {
            assert(is_public_command(state.commands.entries(), cmd_name@));
        }
    }
    resolve_reaction(state, msg, reaction, fuel)
}

/// Turns `reaction` to `msg` into the messages that the bot sends.
///
/// What is said goes to the sender, if `msg` was sent to the bot alone, and
/// else to the channel; a reply names the sender there. A reaction that
/// names a command line runs it for the sender, and so on for at most
/// `MAX_COMMAND_CHAIN` commands in a row that answer with a command; one
/// more ends in the error `TooManyRedirects`. A request to quit comes back
/// as the error `ModuleRequestedQuit`, and so does it only from a command at
/// level `Admin`.
pub fn handle_reaction<A: AdminFn, H: BotCmdHandler<A>>(state: &State<H, A>, msg: &PrivMsg, reaction: Reaction) -> (r:
    Result<Vec<OutMsg>, BotError>)
    ensures
        resolves(state, msg, reaction@, MAX_COMMAND_CHAIN as nat, r),
        is_quit_request(r) ==> reaction@ is Quit || has_admin_command(state.commands.entries()),
{
    resolve_reaction(state, msg, reaction, MAX_COMMAND_CHAIN)
}

/// Runs the command line `command_line` for the sender of `msg` and turns
/// what comes of it into the messages that the bot sends.
///
/// The command's name is what stands before the first whitespace of the
/// line, and its arguments are what stands after that whitespace. A command
/// that the bot does not know gets a reply that says so; one that it knows
/// is run for the sender, if the sender may run it, and its result is
/// passed on or turned into a reply. At most `MAX_COMMAND_CHAIN` commands in
/// a row that answer with a command are followed. The error
/// `ModuleRequestedQuit` comes back only where the bot has a command at
/// level `Admin`.
pub fn handle_bot_command<A: AdminFn, H: BotCmdHandler<A>>(state: &State<H, A>, msg: &PrivMsg, command_line: &str) -> (r:
    Result<Vec<OutMsg>, BotError>)
    ensures
        dispatches(state, msg, command_line@, MAX_COMMAND_CHAIN as nat, r),
        !has_command(state.commands.entries(), command_name(command_line@)) ==> resolves(
            state,
            msg,
            ReactionView::Reply(unknown_command_text(command_name(command_line@))),
            MAX_COMMAND_CHAIN as nat,
            r,
        ),
        is_quit_request(r) ==> has_admin_command(state.commands.entries()),
{
    dispatch_command(state, msg, command_line, MAX_COMMAND_CHAIN)
}

/// Whether `msg` is the message by which the bot asked itself for its
/// prefix, come back from the server: sent by the bot, to the bot, with the
/// text that is kept for this.
pub open spec fn is_prefix_echo(msg: PrivMsgView, nick: Seq<char>) -> bool {
    &&& msg.metadata.target == nick
    &&& msg.metadata.prefix.nick == Some(nick)
    &&& msg.text == UPDATE_MSG_PREFIX_STR@
}

/// The text by which the bot asks for its prefix has no whitespace around
/// it, and it is not empty.
pub proof fn lemma_update_text_is_trimmed()
    ensures
        trimmed(UPDATE_MSG_PREFIX_STR@) == UPDATE_MSG_PREFIX_STR@,
        UPDATE_MSG_PREFIX_STR@.len() > 0,
{
    let s = UPDATE_MSG_PREFIX_STR@;
    reveal_strlit("!!! UPDATE MESSAGE PREFIX !!!");
    assert(s.len() == 29);
    assert(s[0] == '!');
    assert(s.last() == '!');
}

/// The message by which the bot asks for its prefix is addressed to the bot,
/// and what it says to the bot is not empty.
pub proof fn lemma_prefix_echo_is_addressed(msg: PrivMsgView, nick: Seq<char>)
    requires
        is_prefix_echo(msg, nick),
    ensures
        addressed_text(msg.text, msg.metadata.target, nick) == Some(UPDATE_MSG_PREFIX_STR@),
        UPDATE_MSG_PREFIX_STR@.len() > 0,
{
    lemma_update_text_is_trimmed();
}

/// Whether `after` is `before` but for the bot's prefix and the phase of the
/// handshake.
pub open spec fn same_bot<H, A: AdminFn>(before: State<H, A>, after: State<H, A>) -> bool {
    &&& after.config == before.config
    &&& after.commands == before.commands
    &&& after.admin_check == before.admin_check
    &&& after.error_handler == before.error_handler
}

/// Takes the bot's prefix from `prefix`, which the server has shown.
pub fn update_prefix_info<H, A: AdminFn>(state: &mut State<H, A>, prefix: &MsgPrefix) -> (r: Result<
    Vec<OutMsg>,
    BotError,
>)
    ensures
        same_bot(*old(state), *final(state)),
        final(state).msg_prefix == *prefix,
        final(state).phase == HandshakePhase::PrefixKnown,
        sends_nothing(r),
{
    state.msg_prefix = prefix.clone();
    state.phase = HandshakePhase::PrefixKnown;
    Ok(Vec::new())
}

/// The message by which the bot asks itself for its prefix.
pub fn send_msg_prefix_update_request<H, A: AdminFn>(state: &State<H, A>) -> (r: Result<OutMsg, BotError>)
    ensures
        r is Ok == priv_msg_accepted(state.config.nick@, UPDATE_MSG_PREFIX_STR@),
        r matches Ok(m) ==> m@ == priv_msg_line(state.config.nick@, UPDATE_MSG_PREFIX_STR@),
        r matches Err(e) ==> e is Protocol,
        byte_len(state.config.nick@) <= MAX_TARGET_LEN ==> r is Ok,
{
    priv_msg(state.nick(), UPDATE_MSG_PREFIX_STR)
}

/// Acts on the server's notice that its welcome is over: the bot asks
/// itself for its prefix.
pub fn handle_004<H, A: AdminFn>(state: &mut State<H, A>) -> (r: Result<Vec<OutMsg>, BotError>)
    ensures
        same_bot(*old(state), *final(state)),
        final(state).msg_prefix == old(state).msg_prefix,
        byte_len(old(state).config.nick@) <= MAX_TARGET_LEN ==> r is Ok,
        match r {
            Ok(msgs) => {
                &&& priv_msg_accepted(old(state).config.nick@, UPDATE_MSG_PREFIX_STR@)
                &&& out_lines(msgs@) == seq![
                    priv_msg_line(old(state).config.nick@, UPDATE_MSG_PREFIX_STR@),
                ]
                &&& final(state).phase == HandshakePhase::PrefixUpdateRequested
            },
            Err(e) => {
                &&& !priv_msg_accepted(old(state).config.nick@, UPDATE_MSG_PREFIX_STR@)
                &&& e is Protocol
                &&& final(state).phase == HandshakePhase::WelcomeReceived
            },
        },
{
    state.phase = HandshakePhase::WelcomeReceived;
    match send_msg_prefix_update_request(state) {
        Ok(m) => {
            let mut msgs: Vec<OutMsg> = Vec::new();
            msgs.push(m);
            proof {
                assert(out_lines(msgs@) =~= seq![m@]);
            }
            state.phase = HandshakePhase::PrefixUpdateRequested;
            Ok(msgs)
        },
        Err(e) => Err(e),
    }
}

/// The messages by which the bot makes itself known to the server: its
/// nickname, then its user name and real name.
pub fn connection_sequence<H, A: AdminFn>(state: &mut State<H, A>) -> (r: Result<Vec<OutMsg>, BotError>)
    ensures
        same_bot(*old(state), *final(state)),
        final(state).msg_prefix == old(state).msg_prefix,
        0 < byte_len(old(state).config.nick@) <= MAX_NICK_LEN && byte_len(
            old(state).config.username@,
        ) <= MAX_USERNAME_LEN ==> r is Ok,
        old(state).config.nick@.len() == 0 ==> r is Err,
        match r {
            Ok(msgs) => {
                &&& nick_accepted(old(state).config.nick@)
                &&& user_accepted(old(state).config.username@, old(state).config.realname@)
                &&& out_lines(msgs@) == seq![
                    nick_line(old(state).config.nick@),
                    user_line(old(state).config.username@, old(state).config.realname@),
                ]
                &&& final(state).phase == HandshakePhase::AwaitingWelcome
            },
            Err(e) => {
                &&& !(nick_accepted(old(state).config.nick@) && user_accepted(
                    old(state).config.username@,
                    old(state).config.realname@,
                ))
                &&& e is Protocol
                &&& final(state).phase == old(state).phase
            },
        },
{
    let first = match nick(state.config.nick.as_str()) {
        Ok(m) => m,
        Err(e) => {
            return Err(e);
        },
    };
    let second = match user(state.config.username.as_str(), state.config.realname.as_str()) {
        Ok(m) => m,
        Err(e) => {
            return Err(e);
        },
    };
    let mut msgs: Vec<OutMsg> = Vec::new();
    msgs.push(first);
    msgs.push(second);
    proof {
        assert(out_lines(msgs@) =~= seq![first@, second@]);
    }
    state.phase = HandshakePhase::AwaitingWelcome;
    Ok(msgs)
}

/// Whether `r` and `after` are what comes of the private or channel message
/// `msg` in the state `before`.
pub open spec fn privmsg_handled<A: AdminFn, H: BotCmdHandler<A>>(
    before: State<H, A>,
    msg: PrivMsg,
    after: State<H, A>,
    r: Result<Vec<OutMsg>, BotError>,
) -> bool {
    let nick = before.config.nick@;
    match addressed_text(msg.text@, msg.metadata.target@, nick) {
        None => after == before && sends_nothing(r),
        Some(said) => if said.len() == 0 {
            after == before && resolves(
                &before,
                &msg,
                ReactionView::Reply("Yes?"@),
                MAX_COMMAND_CHAIN as nat,
                r,
            )
        } else if is_prefix_echo(msg@, nick) {
            &&& after.msg_prefix == msg.metadata.prefix
            &&& after.phase == HandshakePhase::PrefixKnown
            &&& sends_nothing(r)
        } else {
            &&& after == before
            &&& dispatches(&before, &msg, said, MAX_COMMAND_CHAIN as nat, r)
            &&& is_quit_request(r) ==> has_admin_command(before.commands.entries())
        },
    }
}

/// Acts on a private or channel message.
///
/// A message that is not addressed to the bot is passed over. The message
/// by which the bot asked for its prefix gives the bot its prefix. A message
/// that says nothing to the bot gets a question back, and every other
/// message is run as a command line.
pub fn handle_privmsg<A: AdminFn, H: BotCmdHandler<A>>(state: &mut State<H, A>, msg: &PrivMsg) -> (r: Result<
    Vec<OutMsg>,
    BotError,
>)
    ensures
        same_bot(*old(state), *final(state)),
        privmsg_handled(*old(state), *msg, *final(state), r),
        is_prefix_echo(msg@, old(state).config.nick@) ==> final(state).msg_prefix
            == msg.metadata.prefix,
{
    proof {
        if is_prefix_echo(msg@, state.config.nick@) {
            lemma_prefix_echo_is_addressed(msg@, state.config.nick@);
        }
    }
    let msg_for_bot = match parse_msg_to_nick(msg, state.nick()) {
        Some(said) => said,
        None => {
            return Ok(Vec::new());
        },
    };
    if str_len(msg_for_bot) == 0 {
        proof {
            crate::text::lemma_byte_len_bounds(msg_for_bot@);
        }
        handle_reaction(state, msg, Reaction::Reply(String::from_str("Yes?")))
    } else if is_update_request(msg, state.nick()) {
        proof {
            crate::text::lemma_byte_len_bounds(msg_for_bot@);
        }
        update_prefix_info(state, &msg.metadata.prefix)
    } else {
        proof {
            crate::text::lemma_byte_len_bounds(msg_for_bot@);
        }
        handle_bot_command(state, msg, msg_for_bot)
    }
}

/// Tells whether `msg` is the message by which a bot with the nickname
/// `nick` asked itself for its prefix.
pub fn is_update_request(msg: &PrivMsg, nick: &str) -> (r: bool)
    ensures
        r == is_prefix_echo(msg@, nick@),
{
    let from_bot = match &msg.metadata.prefix.nick {
        Some(sender) => str_eq(sender.as_str(), nick),
        None => false,
    };
    from_bot && str_eq(msg.metadata.target.0.as_str(), nick) && str_eq(
        msg.text.as_str(),
        UPDATE_MSG_PREFIX_STR,
    )
}

/// Acts on an inbound message and gives the messages that the bot sends in
/// answer.
///
/// The bot's state changes in one way only: where the message by which the
/// bot asked for its prefix comes back, the bot's prefix becomes the prefix
/// under which that message came.
pub fn handle_msg<A: AdminFn, H: BotCmdHandler<A>>(state: &mut State<H, A>, input_msg: InboundMsg) -> (r: Result<
    Vec<OutMsg>,
    BotError,
>)
    ensures
        same_bot(*old(state), *final(state)),
        match input_msg {
            InboundMsg::PrivMsg(msg) => {
                &&& privmsg_handled(*old(state), msg, *final(state), r)
                &&& is_prefix_echo(msg@, old(state).config.nick@) ==> final(state).msg_prefix
                    == msg.metadata.prefix
            },
            InboundMsg::ServerInfo => {
                &&& final(state).msg_prefix == old(state).msg_prefix
                &&& byte_len(old(state).config.nick@) <= MAX_TARGET_LEN ==> r is Ok
                &&& match r {
                    Ok(msgs) => {
                        &&& priv_msg_accepted(old(state).config.nick@, UPDATE_MSG_PREFIX_STR@)
                        &&& out_lines(msgs@) == seq![
                            priv_msg_line(old(state).config.nick@, UPDATE_MSG_PREFIX_STR@),
                        ]
                        &&& final(state).phase == HandshakePhase::PrefixUpdateRequested
                    },
                    Err(e) => {
                        &&& !priv_msg_accepted(old(state).config.nick@, UPDATE_MSG_PREFIX_STR@)
                        &&& e is Protocol
                        &&& final(state).phase == HandshakePhase::WelcomeReceived
                    },
                }
            },
            InboundMsg::Other => *final(state) == *old(state) && sends_nothing(r),
        },
{
    match input_msg {
        InboundMsg::PrivMsg(msg) => handle_privmsg(state, &msg),
        InboundMsg::ServerInfo => handle_004(state),
        InboundMsg::Other => Ok(Vec::new()),
    }
}

/// The homepage of this package; it has none.
pub const PKG_HOMEPAGE: &'static str = "";

/// The version of this package.
pub const PKG_VERSION: &'static str = "0.1.0";

/// The farewell of a bot that was given none: the package's homepage in
/// angle brackets, and its version.
pub open spec fn default_quit_msg() -> Seq<char> {
    "<"@ + PKG_HOMEPAGE@ + "> v"@ + PKG_VERSION@
}

/// The farewell with which the bot quits.
pub open spec fn quit_text(msg: Option<Seq<char>>) -> Seq<char> {
    match msg {
        Some(text) => text,
        None => default_quit_msg(),
    }
}

/// The text of an optional borrowed or owned string.
pub open spec fn opt_cow_text(s: Option<Cow<'_, str>>) -> Option<Seq<char>> {
    match s {
        Some(text) => Some(text@),
        None => None,
    }
}

/// The message with which the bot leaves the server, with the farewell
/// `msg` or, without one, with the farewell of its own.
///
/// Where the message cannot be made, the error goes to the error handler
/// and there is no message.
pub fn quit<'a, H, A: AdminFn>(state: &State<H, A>, msg: Option<Cow<'a, str>>) -> (r: Option<OutMsg>)
    ensures
        r is Some == line_accepted(quit_line(quit_text(opt_cow_text(msg)))),
        r matches Some(m) ==> m@ == quit_line(quit_text(opt_cow_text(msg))),
{
    let mut line = String::from_str("QUIT :");
    match &msg {
        Some(Cow::Borrowed(text)) => {
            line.append(text);
        },
        Some(Cow::Owned(text)) => {
            line.append(text.as_str());
        },
        None => {
            line.append("<");
            line.append(PKG_HOMEPAGE);
            line.append("> v");
            line.append(PKG_VERSION);
            proof {
                assert(line@ =~= quit_line(default_quit_msg()));
            }
        },
    }
    proof {
        reveal_strlit("@");
        reveal_strlit("QUIT :");
        assert(line@.len() >= 6);
    }
    match raw_msg(line.as_str()) {
        Ok(m) => Some(m),
        Err(e) => {
            let _ = state.error_handler.handle(e);
            None
        },
    }
}

/// The server passes on each line that the bot says within the protocol's
/// limit: the line as the bot sends it, the bot's prefix with the colon
/// before it and the space after it, and the terminator come to no more than
/// `RAW_LEN_LIMIT` bytes.
pub proof fn lemma_said_lines_within_limit(
    prefix_len: nat,
    target: Seq<char>,
    text: Seq<char>,
    i: int,
)
    requires
        say_outcome(line_budget(prefix_len, byte_len(target)), target, text) is Lines,
        0 <= i < say_outcome(line_budget(prefix_len, byte_len(target)), target, text)->Lines_0.len(),
    ensures
        byte_len(say_outcome(line_budget(prefix_len, byte_len(target)), target, text)->Lines_0[i])
            + prefix_len + 4 <= RAW_LEN_LIMIT,
{
    let budget = line_budget(prefix_len, byte_len(target));
    let lines = wrapped(text, budget);
    lemma_lines_within_budget(text, budget);
    assert(byte_len(lines[i]) <= budget);
    reveal_strlit("PRIVMSG ");
    reveal_strlit(" :");
    let head = "PRIVMSG "@;
    let sep = " :"@;
    assert(head.len() == 8);
    assert(sep.len() == 2);
    vstd::utf8::is_ascii_chars_encode_utf8(head);
    vstd::utf8::is_ascii_chars_encode_utf8(sep);
    crate::text::lemma_byte_len_concat(head, target);
    crate::text::lemma_byte_len_concat(head + target, sep);
    crate::text::lemma_byte_len_concat(head + target + sep, lines[i]);
}

/// A reply never ends the bot: what comes of one is a list of messages, or
/// an error that is not a request to quit.
pub proof fn lemma_reply_never_quits<A: AdminFn, H: BotCmdHandler<A>>(
    state: &State<H, A>,
    msg: &PrivMsg,
    text: Seq<char>,
    fuel: nat,
    r: Result<Vec<OutMsg>, BotError>,
)
    requires
        resolves(state, msg, ReactionView::Reply(text), fuel, r),
    ensures
        !is_quit_request(r),
{
}

/// The error `TooManyRedirects` comes of nothing but a reaction that names a
/// command line; with no command left to follow, such a reaction ends in
/// that error at once.
pub proof fn lemma_redirects<A: AdminFn, H: BotCmdHandler<A>>(
    state: &State<H, A>,
    msg: &PrivMsg,
    reaction: ReactionView,
    fuel: nat,
    r: Result<Vec<OutMsg>, BotError>,
)
    requires
        resolves(state, msg, reaction, fuel, r),
    ensures
        (r matches Err(e) && e is TooManyRedirects) ==> reaction is BotCmd,
        reaction is BotCmd && fuel == 0 ==> (r matches Err(e) && e is TooManyRedirects),
{
}

} // verus!
