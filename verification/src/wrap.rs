//! Cutting a text into lines that fit a byte budget.
//!
//! A line ends before a whitespace character or at the end of the text, as
//! late as the budget allows. Where not even one such place is in reach, the
//! line is cut in the middle of a word, as late as the budget allows. Each
//! line is handed out without its leading and trailing whitespace.

use vstd::prelude::*;
use itertools::Itertools;
use crate::model::list_texts;
use crate::text::{
    byte_len, char_is_whitespace, char_width, is_whitespace, lemma_byte_len_bounds,
    lemma_byte_len_monotonic, lemma_byte_len_single, lemma_trimmed_byte_len, trim_bounds, trimmed,
    utf8_width, TextIndex,
};

verus! {

/// The most bytes that one character takes.
pub const MAX_CHAR_WIDTH: usize = 4;

/// Whether every character of `msg` takes no more bytes than `limit`, so
/// that a line of `limit` bytes holds any one of them.
pub open spec fn chars_fit(msg: Seq<char>, limit: nat) -> bool {
    forall|i: int| 0 <= i < msg.len() ==> utf8_width(#[trigger] msg[i]) <= limit
}

/// A place where a line may end without breaking a word: before a whitespace
/// character, or at the end of the text.
pub open spec fn is_break(msg: Seq<char>, at: int) -> bool {
    at == msg.len() || (0 <= at < msg.len() && is_whitespace(msg[at]))
}

/// Whether a line from `start` may end at `end`: `end` is a break after
/// `start`, and the line is under the budget.
pub open spec fn fits(msg: Seq<char>, limit: nat, start: int, end: int) -> bool {
    &&& start < end <= msg.len()
    &&& is_break(msg, end)
    &&& byte_len(msg.subrange(start, end)) < limit
}

/// The last place up to `hi` where a line from `start` may end, or `start`
/// if there is none.
pub open spec fn last_fit(msg: Seq<char>, limit: nat, start: int, hi: int) -> int
    decreases hi - start,
{
    if hi <= start {
        start
    } else if fits(msg, limit, start, hi) {
        hi
    } else {
        last_fit(msg, limit, start, hi - 1)
    }
}

/// The last place up to `hi` before which a line from `start` holds no more
/// bytes than the budget, and in any case a place after `start`.
pub open spec fn forced_cut(msg: Seq<char>, limit: nat, start: int, hi: int) -> int
    decreases hi - start,
{
    if hi <= start + 1 {
        start + 1
    } else if byte_len(msg.subrange(start, hi)) <= limit {
        hi
    } else {
        forced_cut(msg, limit, start, hi - 1)
    }
}

/// Where the line that starts at `start` ends: at the last break that fits,
/// or, if no break fits, in the middle of a word.
pub open spec fn next_cut(msg: Seq<char>, limit: nat, start: int) -> int {
    let end = last_fit(msg, limit, start, msg.len() as int);
    if end > start {
        end
    } else {
        forced_cut(msg, limit, start, msg.len() as int)
    }
}

/// The pieces into which the text from `start` on is cut, whitespace
/// included. Each piece ends at the next cut, which lies after its start
/// and within the text (`lemma_next_cut`).
pub open spec fn segments_from(msg: Seq<char>, limit: nat, start: int) -> Seq<Seq<char>>
    decreases msg.len() - start,
{
    if 0 <= start < msg.len() {
        let end = next_cut(msg, limit, start);
        if start < end <= msg.len() {
            seq![msg.subrange(start, end)] + segments_from(msg, limit, end)
        } else {
            Seq::empty()
        }
    } else {
        Seq::empty()
    }
}

/// The pieces into which `msg` is cut, whitespace included: the whole of it
/// where it is under the budget.
pub open spec fn segments(msg: Seq<char>, limit: nat) -> Seq<Seq<char>> {
    if byte_len(msg) < limit {
        seq![msg]
    } else {
        segments_from(msg, limit, 0)
    }
}

/// The lines into which `msg` is wrapped: its pieces, each trimmed.
pub open spec fn wrapped(msg: Seq<char>, limit: nat) -> Seq<Seq<char>> {
    segments(msg, limit).map_values(|piece: Seq<char>| trimmed(piece))
}

/// Whether `msg` can be wrapped under `limit`: it is under the budget as it
/// is, or there is a budget and it holds each character of `msg`.
pub open spec fn can_wrap(msg: Seq<char>, limit: nat) -> bool {
    byte_len(msg) < limit || (limit >= 1 && chars_fit(msg, limit))
}

/// `last_fit` is either `start`, and then nothing up to `hi` fits, or the
/// last place up to `hi` that fits.
pub proof fn lemma_last_fit(msg: Seq<char>, limit: nat, start: int, hi: int)
    ensures
        ({
            let r = last_fit(msg, limit, start, hi);
            &&& r == start || (start < r <= hi && fits(msg, limit, start, r))
            &&& forall|k: int| r < k <= hi ==> !fits(msg, limit, start, k)
        }),
    decreases hi - start,
{
    if hi > start && !fits(msg, limit, start, hi) {
        lemma_last_fit(msg, limit, start, hi - 1);
    }
}

/// What is said of `r` in `lemma_last_fit` holds of `last_fit` alone.
pub proof fn lemma_last_fit_unique(msg: Seq<char>, limit: nat, start: int, hi: int, r: int)
    requires
        start <= hi,
        r == start || (start < r <= hi && fits(msg, limit, start, r)),
        forall|k: int| r < k <= hi ==> !fits(msg, limit, start, k),
    ensures
        last_fit(msg, limit, start, hi) == r,
    decreases hi - start,
{
    if hi > start && !fits(msg, limit, start, hi) {
        lemma_last_fit_unique(msg, limit, start, hi - 1, r);
    }
}

/// `forced_cut` lies after `start`; the line up to it is within the budget
/// unless it is one character long; and no later place up to `hi` is within
/// the budget.
pub proof fn lemma_forced_cut(msg: Seq<char>, limit: nat, start: int, hi: int)
    requires
        0 <= start < hi <= msg.len(),
    ensures
        ({
            let r = forced_cut(msg, limit, start, hi);
            &&& start < r <= hi
            &&& r == start + 1 || byte_len(msg.subrange(start, r)) <= limit
            &&& forall|k: int| r < k <= hi ==> byte_len(#[trigger] msg.subrange(start, k)) > limit
        }),
    decreases hi - start,
{
    if hi > start + 1 && byte_len(msg.subrange(start, hi)) > limit {
        lemma_forced_cut(msg, limit, start, hi - 1);
    }
}

/// What is said of `r` in `lemma_forced_cut` holds of `forced_cut` alone.
pub proof fn lemma_forced_cut_unique(msg: Seq<char>, limit: nat, start: int, hi: int, r: int)
    requires
        0 <= start < hi <= msg.len(),
        start < r <= hi,
        r == start + 1 || byte_len(msg.subrange(start, r)) <= limit,
        forall|k: int| r < k <= hi ==> byte_len(#[trigger] msg.subrange(start, k)) > limit,
    ensures
        forced_cut(msg, limit, start, hi) == r,
    decreases hi - start,
{
    if hi > start + 1 && byte_len(msg.subrange(start, hi)) > limit {
        lemma_forced_cut_unique(msg, limit, start, hi - 1, r);
    }
}

/// The next cut lies after `start` and within the text, and the piece up to
/// it is within the budget wherever the budget holds each character.
pub proof fn lemma_next_cut(msg: Seq<char>, limit: nat, start: int)
    requires
        0 <= start < msg.len(),
    ensures
        start < next_cut(msg, limit, start) <= msg.len(),
        chars_fit(msg, limit) ==> byte_len(msg.subrange(start, next_cut(msg, limit, start)))
            <= limit,
{
    let n = msg.len() as int;
    lemma_last_fit(msg, limit, start, n);
    lemma_forced_cut(msg, limit, start, n);
    lemma_one_char_len(msg, start);
}

/// One character of a text, taken as a part of it, has the byte length that
/// is its width.
pub proof fn lemma_one_char_len(msg: Seq<char>, at: int)
    requires
        0 <= at < msg.len(),
    ensures
        byte_len(msg.subrange(at, at + 1)) == utf8_width(msg[at]),
{
    assert(msg.subrange(at, at + 1) == seq![msg[at]]);
    lemma_byte_len_single(msg[at]);
}

/// Every piece from `start` on is within the budget, wherever the budget
/// holds each character.
pub proof fn lemma_segments_from_within_budget(msg: Seq<char>, limit: nat, start: int)
    requires
        chars_fit(msg, limit),
    ensures
        forall|i: int|
            0 <= i < segments_from(msg, limit, start).len() ==> byte_len(
                #[trigger] segments_from(msg, limit, start)[i],
            ) <= limit,
    decreases msg.len() - start,
{
    if 0 <= start < msg.len() {
        lemma_next_cut(msg, limit, start);
        let end = next_cut(msg, limit, start);
        lemma_segments_from_within_budget(msg, limit, end);
        let head = seq![msg.subrange(start, end)];
        let tail = segments_from(msg, limit, end);
        assert(segments_from(msg, limit, start) == head + tail);
        assert forall|i: int| 0 <= i < (head + tail).len() implies byte_len(
            #[trigger] (head + tail)[i],
        ) <= limit by {
            if i > 0 {
                assert((head + tail)[i] == tail[i - 1]);
            }
        }
    }
}

/// The pieces from `start` on, put end to end, are the text from `start` on.
pub proof fn lemma_segments_from_flatten(msg: Seq<char>, limit: nat, start: int)
    requires
        0 <= start <= msg.len(),
    ensures
        segments_from(msg, limit, start).flatten() == msg.subrange(start, msg.len() as int),
    decreases msg.len() - start,
{
    let n = msg.len() as int;
    if start < n {
        lemma_next_cut(msg, limit, start);
        let end = next_cut(msg, limit, start);
        lemma_segments_from_flatten(msg, limit, end);
        let head = seq![msg.subrange(start, end)];
        let tail = segments_from(msg, limit, end);
        assert(segments_from(msg, limit, start) == head + tail);
        vstd::seq_lib::lemma_flatten_concat(head, tail);
        head.lemma_flatten_one_element();
        assert(msg.subrange(start, end) + msg.subrange(end, n) =~= msg.subrange(start, n));
    } else {
        assert(segments_from(msg, limit, start).flatten() =~= msg.subrange(start, n));
    }
}

/// Every cut but the last falls before a whitespace character, unless the
/// piece before it could not have been cut at any break: then that piece
/// fills the budget to within one character.
pub proof fn lemma_cut_at_break_or_full(msg: Seq<char>, limit: nat, start: int)
    requires
        0 <= start < msg.len(),
        chars_fit(msg, limit),
    ensures
        ({
            let end = next_cut(msg, limit, start);
            ||| is_break(msg, end)
            ||| (forall|k: int| start < k <= msg.len() ==> !fits(msg, limit, start, k)) && byte_len(
                msg.subrange(start, end),
            ) + MAX_CHAR_WIDTH > limit
        }),
{
    let n = msg.len() as int;
    lemma_last_fit(msg, limit, start, n);
    lemma_forced_cut(msg, limit, start, n);
    let end = next_cut(msg, limit, start);
    if last_fit(msg, limit, start, n) == start && end < n {
        assert(msg.subrange(start, end + 1) == msg.subrange(start, end).push(msg[end]));
        crate::text::lemma_byte_len_push(msg.subrange(start, end), msg[end]);
    }
}

/// A text that is under the budget is wrapped into one line: the text,
/// trimmed.
pub proof fn lemma_short_text_is_one_line(msg: Seq<char>, limit: nat)
    requires
        byte_len(msg) < limit,
    ensures
        wrapped(msg, limit) == seq![trimmed(msg)],
{
    let f = |piece: Seq<char>| trimmed(piece);
    assert(seq![msg].map_values(f) =~= seq![trimmed(msg)]);
}

/// No line of a wrapped text is longer than the budget.
pub proof fn lemma_lines_within_budget(msg: Seq<char>, limit: nat)
    requires
        can_wrap(msg, limit),
    ensures
        forall|i: int|
            0 <= i < wrapped(msg, limit).len() ==> byte_len(#[trigger] wrapped(msg, limit)[i])
                <= limit,
{
    let pieces = segments(msg, limit);
    if byte_len(msg) >= limit {
        lemma_segments_from_within_budget(msg, limit, 0);
    }
    assert forall|i: int| 0 <= i < wrapped(msg, limit).len() implies byte_len(
        #[trigger] wrapped(msg, limit)[i],
    ) <= limit by {
        assert(wrapped(msg, limit)[i] == trimmed(pieces[i]));
        lemma_trimmed_byte_len(pieces[i]);
    }
}

/// Wrapping drops nothing and keeps the order: the lines are the pieces of
/// the text, each trimmed, and the pieces put end to end are the text.
pub proof fn lemma_wrapping_keeps_content(msg: Seq<char>, limit: nat)
    ensures
        segments(msg, limit).flatten() == msg,
        wrapped(msg, limit).len() == segments(msg, limit).len(),
        forall|i: int|
            0 <= i < segments(msg, limit).len() ==> #[trigger] wrapped(msg, limit)[i] == trimmed(
                segments(msg, limit)[i],
            ),
{
    if byte_len(msg) < limit {
        seq![msg].lemma_flatten_one_element();
    } else {
        lemma_segments_from_flatten(msg, limit, 0);
        assert(msg.subrange(0, msg.len() as int) == msg);
    }
}

/// Finds where the line that starts at `start` ends.
pub fn find_cut(index: &TextIndex, limit: usize, start: usize) -> (end: usize)
    requires
        index.wf(),
        start < index.text().len(),
        chars_fit(index.text(), limit as nat),
    ensures
        end == next_cut(index.text(), limit as nat, start as int),
        start < end <= index.text().len(),
{
    let ghost msg = index.text();
    let n = index.len();
    let mut reach: usize = start;
    let mut best: usize = start;
    let mut done = false;
    proof {
        assert(msg.subrange(start as int, start as int) == Seq::<char>::empty());
        lemma_byte_len_bounds(msg.subrange(start as int, start as int));
    }
    while !done
        invariant
            index.wf(),
            msg == index.text(),
            n == msg.len(),
            start < n,
            chars_fit(msg, limit as nat),
            start <= reach <= n,
            byte_len(msg.subrange(start as int, reach as int)) <= limit,
            best == start || (start < best <= reach && fits(
                msg,
                limit as nat,
                start as int,
                best as int,
            )),
            forall|k: int| best < k <= reach ==> !fits(msg, limit as nat, start as int, k),
            done ==> reach > start && (reach == n || byte_len(
                msg.subrange(start as int, reach + 1),
            ) > limit),
        decreases (n - reach) + (if done { 0int } else { 1int }),
    {
        if reach >= n {
            done = true;
        } else {
            let len = index.part_len(start, reach + 1);
            if len > limit {
                proof {
                    if reach == start {
                        lemma_one_char_len(msg, start as int);
                    }
                }
                done = true;
            } else {
                reach += 1;
                if len < limit && (reach == n || char_is_whitespace(index.chars[reach])) {
                    best = reach;
                }
            }
        }
    }
    proof {
        assert forall|k: int| reach < k <= n implies byte_len(
            #[trigger] msg.subrange(start as int, k),
        ) > limit by {
            lemma_byte_len_monotonic(msg, start as int, reach + 1, k);
        }
        lemma_last_fit_unique(msg, limit as nat, start as int, n as int, best as int);
        lemma_forced_cut_unique(msg, limit as nat, start as int, n as int, reach as int);
    }
    if best > start {
        best
    } else {
        reach
    }
}

/// The places at which the text from `start` on is cut, in order: each is
/// the next cut after the one before it, and the last is the end of the
/// text.
pub open spec fn cuts_from(msg: Seq<char>, limit: nat, start: int) -> Seq<int>
    decreases msg.len() - start,
{
    if 0 <= start < msg.len() {
        let end = next_cut(msg, limit, start);
        if start < end <= msg.len() {
            seq![end] + cuts_from(msg, limit, end)
        } else {
            Seq::empty()
        }
    } else {
        Seq::empty()
    }
}

/// Where the piece that ends at the cut number `i` starts: at `start`, or
/// at the cut before.
pub open spec fn piece_start(cuts: Seq<int>, start: int, i: int) -> int {
    if i == 0 {
        start
    } else {
        cuts[i - 1]
    }
}

/// The pieces from `start` on are what lies between `start` and the first
/// cut, and then between each cut and the next.
pub proof fn lemma_pieces_between_cuts(msg: Seq<char>, limit: nat, start: int)
    requires
        0 <= start <= msg.len(),
    ensures
        segments_from(msg, limit, start).len() == cuts_from(msg, limit, start).len(),
        forall|i: int|
            0 <= i < cuts_from(msg, limit, start).len() ==> {
                &&& start <= piece_start(cuts_from(msg, limit, start), start, i)
                    < #[trigger] cuts_from(msg, limit, start)[i] <= msg.len()
                &&& segments_from(msg, limit, start)[i] == msg.subrange(
                    piece_start(cuts_from(msg, limit, start), start, i),
                    cuts_from(msg, limit, start)[i],
                )
            },
    decreases msg.len() - start,
{
    if start < msg.len() {
        lemma_next_cut(msg, limit, start);
        let end = next_cut(msg, limit, start);
        lemma_pieces_between_cuts(msg, limit, end);
        let cuts = cuts_from(msg, limit, start);
        let later = cuts_from(msg, limit, end);
        let pieces = segments_from(msg, limit, start);
        let later_pieces = segments_from(msg, limit, end);
        assert(cuts == seq![end] + later);
        assert(pieces == seq![msg.subrange(start, end)] + later_pieces);
        assert forall|i: int| 0 <= i < cuts.len() implies {
            &&& start <= piece_start(cuts, start, i) < #[trigger] cuts[i] <= msg.len()
            &&& pieces[i] == msg.subrange(piece_start(cuts, start, i), cuts[i])
        } by {
            if i > 0 {
                assert(cuts[i] == later[i - 1]);
                assert(pieces[i] == later_pieces[i - 1]);
                assert(piece_start(cuts, start, i) == piece_start(later, end, i - 1));
            }
        }
    }
}

/// Moves `at` to the end of the line that starts there, and gives that end.
/// At the end of the text there is no line: `at` stays.
pub fn next_piece(index: &TextIndex, limit: usize, at: &mut usize) -> (r: Option<usize>)
    requires
        index.wf(),
        chars_fit(index.text(), limit as nat),
    ensures
        *old(at) < index.text().len() ==> r == Some(*final(at)) && *final(at) == next_cut(
            index.text(),
            limit as nat,
            *old(at) as int,
        ),
        *old(at) >= index.text().len() ==> r is None && *final(at) == *old(at),
{
    if *at < index.len() {
        let end = find_cut(index, limit, *at);
        *at = end;
        Some(end)
    } else {
        None
    }
}

/// Calls `itertools::Itertools::batching`, which asks its closure for one
/// item after another until the closure has none left. The closure is one
/// call of `next_piece`. Believed: the result holds what `next_piece` gave,
/// in order, each call starting where the one before ended: the cuts of the
/// text from `start` on.
#[verifier::external_body]
fn batch_cuts(index: &TextIndex, limit: usize, start: usize) -> (cuts: Vec<usize>)
    requires
        index.wf(),
        chars_fit(index.text(), limit as nat),
    ensures
        cuts@.map_values(|cut: usize| cut as int) == cuts_from(
            index.text(),
            limit as nat,
            start as int,
        ),
{
    let mut at = start;
    std::iter::repeat(()).batching(|_| next_piece(index, limit, &mut at)).collect()
}

/// Tells whether every one of `chars` takes no more bytes than `limit`.
pub fn all_chars_fit(chars: &Vec<char>, limit: usize) -> (r: bool)
    ensures
        r == chars_fit(chars@, limit as nat),
{
    if limit >= MAX_CHAR_WIDTH {
        return true;
    }
    let n = chars.len();
    let mut i: usize = 0;
    while i < n
        invariant
            n == chars.len(),
            i <= n,
            forall|k: int| 0 <= k < i ==> utf8_width(#[trigger] chars@[k]) <= limit,
        decreases n - i,
    {
        if char_width(chars[i]) > limit {
            return false;
        }
        i += 1;
    }
    true
}

/// Wraps `msg` into lines of at most `limit` bytes each.
///
/// A text that is under the budget as it stands gives one line. Any other
/// text is cut, at whitespace where the budget allows and inside a word
/// where it does not. There is no result without a budget, nor where a
/// character of a text that has to be cut takes more bytes than the budget:
/// no line could hold it.
pub fn wrap_text(msg: &str, limit: usize) -> (r: Option<Vec<String>>)
    ensures
        r is Some <==> can_wrap(msg@, limit as nat),
        r matches Some(lines) ==> list_texts(lines@) == wrapped(msg@, limit as nat),
{
    let index = TextIndex::new(msg);
    let n = index.len();
    let total = index.part_len(0, n);
    let mut lines: Vec<String> = Vec::new();
    proof {
        assert(msg@.subrange(0, n as int) == msg@);
    }
    if total < limit {
        let (a, b) = trim_bounds(&index.chars, 0, n);
        lines.push(index.part(msg, a, b).to_owned());
        proof {
            let f = |piece: Seq<char>| trimmed(piece);
            assert(seq![msg@].map_values(f) =~= seq![trimmed(msg@)]);
            assert(list_texts(lines@) =~= seq![trimmed(msg@)]);
        }
        return Some(lines);
    }
    if limit == 0 || !all_chars_fit(&index.chars, limit) {
        return None;
    }
    let cuts = batch_cuts(&index, limit, 0);
    let ghost places = cuts_from(msg@, limit as nat, 0);
    let ghost pieces = segments_from(msg@, limit as nat, 0);
    proof {
        lemma_pieces_between_cuts(msg@, limit as nat, 0);
        assert(cuts@.map_values(|cut: usize| cut as int).len() == cuts.len());
    }
    let mut start: usize = 0;
    let mut i: usize = 0;
    while i < cuts.len()
        invariant
            index.wf(),
            index.text() == msg@,
            n == msg@.len(),
            i <= cuts.len(),
            places == cuts_from(msg@, limit as nat, 0),
            pieces == segments_from(msg@, limit as nat, 0),
            cuts@.map_values(|cut: usize| cut as int) == places,
            pieces.len() == places.len(),
            forall|k: int|
                0 <= k < places.len() ==> {
                    &&& 0 <= piece_start(places, 0, k) < #[trigger] places[k] <= msg@.len()
                    &&& pieces[k] == msg@.subrange(piece_start(places, 0, k), places[k])
                },
            start == piece_start(places, 0, i as int),
            lines.len() == i,
            forall|k: int| 0 <= k < i ==> (#[trigger] lines[k])@ == trimmed(pieces[k]),
        decreases cuts.len() - i,
    {
        let end = cuts[i];
        proof {
            assert(cuts@.map_values(|cut: usize| cut as int)[i as int] == cuts@[i as int] as int);
            assert(places[i as int] == end);
        }
        let (a, b) = trim_bounds(&index.chars, start, end);
        lines.push(index.part(msg, a, b).to_owned());
        start = end;
        i += 1;
    }
    proof {
        assert(list_texts(lines@) =~= pieces.map_values(|piece: Seq<char>| trimmed(piece)));
    }
    Some(lines)
}

} // verus!
