//! Text as the wire sees it: characters, their UTF-8 widths, whitespace and
//! trimming.
//!
//! Strings are modelled by their sequence of characters. Lengths are byte
//! lengths of the UTF-8 encoding, because the protocol's limit is in bytes.

use vstd::prelude::*;
use vstd::utf8::*;

verus! {

/// Whether `c` has the Unicode property `White_Space`.
pub open spec fn is_whitespace(c: char) -> bool {
    let u = c as u32;
    ||| 0x09 <= u <= 0x0D
    ||| u == 0x20
    ||| u == 0x85
    ||| u == 0xA0
    ||| u == 0x1680
    ||| 0x2000 <= u <= 0x200A
    ||| u == 0x2028
    ||| u == 0x2029
    ||| u == 0x202F
    ||| u == 0x205F
    ||| u == 0x3000
}

/// The number of bytes that the UTF-8 encoding of `c` takes.
pub open spec fn utf8_width(c: char) -> nat {
    let u = c as u32;
    if u < 0x80 {
        1
    } else if u < 0x800 {
        2
    } else if u < 0x10000 {
        3
    } else {
        4
    }
}

/// The number of bytes that the UTF-8 encoding of `s` takes.
pub open spec fn byte_len(s: Seq<char>) -> nat {
    encode_utf8(s).len()
}

/// `s` without its leading whitespace.
pub open spec fn trim_start(s: Seq<char>) -> Seq<char>
    decreases s.len(),
{
    if s.len() > 0 && is_whitespace(s[0]) {
        trim_start(s.drop_first())
    } else {
        s
    }
}

/// `s` without its trailing whitespace.
pub open spec fn trim_end(s: Seq<char>) -> Seq<char>
    decreases s.len(),
{
    if s.len() > 0 && is_whitespace(s.last()) {
        trim_end(s.drop_last())
    } else {
        s
    }
}

/// `s` without its leading and trailing whitespace.
pub open spec fn trimmed(s: Seq<char>) -> Seq<char> {
    trim_end(trim_start(s))
}

/// Tells whether `c` is whitespace.
pub fn char_is_whitespace(c: char) -> (r: bool)
    ensures
        r == is_whitespace(c),
{
    let u: u32 = c as u32;
    (0x09 <= u && u <= 0x0D) || u == 0x20 || u == 0x85 || u == 0xA0 || u == 0x1680 || (0x2000 <= u
        && u <= 0x200A) || u == 0x2028 || u == 0x2029 || u == 0x202F || u == 0x205F || u == 0x3000
}

/// The width in bytes of `c` in UTF-8.
pub fn char_width(c: char) -> (r: usize)
    ensures
        r == utf8_width(c),
        1 <= r <= 4,
{
    let u: u32 = c as u32;
    if u < 0x80 {
        1
    } else if u < 0x800 {
        2
    } else if u < 0x10000 {
        3
    } else {
        4
    }
}

/// The encoding of one character has the width that `utf8_width` gives.
pub proof fn lemma_encode_scalar_len(c: char)
    ensures
        encode_scalar(c as u32).len() == utf8_width(c),
{
    char_is_scalar(c);
}

/// Encoding distributes over concatenation.
pub proof fn lemma_encode_concat(a: Seq<char>, b: Seq<char>)
    ensures
        encode_utf8(a + b) == encode_utf8(a) + encode_utf8(b),
    decreases a.len(),
{
    if a.len() == 0 {
        assert(a + b == b);
        assert(encode_utf8(a) + encode_utf8(b) == encode_utf8(b));
    } else {
        lemma_encode_concat(a.drop_first(), b);
        assert((a + b).drop_first() == a.drop_first() + b);
        assert((a + b)[0] == a[0]);
        assert(encode_utf8(a + b) == encode_scalar(a[0] as u32) + (encode_utf8(a.drop_first())
            + encode_utf8(b)));
        assert(encode_utf8(a) + encode_utf8(b) == encode_scalar(a[0] as u32) + (encode_utf8(
            a.drop_first(),
        ) + encode_utf8(b)));
    }
}

/// Byte lengths add up over concatenation.
pub proof fn lemma_byte_len_concat(a: Seq<char>, b: Seq<char>)
    ensures
        byte_len(a + b) == byte_len(a) + byte_len(b),
{
    lemma_encode_concat(a, b);
}

/// The byte length of a single character is its width.
pub proof fn lemma_byte_len_single(c: char)
    ensures
        byte_len(seq![c]) == utf8_width(c),
{
    let s = seq![c];
    assert(s.drop_first() == Seq::<char>::empty());
    assert(encode_utf8(s.drop_first()).len() == 0);
    lemma_encode_scalar_len(c);
    assert(encode_utf8(s) == encode_scalar(c as u32) + encode_utf8(s.drop_first()));
}

/// Appending a character adds its width to the byte length.
pub proof fn lemma_byte_len_push(s: Seq<char>, c: char)
    ensures
        byte_len(s.push(c)) == byte_len(s) + utf8_width(c),
{
    assert(s.push(c) == s + seq![c]);
    lemma_byte_len_concat(s, seq![c]);
    lemma_byte_len_single(c);
}

/// The byte length of a part of `s` is the difference of the byte lengths of
/// the two prefixes that bound it.
pub proof fn lemma_byte_len_subrange(s: Seq<char>, a: int, b: int)
    requires
        0 <= a <= b <= s.len(),
    ensures
        byte_len(s.subrange(a, b)) == byte_len(s.take(b)) - byte_len(s.take(a)),
{
    assert(s.take(b) == s.take(a) + s.subrange(a, b));
    lemma_byte_len_concat(s.take(a), s.subrange(a, b));
}

/// A part of a sequence is no longer in bytes than a part that contains it.
pub proof fn lemma_byte_len_monotonic(s: Seq<char>, a: int, b: int, c: int)
    requires
        0 <= a <= b <= c <= s.len(),
    ensures
        byte_len(s.subrange(a, b)) <= byte_len(s.subrange(a, c)),
        byte_len(s.subrange(b, c)) <= byte_len(s.subrange(a, c)),
{
    assert(s.subrange(a, c) == s.subrange(a, b) + s.subrange(b, c));
    lemma_byte_len_concat(s.subrange(a, b), s.subrange(b, c));
}

/// Every character takes at least one byte and at most four.
pub proof fn lemma_byte_len_bounds(s: Seq<char>)
    ensures
        s.len() <= byte_len(s) <= 4 * s.len(),
    decreases s.len(),
{
    if s.len() > 0 {
        lemma_byte_len_bounds(s.drop_last());
        assert(s == s.drop_last().push(s.last()));
        lemma_byte_len_push(s.drop_last(), s.last());
    }
}

/// Trimming the start of a part of `s` skips one leading whitespace character
/// at a time.
pub proof fn lemma_trim_start_step(s: Seq<char>, a: int, b: int)
    requires
        0 <= a <= b <= s.len(),
    ensures
        a < b && is_whitespace(s[a]) ==> trim_start(s.subrange(a, b)) == trim_start(
            s.subrange(a + 1, b),
        ),
        !(a < b && is_whitespace(s[a])) ==> trim_start(s.subrange(a, b)) == s.subrange(a, b),
{
    let t = s.subrange(a, b);
    if a < b {
        assert(t[0] == s[a]);
        assert(t.drop_first() == s.subrange(a + 1, b));
    }
}

/// Trimming the end of a part of `s` drops one trailing whitespace character
/// at a time.
pub proof fn lemma_trim_end_step(s: Seq<char>, a: int, b: int)
    requires
        0 <= a <= b <= s.len(),
    ensures
        a < b && is_whitespace(s[b - 1]) ==> trim_end(s.subrange(a, b)) == trim_end(
            s.subrange(a, b - 1),
        ),
        !(a < b && is_whitespace(s[b - 1])) ==> trim_end(s.subrange(a, b)) == s.subrange(a, b),
{
    let t = s.subrange(a, b);
    if a < b {
        assert(t.last() == s[b - 1]);
        assert(t.drop_last() == s.subrange(a, b - 1));
    }
}

/// The start-trimmed part of `s` between `a` and `b` is a part that ends at
/// `b`; the result is where it starts.
pub proof fn lemma_trim_start_part(s: Seq<char>, a: int, b: int) -> (i: int)
    requires
        0 <= a <= b <= s.len(),
    ensures
        a <= i <= b,
        trim_start(s.subrange(a, b)) == s.subrange(i, b),
    decreases b - a,
{
    lemma_trim_start_step(s, a, b);
    if a < b && is_whitespace(s[a]) {
        lemma_trim_start_part(s, a + 1, b)
    } else {
        a
    }
}

/// The end-trimmed part of `s` between `a` and `b` is a part that starts at
/// `a`; the result is where it ends.
pub proof fn lemma_trim_end_part(s: Seq<char>, a: int, b: int) -> (j: int)
    requires
        0 <= a <= b <= s.len(),
    ensures
        a <= j <= b,
        trim_end(s.subrange(a, b)) == s.subrange(a, j),
    decreases b - a,
{
    lemma_trim_end_step(s, a, b);
    if a < b && is_whitespace(s[b - 1]) {
        lemma_trim_end_part(s, a, b - 1)
    } else {
        b
    }
}

/// A trimmed text is a part of the text it was trimmed from; the result gives
/// its bounds.
pub proof fn lemma_trimmed_is_part(s: Seq<char>) -> (r: (int, int))
    ensures
        0 <= r.0 <= r.1 <= s.len(),
        trimmed(s) == s.subrange(r.0, r.1),
{
    let n = s.len() as int;
    assert(s.subrange(0, n) == s);
    let a = lemma_trim_start_part(s, 0, n);
    let b = lemma_trim_end_part(s, a, n);
    (a, b)
}

/// Trimming never makes a text longer in bytes.
pub proof fn lemma_trimmed_byte_len(s: Seq<char>)
    ensures
        byte_len(trimmed(s)) <= byte_len(s),
{
    let n = s.len() as int;
    let (a, b) = lemma_trimmed_is_part(s);
    lemma_byte_len_monotonic(s, 0, a, n);
    lemma_byte_len_monotonic(s, a, b, n);
    assert(s.subrange(0, n) == s);
}

/// The characters of `s`, in order.
pub fn to_chars(s: &str) -> (v: Vec<char>)
    ensures
        v@ == s@,
{
    broadcast use vstd::string::group_string_axioms;

    let mut v: Vec<char> = Vec::new();
    for c in it: s.chars()
        invariant
            it.seq() == s@,
            v@ == it.seq().take(it.index()),
    {
        v.push(c);
    }
    v
}

/// The bounds of what is left of the part of `chars` between `a` and `b`
/// once its leading and trailing whitespace is removed.
pub fn trim_bounds(chars: &Vec<char>, a: usize, b: usize) -> (r: (usize, usize))
    requires
        a <= b <= chars.len(),
    ensures
        a <= r.0 <= r.1 <= b,
        chars@.subrange(r.0 as int, r.1 as int) == trimmed(chars@.subrange(a as int, b as int)),
{
    let mut i: usize = a;
    while i < b && char_is_whitespace(chars[i])
        invariant
            a <= i <= b <= chars.len(),
            trim_start(chars@.subrange(a as int, b as int)) == trim_start(
                chars@.subrange(i as int, b as int),
            ),
        decreases b - i,
    {
        proof {
            lemma_trim_start_step(chars@, i as int, b as int);
        }
        i += 1;
    }
    proof {
        lemma_trim_start_step(chars@, i as int, b as int);
    }
    let mut j: usize = b;
    while j > i && char_is_whitespace(chars[j - 1])
        invariant
            i <= j <= b <= chars.len(),
            trim_end(chars@.subrange(i as int, b as int)) == trim_end(
                chars@.subrange(i as int, j as int),
            ),
        decreases j - i,
    {
        proof {
            lemma_trim_end_step(chars@, i as int, j as int);
        }
        j -= 1;
    }
    proof {
        lemma_trim_end_step(chars@, i as int, j as int);
    }
    (i, j)
}

/// The end of an encoded prefix is a character boundary of the whole
/// encoding.
pub proof fn lemma_prefix_is_boundary(a: Seq<char>, b: Seq<char>)
    ensures
        is_char_boundary(encode_utf8(a + b), encode_utf8(a).len() as int),
    decreases a.len(),
{
    let bytes = encode_utf8(a + b);
    encode_utf8_valid_utf8(a + b);
    if a.len() > 0 {
        let rest = a.drop_first() + b;
        assert((a + b).drop_first() == rest);
        assert((a + b)[0] == a[0]);
        encode_utf8_first_scalar(a + b);
        lemma_encode_scalar_len(a[0]);
        assert(pop_first_scalar(bytes) =~= encode_utf8(rest));
        lemma_prefix_is_boundary(a.drop_first(), b);
        assert(encode_utf8(a).len() == encode_scalar(a[0] as u32).len() + encode_utf8(
            a.drop_first(),
        ).len());
    }
}

/// Two texts with the same encoding are the same text.
pub proof fn lemma_encode_injective(a: Seq<char>, b: Seq<char>)
    requires
        encode_utf8(a) == encode_utf8(b),
    ensures
        a == b,
{
    encode_utf8_decode_utf8(a);
    encode_utf8_decode_utf8(b);
}

/// A text with the byte offset of each of its characters, so that parts of it
/// can be measured and cut out in constant time.
pub struct TextIndex {
    /// The characters of the text.
    pub chars: Vec<char>,
    /// For each position, the byte length of the text before it; one entry
    /// more than there are characters.
    pub offsets: Vec<usize>,
}

impl TextIndex {
    /// The text that was indexed.
    pub open spec fn text(&self) -> Seq<char> {
        self.chars@
    }

    /// Every offset is the byte length of the prefix that ends there.
    pub open spec fn wf(&self) -> bool {
        &&& self.offsets.len() == self.chars.len() + 1
        &&& forall|i: int|
            0 <= i <= self.chars.len() ==> #[trigger] self.offsets[i] == byte_len(
                self.chars@.take(i),
            )
    }

    /// Indexes `s`.
    pub fn new(s: &str) -> (r: TextIndex)
        ensures
            r.wf(),
            r.text() == s@,
    {
        let total = s.as_bytes().len();
        let chars = to_chars(s);
        let n = chars.len();
        let mut offsets: Vec<usize> = Vec::new();
        offsets.push(0);
        proof {
            assert(chars@.take(0) == Seq::<char>::empty());
            assert(chars@.take(n as int) == chars@);
        }
        let mut i: usize = 0;
        while i < n
            invariant
                n == chars.len(),
                i <= n,
                total == byte_len(chars@),
                offsets.len() == i + 1,
                forall|k: int| 0 <= k <= i ==> #[trigger] offsets[k] == byte_len(chars@.take(k)),
            decreases n - i,
        {
            let w = char_width(chars[i]);
            proof {
                assert(chars@.take(i + 1) == chars@.take(i as int).push(chars@[i as int]));
                lemma_byte_len_push(chars@.take(i as int), chars@[i as int]);
                assert(chars@.subrange(0, i + 1) == chars@.take(i + 1));
                assert(chars@.subrange(0, n as int) == chars@);
                lemma_byte_len_monotonic(chars@, 0, i + 1, n as int);
            }
            let next = offsets[i] + w;
            offsets.push(next);
            i += 1;
        }
        TextIndex { chars, offsets }
    }

    /// The number of characters.
    pub fn len(&self) -> (n: usize)
        requires
            self.wf(),
        ensures
            n == self.text().len(),
    {
        self.chars.len()
    }

    /// The byte length of the part between the positions `a` and `b`.
    pub fn part_len(&self, a: usize, b: usize) -> (r: usize)
        requires
            self.wf(),
            a <= b <= self.text().len(),
        ensures
            r == byte_len(self.text().subrange(a as int, b as int)),
    {
        proof {
            lemma_byte_len_subrange(self.chars@, a as int, b as int);
            lemma_byte_len_monotonic(self.chars@, 0, a as int, b as int);
            assert(self.chars@.subrange(0, a as int) == self.chars@.take(a as int));
            assert(self.chars@.subrange(0, b as int) == self.chars@.take(b as int));
        }
        self.offsets[b] - self.offsets[a]
    }

    /// The part of `s` between the positions `a` and `b`, where `s` is the
    /// text that was indexed.
    pub fn part<'a>(&self, s: &'a str, a: usize, b: usize) -> (r: &'a str)
        requires
            self.wf(),
            self.text() == s@,
            a <= b <= self.text().len(),
        ensures
            r@ == s@.subrange(a as int, b as int),
    {
        let ghost n = s@.len() as int;
        let ghost head = s@.take(b as int);
        let ghost tail = s@.subrange(b as int, n);
        proof {
            assert(s@ == head + tail);
            lemma_prefix_is_boundary(head, tail);
            lemma_encode_concat(head, tail);
        }
        let (front, _) = s.split_at(self.offsets[b]);
        proof {
            assert(encode_utf8(s@).subrange(0, encode_utf8(head).len() as int) =~= encode_utf8(
                head,
            ));
            lemma_encode_injective(front@, head);
        }
        let ghost pre = head.take(a as int);
        let ghost mid = head.subrange(a as int, b as int);
        proof {
            assert(head == pre + mid);
            assert(pre == s@.take(a as int));
            assert(mid == s@.subrange(a as int, b as int));
            lemma_prefix_is_boundary(pre, mid);
            lemma_encode_concat(pre, mid);
        }
        let (_, back) = front.split_at(self.offsets[a]);
        proof {
            assert(encode_utf8(head).subrange(
                encode_utf8(pre).len() as int,
                encode_utf8(head).len() as int,
            ) =~= encode_utf8(mid));
            lemma_encode_injective(back@, mid);
        }
        back
    }
}

/// What formatting a string with `{:?}` gives: the string in double quotes,
/// with the characters escaped that its `Debug` escapes.
pub uninterp spec fn str_debug(s: Seq<char>) -> Seq<char>;

/// Formats `s` with `{:?}`, through `Debug` for `str`. Believed: the result
/// depends on the characters of `s` alone.
#[verifier::external_body]
pub(crate) fn debug_quote(s: &str) -> (r: String)
    ensures
        r@ == str_debug(s@),
{
    format!("{:?}", s)
}

/// Tells whether `a` and `b` are the same text.
pub fn str_eq(a: &str, b: &str) -> (r: bool)
    ensures
        r == (a@ == b@),
{
    let x = a.as_bytes();
    let y = b.as_bytes();
    if x.len() != y.len() {
        return false;
    }
    let n = x.len();
    let mut i: usize = 0;
    while i < n
        invariant
            n == x@.len(),
            n == y@.len(),
            x@ == encode_utf8(a@),
            y@ == encode_utf8(b@),
            i <= n,
            forall|k: int| 0 <= k < i ==> x@[k] == y@[k],
        decreases n - i,
    {
        if x[i] != y[i] {
            return false;
        }
        i += 1;
    }
    proof {
        assert(x@ =~= y@);
        lemma_encode_injective(a@, b@);
    }
    true
}

/// The byte length of `s`.
pub fn str_len(s: &str) -> (n: usize)
    ensures
        n == byte_len(s@),
{
    s.as_bytes().len()
}

/// `n`, or the largest `usize` where `n` is larger.
pub open spec fn capped(n: nat) -> usize {
    if n <= usize::MAX {
        n as usize
    } else {
        usize::MAX
    }
}

/// The sum of `a` and `b`, or the largest `usize` where the sum is larger.
pub fn add_capped(a: usize, b: usize) -> (r: usize)
    ensures
        r == capped((a + b) as nat),
{
    if a > usize::MAX - b {
        usize::MAX
    } else {
        a + b
    }
}

/// The position of the first whitespace character of `s`, or the length of
/// `s` if it has none.
pub open spec fn first_whitespace(s: Seq<char>) -> int
    decreases s.len(),
{
    if s.len() == 0 || is_whitespace(s[0]) {
        0
    } else {
        1 + first_whitespace(s.drop_first())
    }
}

/// `first_whitespace` is the position before which nothing is whitespace and
/// at which the text ends or whitespace stands.
pub proof fn lemma_first_whitespace(s: Seq<char>, at: int)
    requires
        0 <= at <= s.len(),
        forall|k: int| 0 <= k < at ==> !is_whitespace(#[trigger] s[k]),
        at == s.len() || is_whitespace(s[at]),
    ensures
        first_whitespace(s) == at,
    decreases s.len(),
{
    if at > 0 {
        let rest = s.drop_first();
        assert forall|k: int| 0 <= k < at - 1 implies !is_whitespace(#[trigger] rest[k]) by {
            assert(rest[k] == s[k + 1]);
        }
        lemma_first_whitespace(rest, at - 1);
    }
}

/// The position of the first whitespace character of `chars`, or their
/// number if none is whitespace.
pub fn find_whitespace(chars: &Vec<char>) -> (at: usize)
    ensures
        at == first_whitespace(chars@),
        at <= chars.len(),
{
    let n = chars.len();
    let mut at: usize = 0;
    while at < n && !char_is_whitespace(chars[at])
        invariant
            n == chars.len(),
            at <= n,
            forall|k: int| 0 <= k < at ==> !is_whitespace(#[trigger] chars@[k]),
        decreases n - at,
    {
        at += 1;
    }
    proof {
        lemma_first_whitespace(chars@, at as int);
    }
    at
}

/// Whether `s` starts with `prefix`.
pub open spec fn starts_with(s: Seq<char>, prefix: Seq<char>) -> bool {
    prefix.len() <= s.len() && s.take(prefix.len() as int) == prefix
}

/// Tells whether `chars` starts with `prefix`.
pub fn chars_start_with(chars: &Vec<char>, prefix: &Vec<char>) -> (r: bool)
    ensures
        r == starts_with(chars@, prefix@),
{
    let n = prefix.len();
    if n > chars.len() {
        return false;
    }
    let mut i: usize = 0;
    while i < n
        invariant
            n == prefix.len(),
            n <= chars.len(),
            i <= n,
            forall|k: int| 0 <= k < i ==> chars@[k] == prefix@[k],
        decreases n - i,
    {
        if chars[i] != prefix[i] {
            assert(chars@.take(n as int)[i as int] == chars@[i as int]);
            return false;
        }
        i += 1;
    }
    proof {
        assert(chars@.take(n as int) =~= prefix@);
    }
    true
}

} // verus!
