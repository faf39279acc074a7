//! Text at the character level: white space, trimming, words, decimal numbers.

use vstd::prelude::*;
use vstd::std_specs::iter::IteratorSpec;
use vstd::string::*;

verus! {

/// Whether `c` has the Unicode property White_Space.
pub open spec fn is_space(c: char) -> bool {
    let n: u32 = c as u32;
    ||| 0x09 <= n <= 0x0D
    ||| n == 0x20
    ||| n == 0x85
    ||| n == 0xA0
    ||| n == 0x1680
    ||| 0x2000 <= n <= 0x200A
    ||| n == 0x2028
    ||| n == 0x2029
    ||| n == 0x202F
    ||| n == 0x205F
    ||| n == 0x3000
}

/// `s` without its leading white space.
pub open spec fn trim_start(s: Seq<char>) -> Seq<char>
    decreases s.len(),
{
    if s.len() > 0 && is_space(s[0]) {
        trim_start(s.drop_first())
    } else {
        s
    }
}

/// `s` without its trailing white space.
pub open spec fn trim_end(s: Seq<char>) -> Seq<char>
    decreases s.len(),
{
    if s.len() > 0 && is_space(s.last()) {
        trim_end(s.drop_last())
    } else {
        s
    }
}

/// `s` without its leading and trailing white space.
pub open spec fn trim(s: Seq<char>) -> Seq<char> {
    trim_end(trim_start(s))
}

/// Whether `s` holds nothing but white space.
pub open spec fn is_blank(s: Seq<char>) -> bool {
    trim(s).len() == 0
}

/// Whether `s` begins with `prefix`.
pub open spec fn starts_with(s: Seq<char>, prefix: Seq<char>) -> bool {
    prefix.len() <= s.len() && s.subrange(0, prefix.len() as int) == prefix
}

/// Whether `needle` occurs in `s` at position `at`.
pub open spec fn occurs_at(s: Seq<char>, needle: Seq<char>, at: int) -> bool {
    0 <= at && at + needle.len() <= s.len() && s.subrange(at, at + needle.len()) == needle
}

/// Whether `needle` occurs somewhere in `s`.
pub open spec fn contains(s: Seq<char>, needle: Seq<char>) -> bool {
    exists|at: int| occurs_at(s, needle, at)
}

/// Whether `c` is one of the ten decimal digits.
pub open spec fn is_digit(c: char) -> bool {
    '0' <= c <= '9'
}

/// Whether every character of `s` is a decimal digit.
pub open spec fn all_digits(s: Seq<char>) -> bool {
    forall|i: int| 0 <= i < s.len() ==> is_digit(#[trigger] s[i])
}

/// The value of the decimal digit `c`, and 0 for any other character.
pub open spec fn digit_of(c: char) -> nat {
    if is_digit(c) {
        (c as u32 - '0' as u32) as nat
    } else {
        0
    }
}

/// The number that the decimal digits `s` write.
pub open spec fn digits_value(s: Seq<char>) -> nat
    decreases s.len(),
{
    if s.len() == 0 {
        0
    } else {
        digits_value(s.drop_last()) * 10 + digit_of(s.last())
    }
}

/// The digits of an unsigned decimal number: `s` without one leading plus sign.
pub open spec fn unsigned_digits(s: Seq<char>) -> Seq<char> {
    if s.len() > 0 && s[0] == '+' {
        s.drop_first()
    } else {
        s
    }
}

/// The value of `s` read as an unsigned decimal number of 64 bits: an optional plus
/// sign, then one or more digits that write a number of at most 64 bits.
pub open spec fn parse_u64(s: Seq<char>) -> Option<u64> {
    let body = unsigned_digits(s);
    if body.len() > 0 && all_digits(body) && digits_value(body) <= u64::MAX {
        Some(digits_value(body) as u64)
    } else {
        None
    }
}

/// The words of `s`: its maximal runs of characters that are not white space, in order.
pub open spec fn words(s: Seq<char>) -> Seq<Seq<char>>
    decreases s.len(),
{
    if s.len() == 0 {
        Seq::empty()
    } else if is_space(s[0]) {
        words(s.drop_first())
    } else {
        let n = word_len(s);
        if 0 < n <= s.len() {
            seq![s.subrange(0, n as int)] + words(s.subrange(n as int, s.len() as int))
        } else {
            Seq::empty()
        }
    }
}

/// The number of leading characters of `s` that are not white space.
pub open spec fn word_len(s: Seq<char>) -> nat
    decreases s.len(),
{
    if s.len() > 0 && !is_space(s[0]) {
        1 + word_len(s.drop_first())
    } else {
        0
    }
}

/// Why a text is refused.
#[derive(Clone, Copy, Debug, PartialEq, Eq, Structural)]
pub enum TextError {
    /// Nothing is left after trimming.
    Empty,
    /// More characters are left after trimming than the type allows.
    TooLong,
}

/// Why a number is refused.
#[derive(Clone, Copy, Debug, PartialEq, Eq, Structural)]
pub enum NumberError {
    /// The number is zero.
    NotPositive,
}

/// Why `raw` is refused as a text of 1 to `max` characters after trimming, if it is.
pub open spec fn bounded_text_error(raw: Seq<char>, max: nat) -> Option<TextError> {
    if trim(raw).len() == 0 {
        Some(TextError::Empty)
    } else if trim(raw).len() > max {
        Some(TextError::TooLong)
    } else {
        None
    }
}

/// Why `raw` is refused as a text of at least one character after trimming, if it is.
pub open spec fn blank_text_error(raw: Seq<char>) -> Option<TextError> {
    if trim(raw).len() == 0 {
        Some(TextError::Empty)
    } else {
        None
    }
}

/// Where the first `i` characters of `s` are white space and the next is not,
/// `s` without its leading white space is `s` from `i` on.
pub proof fn lemma_trim_start(s: Seq<char>, i: int)
    requires
        0 <= i <= s.len(),
        forall|k: int| 0 <= k < i ==> is_space(#[trigger] s[k]),
        i == s.len() || !is_space(s[i]),
    ensures
        trim_start(s) == s.subrange(i, s.len() as int),
    decreases i,
{
    if i == 0 {
        assert(s.subrange(0, s.len() as int) =~= s);
    } else {
        let t = s.drop_first();
        assert forall|k: int| 0 <= k < i - 1 implies is_space(#[trigger] t[k]) by {
            assert(t[k] == s[k + 1]);
        }
        lemma_trim_start(t, i - 1);
        assert(t.subrange(i - 1, t.len() as int) =~= s.subrange(i, s.len() as int));
    }
}

/// Where the characters of `s` from `j` on are white space and the one before is
/// not, `s` without its trailing white space is `s` up to `j`.
pub proof fn lemma_trim_end(s: Seq<char>, j: int)
    requires
        0 <= j <= s.len(),
        forall|k: int| j <= k < s.len() ==> is_space(#[trigger] s[k]),
        j == 0 || !is_space(s[j - 1]),
    ensures
        trim_end(s) == s.subrange(0, j),
    decreases s.len() - j,
{
    if j == s.len() {
        assert(s.subrange(0, j) =~= s);
    } else {
        let t = s.drop_last();
        lemma_trim_end(t, j);
        assert(t.subrange(0, j) =~= s.subrange(0, j));
    }
}

/// Where the first `n` characters of `s` are no white space and the next is, the
/// first word of `s` has `n` characters.
pub proof fn lemma_word_len(s: Seq<char>, n: int)
    requires
        0 <= n <= s.len(),
        forall|k: int| 0 <= k < n ==> !is_space(#[trigger] s[k]),
        n == s.len() || is_space(s[n]),
    ensures
        word_len(s) == n,
    decreases n,
{
    if n > 0 {
        let t = s.drop_first();
        assert forall|k: int| 0 <= k < n - 1 implies !is_space(#[trigger] t[k]) by {
            assert(t[k] == s[k + 1]);
        }
        lemma_word_len(t, n - 1);
    }
}

/// What is left without leading white space is empty or begins with a character
/// that is no white space.
pub proof fn lemma_trim_start_shape(s: Seq<char>)
    ensures
        trim_start(s).len() == 0 || !is_space(trim_start(s)[0]),
    decreases s.len(),
{
    if s.len() > 0 && is_space(s[0]) {
        lemma_trim_start_shape(s.drop_first());
    }
}

/// What is left without trailing white space is empty or ends with a character
/// that is no white space, and begins as the text began.
pub proof fn lemma_trim_end_shape(s: Seq<char>)
    ensures
        trim_end(s).len() == 0 || !is_space(trim_end(s).last()),
        trim_end(s).len() > 0 ==> s.len() > 0 && trim_end(s)[0] == s[0],
    decreases s.len(),
{
    if s.len() > 0 && is_space(s.last()) {
        lemma_trim_end_shape(s.drop_last());
    }
}

/// Taking leading white space off makes a text no longer, and shorter where it
/// begins with white space.
pub proof fn lemma_trim_start_len(s: Seq<char>)
    ensures
        trim_start(s).len() <= s.len(),
        s.len() > 0 && is_space(s[0]) ==> trim_start(s).len() < s.len(),
    decreases s.len(),
{
    if s.len() > 0 && is_space(s[0]) {
        lemma_trim_start_len(s.drop_first());
    }
}

/// Taking trailing white space off makes a text no longer.
pub proof fn lemma_trim_end_len(s: Seq<char>)
    ensures
        trim_end(s).len() <= s.len(),
    decreases s.len(),
{
    if s.len() > 0 && is_space(s.last()) {
        lemma_trim_end_len(s.drop_last());
    }
}

/// The first word of a text is no longer than the text.
pub proof fn lemma_word_len_bound(s: Seq<char>)
    ensures
        word_len(s) <= s.len(),
    decreases s.len(),
{
    if s.len() > 0 && !is_space(s[0]) {
        lemma_word_len_bound(s.drop_first());
    }
}

/// A text that is trimmed and not empty holds a word.
pub proof fn lemma_trimmed_has_word(s: Seq<char>)
    requires
        trim(s) == s,
        s.len() > 0,
    ensures
        words(s).len() > 0,
{
    lemma_trim_start_len(s);
    lemma_trim_end_len(trim_start(s));
    lemma_word_len_bound(s);
}

/// Trimming what is trimmed changes nothing.
pub proof fn lemma_trim_trimmed(s: Seq<char>)
    ensures
        trim(trim(s)) == trim(s),
{
    lemma_trim_start_shape(s);
    lemma_trim_end_shape(trim_start(s));
}

/// One more digit at the end makes ten times the number, and the digit.
pub proof fn lemma_digits_value_push(s: Seq<char>, c: char)
    ensures
        digits_value(s.push(c)) == digits_value(s) * 10 + digit_of(c),
{
    assert(s.push(c).drop_last() =~= s);
}

/// A prefix of a run of digits writes a number that is no larger than the whole run's.
pub proof fn lemma_digits_value_prefix(s: Seq<char>, n: int)
    requires
        0 <= n <= s.len(),
        all_digits(s),
    ensures
        digits_value(s.subrange(0, n)) <= digits_value(s),
    decreases s.len() - n,
{
    if n == s.len() {
        assert(s.subrange(0, n) =~= s);
    } else {
        let t = s.drop_last();
        assert(all_digits(t));
        lemma_digits_value_prefix(t, n);
        assert(t.subrange(0, n) =~= s.subrange(0, n));
        assert(is_digit(s.last()));
    }
}

/// Whether `c` has the Unicode property White_Space.
pub fn char_is_space(c: char) -> (r: bool)
    ensures
        r == is_space(c),
{
    let n: u32 = c as u32;
    (0x09 <= n && n <= 0x0D) || n == 0x20 || n == 0x85 || n == 0xA0 || n == 0x1680 || (0x2000 <= n
        && n <= 0x200A) || n == 0x2028 || n == 0x2029 || n == 0x202F || n == 0x205F || n == 0x3000
}

/// The characters of `s`, in order.
pub fn to_chars(s: &str) -> (r: Vec<char>)
    ensures
        r@ == s@,
{
    let mut out: Vec<char> = Vec::new();
    let chars = s.chars();
    for c in it: chars
        invariant
            out@ == it.seq().take(it.index() as int),
            it.seq() == s@,
    {
        out.push(c);
    }
    out
}

/// Whether two texts hold the same characters.
pub fn str_equal(a: &str, b: &str) -> (r: bool)
    ensures
        r == (a@ == b@),
{
    let x = a.to_owned();
    let y = b.to_owned();
    x == y
}

/// The bounds of `trim` in `chars`: the trimmed text is `chars[r.0..r.1]`.
pub fn trim_bounds(chars: &Vec<char>) -> (r: (usize, usize))
    ensures
        r.0 <= r.1 <= chars@.len(),
        trim(chars@) == chars@.subrange(r.0 as int, r.1 as int),
{
    let n: usize = chars.len();
    let mut start: usize = 0;
    while start < n && char_is_space(chars[start])
        invariant
            start <= n,
            n == chars@.len(),
            forall|k: int| 0 <= k < start ==> is_space(#[trigger] chars@[k]),
        decreases n - start,
    {
        start += 1;
    }
    let mut end: usize = n;
    while end > start && char_is_space(chars[end - 1])
        invariant
            start <= end <= n,
            n == chars@.len(),
            forall|k: int| end <= k < n ==> is_space(#[trigger] chars@[k]),
        decreases end,
    {
        end -= 1;
    }
    proof {
        lemma_trim_start(chars@, start as int);
        let rest = chars@.subrange(start as int, n as int);
        assert forall|k: int| end - start <= k < rest.len() implies is_space(#[trigger] rest[k]) by {
            assert(rest[k] == chars@[k + start]);
        }
        if end > start {
            assert(rest[end - start - 1] == chars@[end - 1]);
        }
        lemma_trim_end(rest, end - start);
        assert(rest.subrange(0, end - start) =~= chars@.subrange(start as int, end as int));
    }
    (start, end)
}

/// `s` without its leading and trailing white space.
pub fn trimmed(s: &str) -> (r: String)
    ensures
        r@ == trim(s@),
        trim(r@) == r@,
{
    proof {
        lemma_trim_trimmed(s@);
    }
    let chars = to_chars(s);
    let (start, end) = trim_bounds(&chars);
    s.substring_char(start, end).to_owned()
}

/// Whether `s` holds nothing but white space.
pub fn blank(s: &str) -> (r: bool)
    ensures
        r == is_blank(s@),
{
    let chars = to_chars(s);
    let (start, end) = trim_bounds(&chars);
    start == end
}

/// Whether `chars` holds `needle` at position `at`.
pub fn holds_at(chars: &Vec<char>, needle: &Vec<char>, at: usize) -> (r: bool)
    ensures
        r == occurs_at(chars@, needle@, at as int),
{
    let n: usize = chars.len();
    let m: usize = needle.len();
    if at > n || m > n - at {
        return false;
    }
    let mut i: usize = 0;
    while i < m
        invariant
            i <= m,
            m == needle@.len(),
            n == chars@.len(),
            at + m <= n,
            forall|k: int| 0 <= k < i ==> chars@[at + k] == needle@[k],
        decreases m - i,
    {
        if chars[at + i] != needle[i] {
            proof {
                assert(chars@.subrange(at as int, at + m)[i as int] == chars@[at + i]);
            }
            return false;
        }
        i += 1;
    }
    proof {
        assert(chars@.subrange(at as int, at + m) =~= needle@);
    }
    true
}

/// Whether `s` begins with `prefix`.
pub fn has_prefix(s: &str, prefix: &str) -> (r: bool)
    ensures
        r == starts_with(s@, prefix@),
{
    let chars = to_chars(s);
    let needle = to_chars(prefix);
    holds_at(&chars, &needle, 0)
}

/// Whether `needle` occurs somewhere in `s`.
pub fn has_infix(s: &str, needle: &str) -> (r: bool)
    ensures
        r == contains(s@, needle@),
{
    let chars = to_chars(s);
    let pattern = to_chars(needle);
    let n: usize = chars.len();
    let m: usize = pattern.len();
    if m > n {
        proof {
            assert forall|at: int| !occurs_at(chars@, pattern@, at) by {}
        }
        return false;
    }
    let last: usize = n - m;
    let mut at: usize = 0;
    while at < last
        invariant
            chars@ == s@,
            pattern@ == needle@,
            n == chars@.len(),
            m == pattern@.len(),
            last == n - m,
            at <= last,
            forall|k: int| 0 <= k < at ==> !occurs_at(chars@, pattern@, k),
        decreases last - at,
    {
        if holds_at(&chars, &pattern, at) {
            return true;
        }
        at += 1;
    }
    let found = holds_at(&chars, &pattern, last);
    proof {
        if !found {
            assert forall|k: int| !occurs_at(chars@, pattern@, k) by {}
        }
    }
    found
}

/// Reads `s` as an unsigned decimal number of 64 bits.
pub fn parse_decimal_u64(s: &str) -> (r: Option<u64>)
    ensures
        r == parse_u64(s@),
{
    let chars = to_chars(s);
    let n: usize = chars.len();
    let first: usize = if n > 0 && chars[0] == '+' { 1 } else { 0 };
    let ghost body = unsigned_digits(s@);
    proof {
        assert(body =~= chars@.subrange(first as int, n as int));
    }
    if first == n {
        return None;
    }
    let mut acc: u64 = 0;
    let mut i: usize = first;
    while i < n
        invariant
            first <= i <= n,
            n == chars@.len(),
            body == unsigned_digits(s@),
            body == chars@.subrange(first as int, n as int),
            all_digits(body.subrange(0, i - first)),
            acc == digits_value(body.subrange(0, i - first)),
        decreases n - i,
    {
        let c: char = chars[i];
        if c < '0' || c > '9' {
            proof {
                assert(body[i - first] == c);
            }
            return None;
        }
        let d: u64 = (c as u32 - '0' as u32) as u64;
        proof {
            let before = body.subrange(0, i - first);
            let after = body.subrange(0, i + 1 - first);
            assert(after =~= before.push(c));
            lemma_digits_value_push(before, c);
            assert forall|k: int| 0 <= k < after.len() implies is_digit(#[trigger] after[k]) by {
                if k < before.len() {
                    assert(after[k] == before[k]);
                }
            }
        }
        if acc > (u64::MAX - d) / 10 {
            proof {
                let after = body.subrange(0, i + 1 - first);
                assert(digits_value(after) > u64::MAX);
                if all_digits(body) {
                    lemma_digits_value_prefix(body, i + 1 - first);
                }
            }
            return None;
        }
        acc = acc * 10 + d;
        i += 1;
    }
    proof {
        assert(body.subrange(0, n - first) =~= body);
    }
    Some(acc)
}

/// The words of `s`, in order.
pub fn split_words(s: &str) -> (r: Vec<String>)
    ensures
        r@.len() == words(s@).len(),
        forall|k: int| 0 <= k < r@.len() ==> (#[trigger] r@[k])@ == words(s@)[k],
{
    let chars = to_chars(s);
    let n: usize = chars.len();
    let mut out: Vec<String> = Vec::new();
    let mut i: usize = 0;
    let ghost mut done: Seq<Seq<char>> = Seq::empty();
    proof {
        assert(s@.subrange(0, n as int) =~= s@);
        assert(done + words(s@) =~= words(s@));
    }
    while i < n
        invariant
            i <= n,
            n == chars@.len(),
            chars@ == s@,
            out@.len() == done.len(),
            forall|k: int| 0 <= k < out@.len() ==> (#[trigger] out@[k])@ == done[k],
            words(s@) == done + words(s@.subrange(i as int, n as int)),
        decreases n - i,
    {
        let ghost rest = s@.subrange(i as int, n as int);
        if char_is_space(chars[i]) {
            proof {
                assert(rest[0] == chars@[i as int]);
                assert(rest.drop_first() =~= s@.subrange(i + 1, n as int));
            }
            i += 1;
        } else {
            let start: usize = i;
            while i < n && !char_is_space(chars[i])
                invariant
                    start <= i <= n,
                    start < n,
                    n == chars@.len(),
                    chars@ == s@,
                    forall|k: int| start <= k < i ==> !is_space(#[trigger] chars@[k]),
                decreases n - i,
            {
                i += 1;
            }
            let word = s.substring_char(start, i).to_owned();
            proof {
                assert(rest[0] == chars@[start as int]);
                assert forall|k: int| 0 <= k < i - start implies !is_space(#[trigger] rest[k]) by {
                    assert(rest[k] == chars@[start + k]);
                }
                if i < n {
                    assert(rest[i - start] == chars@[i as int]);
                }
                lemma_word_len(rest, i - start);
                assert(rest.subrange(0, i - start) =~= s@.subrange(start as int, i as int));
                assert(rest.subrange(i - start, rest.len() as int) =~= s@.subrange(
                    i as int,
                    n as int,
                ));
                assert(done + (seq![word@] + words(s@.subrange(i as int, n as int))) =~= done.push(
                    word@,
                ) + words(s@.subrange(i as int, n as int)));
                done = done.push(word@);
            }
            out.push(word);
        }
    }
    proof {
        assert(s@.subrange(n as int, n as int) =~= Seq::<char>::empty());
        assert(done + Seq::<Seq<char>>::empty() =~= done);
    }
    out
}

/// Trims `raw` and accepts what is left if it has 1 to `max` characters.
pub fn bounded_text(raw: &str, max: usize) -> (r: Result<String, TextError>)
    ensures
        match r {
            Ok(t) => bounded_text_error(raw@, max as nat) is None && t@ == trim(raw@) && trim(t@)
                == t@,
            Err(e) => bounded_text_error(raw@, max as nat) == Some(e),
        },
{
    proof {
        lemma_trim_trimmed(raw@);
    }
    let chars = to_chars(raw);
    let (start, end) = trim_bounds(&chars);
    if start == end {
        Err(TextError::Empty)
    } else if end - start > max {
        Err(TextError::TooLong)
    } else {
        Ok(raw.substring_char(start, end).to_owned())
    }
}

/// Trims `raw` and accepts what is left if it has at least one character.
pub fn non_blank_text(raw: &str) -> (r: Result<String, TextError>)
    ensures
        match r {
            Ok(t) => blank_text_error(raw@) is None && t@ == trim(raw@) && trim(t@) == t@,
            Err(e) => blank_text_error(raw@) == Some(e),
        },
{
    proof {
        lemma_trim_trimmed(raw@);
    }
    let chars = to_chars(raw);
    let (start, end) = trim_bounds(&chars);
    if start == end {
        Err(TextError::Empty)
    } else {
        Ok(raw.substring_char(start, end).to_owned())
    }
}

impl TextError {
    /// The error in words.
    pub open spec fn text(self) -> Seq<char> {
        match self {
            TextError::Empty => "value is empty"@,
            TextError::TooLong => "value is too long"@,
        }
    }

    /// The error in words.
    pub fn message(&self) -> (r: String)
        ensures
            r@ == self.text(),
    {
        match self {
            TextError::Empty => "value is empty".to_owned(),
            TextError::TooLong => "value is too long".to_owned(),
        }
    }
}

impl NumberError {
    /// The error in words.
    pub open spec fn text(self) -> Seq<char> {
        "value must be greater than 0"@
    }

    /// The error in words.
    pub fn message(&self) -> (r: String)
        ensures
            r@ == self.text(),
    {
        "value must be greater than 0".to_owned()
    }
}

/// The decimal digit of a number below ten.
pub open spec fn digit_char(d: nat) -> char {
    if d == 0 {
        '0'
    } else if d == 1 {
        '1'
    } else if d == 2 {
        '2'
    } else if d == 3 {
        '3'
    } else if d == 4 {
        '4'
    } else if d == 5 {
        '5'
    } else if d == 6 {
        '6'
    } else if d == 7 {
        '7'
    } else if d == 8 {
        '8'
    } else {
        '9'
    }
}

/// `n` written in decimal, without leading zeros.
pub open spec fn decimal_text(n: nat) -> Seq<char>
    decreases n,
{
    if n < 10 {
        seq![digit_char(n)]
    } else {
        decimal_text(n / 10).push(digit_char(n % 10))
    }
}

/// `n` written in decimal, with a minus sign where it is below zero.
pub open spec fn signed_decimal_text(n: int) -> Seq<char> {
    if n < 0 {
        seq!['-'] + decimal_text((-n) as nat)
    } else {
        decimal_text(n as nat)
    }
}

/// The decimal digit of a number below ten, as a text.
pub fn digit_text(d: u64) -> (r: &'static str)
    requires
        d < 10,
    ensures
        r@ == seq![digit_char(d as nat)],
{
    proof {
        reveal_strlit("0");
        reveal_strlit("1");
        reveal_strlit("2");
        reveal_strlit("3");
        reveal_strlit("4");
        reveal_strlit("5");
        reveal_strlit("6");
        reveal_strlit("7");
        reveal_strlit("8");
        reveal_strlit("9");
    }
    let r = if d == 0 {
        "0"
    } else if d == 1 {
        "1"
    } else if d == 2 {
        "2"
    } else if d == 3 {
        "3"
    } else if d == 4 {
        "4"
    } else if d == 5 {
        "5"
    } else if d == 6 {
        "6"
    } else if d == 7 {
        "7"
    } else if d == 8 {
        "8"
    } else {
        "9"
    };
    assert(r@ =~= seq![digit_char(d as nat)]);
    r
}

/// Writes `n` in decimal.
pub fn render_u64(n: u64) -> (r: String)
    ensures
        r@ == decimal_text(n as nat),
    decreases n,
{
    if n < 10 {
        String::from_str(digit_text(n))
    } else {
        let head = render_u64(n / 10);
        let r = head.concat(digit_text(n % 10));
        assert(r@ =~= decimal_text(n as nat));
        r
    }
}

/// Writes `n` in decimal, with a minus sign where it is below zero.
pub fn render_i32(n: i32) -> (r: String)
    ensures
        r@ == signed_decimal_text(n as int),
{
    if n < 0 {
        let magnitude: u64 = (-(n as i64)) as u64;
        proof {
            reveal_strlit("-");
        }
        let r = String::from_str("-").concat(render_u64(magnitude).as_str());
        assert(r@ =~= signed_decimal_text(n as int));
        r
    } else {
        render_u64(n as u64)
    }
}

} // verus!
