//! Plain text: lines, words, trimming and decimal numbers, over sequences of characters.
use vstd::prelude::*;
use vstd::slice::slice_subrange;

verus! {

/// The characters with the Unicode `White_Space` property.
pub open spec fn is_white(c: char) -> bool {
    ||| '\u{9}' <= c <= '\u{d}'
    ||| c == ' '
    ||| c == '\u{85}'
    ||| c == '\u{a0}'
    ||| c == '\u{1680}'
    ||| '\u{2000}' <= c <= '\u{200a}'
    ||| c == '\u{2028}'
    ||| c == '\u{2029}'
    ||| c == '\u{202f}'
    ||| c == '\u{205f}'
    ||| c == '\u{3000}'
}

/// Where `c` first stands in `s`, or the length of `s` where it does not occur.
pub open spec fn find_char(s: Seq<char>, c: char) -> int
    decreases s.len(),
{
    if s.len() == 0 || s[0] == c {
        0
    } else {
        1 + find_char(s.drop_first(), c)
    }
}

/// `s` without its leading white space.
pub open spec fn trim_start(s: Seq<char>) -> Seq<char>
    decreases s.len(),
{
    if s.len() > 0 && is_white(s[0]) {
        trim_start(s.drop_first())
    } else {
        s
    }
}

/// `s` without its trailing white space.
pub open spec fn trim_end(s: Seq<char>) -> Seq<char>
    decreases s.len(),
{
    if s.len() > 0 && is_white(s.last()) {
        trim_end(s.drop_last())
    } else {
        s
    }
}

/// `s` without the white space at either end.
pub open spec fn trim(s: Seq<char>) -> Seq<char> {
    trim_end(trim_start(s))
}

/// A line as it stands before its line feed: a carriage return directly before the line feed
/// belongs to the line ending.
pub open spec fn strip_return(line: Seq<char>) -> Seq<char> {
    if line.len() > 0 && line.last() == '\r' {
        line.drop_last()
    } else {
        line
    }
}

/// The lines of `s`. Each ends with a line feed, with or without a carriage return before it; the
/// last one may lack its line feed, and then keeps a carriage return.
pub open spec fn lines(s: Seq<char>) -> Seq<Seq<char>>
    decreases s.len(),
    via lines_decreases
{
    let n = find_char(s, '\n');
    if s.len() == 0 {
        Seq::empty()
    } else if n == s.len() {
        seq![s]
    } else {
        seq![strip_return(s.take(n))] + lines(s.skip(n + 1))
    }
}

#[via_fn]
proof fn lines_decreases(s: Seq<char>) {
    lemma_find_char(s, '\n');
}

/// The text before and after the first `c` in `s`, where there is one.
pub open spec fn split_once(s: Seq<char>, c: char) -> Option<(Seq<char>, Seq<char>)> {
    let n = find_char(s, c);
    if n < s.len() {
        Some((s.take(n), s.skip(n + 1)))
    } else {
        None
    }
}

/// How many characters `s` has before its first white space.
pub open spec fn word_len(s: Seq<char>) -> int
    decreases s.len(),
{
    if s.len() == 0 || is_white(s[0]) {
        0
    } else {
        1 + word_len(s.drop_first())
    }
}

/// The words of `s`: what stands between stretches of white space.
pub open spec fn words(s: Seq<char>) -> Seq<Seq<char>>
    decreases s.len(),
    via words_decreases
{
    let t = trim_start(s);
    if t.len() == 0 {
        Seq::empty()
    } else {
        seq![t.take(word_len(t))] + words(t.skip(word_len(t)))
    }
}

#[via_fn]
proof fn words_decreases(s: Seq<char>) {
    lemma_trim_start(s);
    lemma_word_len(trim_start(s));
}

/// What `find_char` gives is the first index of `c`, or the end.
pub(crate) proof fn lemma_find_char(s: Seq<char>, c: char)
    ensures
        0 <= find_char(s, c) <= s.len(),
        find_char(s, c) < s.len() ==> s[find_char(s, c)] == c,
        forall|i: int| 0 <= i < find_char(s, c) ==> s[i] != c,
    decreases s.len(),
{
    if s.len() > 0 && s[0] != c {
        lemma_find_char(s.drop_first(), c);
        assert forall|i: int| 0 <= i < find_char(s, c) implies s[i] != c by {
            if i > 0 {
                assert(s.drop_first()[i - 1] == s[i]);
            }
        }
    }
}

/// An index with no `c` before it, at which `c` stands or `s` ends, is the one that `find_char`
/// gives.
pub(crate) proof fn lemma_find_char_unique(s: Seq<char>, c: char, n: int)
    requires
        0 <= n <= s.len(),
        n < s.len() ==> s[n] == c,
        forall|i: int| 0 <= i < n ==> s[i] != c,
    ensures
        find_char(s, c) == n,
{
    lemma_find_char(s, c);
}

/// `trim_start` drops white space only, and all of it.
proof fn lemma_trim_start(s: Seq<char>)
    ensures
        trim_start(s).len() <= s.len(),
        trim_start(s) == s.skip(s.len() - trim_start(s).len()),
        trim_start(s).len() > 0 ==> !is_white(trim_start(s)[0]),
        forall|i: int| 0 <= i < s.len() - trim_start(s).len() ==> is_white(s[i]),
    decreases s.len(),
{
    if s.len() > 0 && is_white(s[0]) {
        let t = s.drop_first();
        lemma_trim_start(t);
        assert forall|i: int| 0 <= i < s.len() - trim_start(s).len() implies is_white(s[i]) by {
            if i > 0 {
                assert(t[i - 1] == s[i]);
            }
        }
    }
}

/// Where nothing but white space stands before an index, and none at it, `trim_start` cuts there.
pub(crate) proof fn lemma_trim_start_is(s: Seq<char>, n: int)
    requires
        0 <= n <= s.len(),
        n < s.len() ==> !is_white(s[n]),
        forall|i: int| 0 <= i < n ==> is_white(s[i]),
    ensures
        trim_start(s) == s.skip(n),
{
    lemma_trim_start(s);
}

/// `trim_end` drops white space only, and all of it.
proof fn lemma_trim_end(s: Seq<char>)
    ensures
        trim_end(s).len() <= s.len(),
        trim_end(s) == s.take(trim_end(s).len() as int),
        trim_end(s).len() > 0 ==> !is_white(trim_end(s).last()),
        forall|i: int| trim_end(s).len() <= i < s.len() ==> is_white(s[i]),
    decreases s.len(),
{
    if s.len() > 0 && is_white(s.last()) {
        let t = s.drop_last();
        lemma_trim_end(t);
        assert forall|i: int| trim_end(s).len() <= i < s.len() implies is_white(s[i]) by {
            if i < s.len() - 1 {
                assert(t[i] == s[i]);
            }
        }
    }
}

/// Where nothing but white space stands from an index on, and none before it, `trim_end` cuts there.
pub(crate) proof fn lemma_trim_end_is(s: Seq<char>, n: int)
    requires
        0 <= n <= s.len(),
        n > 0 ==> !is_white(s[n - 1]),
        forall|i: int| n <= i < s.len() ==> is_white(s[i]),
    ensures
        trim_end(s) == s.take(n),
{
    lemma_trim_end(s);
}

/// `word_len` counts the characters before the first white space.
proof fn lemma_word_len(s: Seq<char>)
    ensures
        0 <= word_len(s) <= s.len(),
        s.len() > 0 && !is_white(s[0]) ==> word_len(s) > 0,
        word_len(s) < s.len() ==> is_white(s[word_len(s)]),
        forall|i: int| 0 <= i < word_len(s) ==> !is_white(s[i]),
    decreases s.len(),
{
    if s.len() > 0 && !is_white(s[0]) {
        let t = s.drop_first();
        lemma_word_len(t);
        assert forall|i: int| 0 <= i < word_len(s) implies !is_white(s[i]) by {
            if i > 0 {
                assert(t[i - 1] == s[i]);
            }
        }
    }
}

/// An index with no white space before it, at which white space stands or `s` ends, is what
/// `word_len` gives.
pub(crate) proof fn lemma_word_len_is(s: Seq<char>, n: int)
    requires
        0 <= n <= s.len(),
        n < s.len() ==> is_white(s[n]),
        forall|i: int| 0 <= i < n ==> !is_white(s[i]),
    ensures
        word_len(s) == n,
{
    lemma_word_len(s);
}

/// Lines written one after the other, each with its line feed.
pub open spec fn unlines(list: Seq<Seq<char>>) -> Seq<char>
    decreases list.len(),
{
    if list.len() == 0 {
        Seq::empty()
    } else {
        list[0].push('\n') + unlines(list.drop_first())
    }
}

/// Whether `line` can stand as a line of its own: it holds no line feed and does not end with a
/// carriage return.
pub open spec fn is_line(line: Seq<char>) -> bool {
    &&& forall|i: int| 0 <= i < line.len() ==> #[trigger] line[i] != '\n'
    &&& line.len() > 0 ==> line.last() != '\r'
}

/// Reading back lines that were written gives those lines.
pub proof fn lemma_lines_of_unlines(list: Seq<Seq<char>>)
    requires
        forall|i: int| 0 <= i < list.len() ==> is_line(#[trigger] list[i]),
    ensures
        lines(unlines(list)) == list,
    decreases list.len(),
{
    if list.len() > 0 {
        let line = list[0];
        let rest = list.drop_first();
        let whole = unlines(list);
        lemma_lines_of_unlines(rest);
        lemma_find_char_unique(whole, '\n', line.len() as int);
        assert(whole.take(line.len() as int) =~= line);
        assert(whole.skip(line.len() as int + 1) =~= unlines(rest));
    }
}

/// A text that neither begins nor ends with white space is its own trimmed form.
pub(crate) proof fn lemma_trim_keeps(s: Seq<char>)
    requires
        s.len() > 0,
        !is_white(s[0]),
        !is_white(s.last()),
    ensures
        trim(s) == s,
{
    lemma_trim_start_is(s, 0);
}

/// A trimmed text neither begins nor ends with white space.
pub(crate) proof fn lemma_trimmed_ends(s: Seq<char>)
    requires
        trim(s) == s,
        s.len() > 0,
    ensures
        !is_white(s[0]),
        !is_white(s.last()),
{
    lemma_trim_start(s);
    lemma_trim_end(trim_start(s));
}

/// The characters of `s`.
pub fn chars_of(s: &str) -> (chars: Vec<char>)
    ensures
        chars@ == s@,
{
    let mut chars: Vec<char> = Vec::new();
    for c in iter: s.chars()
        invariant
            iter.seq() == s@,
            chars@ == s@.take(iter.index()),
    {
        chars.push(c);
    }
    chars
}

/// `String::push` puts one character at the end of a string and leaves the rest as it is.
pub assume_specification[ String::push ](s: &mut String, c: char)
    ensures
        final(s)@ == old(s)@.push(c),
;

/// The string that `chars` spells.
pub fn string_of(chars: &[char]) -> (s: String)
    ensures
        s@ == chars@,
{
    let mut s = String::new();
    let mut i: usize = 0;
    while i < chars.len()
        invariant
            i <= chars@.len(),
            s@ == chars@.take(i as int),
        decreases chars@.len() - i,
    {
        s.push(chars[i]);
        i += 1;
    }
    s
}

/// Whether two stretches of characters are the same.
pub fn same_chars(a: &[char], b: &[char]) -> (same: bool)
    ensures
        same == (a@ == b@),
{
    if a.len() != b.len() {
        return false;
    }
    let mut i: usize = 0;
    while i < a.len()
        invariant
            i <= a@.len(),
            a@.len() == b@.len(),
            forall|j: int| 0 <= j < i ==> a@[j] == b@[j],
        decreases a@.len() - i,
    {
        if a[i] != b[i] {
            return false;
        }
        i += 1;
    }
    assert(a@ =~= b@);
    true
}

/// Whether `chars` spell `s`.
pub fn spells(chars: &[char], s: &str) -> (same: bool)
    ensures
        same == (chars@ == s@),
{
    same_chars(chars, chars_of(s).as_slice())
}

/// Whether two strings are the same.
pub fn same_str(a: &str, b: &str) -> (same: bool)
    ensures
        same == (a@ == b@),
{
    spells(chars_of(a).as_slice(), b)
}

/// Whether `c` has the Unicode `White_Space` property.
pub fn is_white_space(c: char) -> (white: bool)
    ensures
        white == is_white(c),
{
    ('\u{9}' <= c && c <= '\u{d}') || c == ' ' || c == '\u{85}' || c == '\u{a0}' || c == '\u{1680}'
        || ('\u{2000}' <= c && c <= '\u{200a}') || c == '\u{2028}' || c == '\u{2029}' || c
        == '\u{202f}' || c == '\u{205f}' || c == '\u{3000}'
}

/// Where `c` first stands in `s`, or the length of `s` where it does not occur.
pub fn position_of(s: &[char], c: char) -> (n: usize)
    ensures
        n == find_char(s@, c),
{
    let mut n: usize = 0;
    while n < s.len() && s[n] != c
        invariant
            n <= s@.len(),
            forall|i: int| 0 <= i < n ==> s@[i] != c,
        decreases s@.len() - n,
    {
        n += 1;
    }
    proof {
        lemma_find_char_unique(s@, c, n as int);
    }
    n
}

/// `s` without its leading white space.
pub fn trimmed_start(s: &[char]) -> (t: &[char])
    ensures
        t@ == trim_start(s@),
{
    let mut n: usize = 0;
    while n < s.len() && is_white_space(s[n])
        invariant
            n <= s@.len(),
            forall|i: int| 0 <= i < n ==> is_white(s@[i]),
        decreases s@.len() - n,
    {
        n += 1;
    }
    proof {
        lemma_trim_start_is(s@, n as int);
    }
    slice_subrange(s, n, s.len())
}

/// `s` without the white space at either end.
pub fn trimmed(s: &[char]) -> (t: &[char])
    ensures
        t@ == trim(s@),
{
    let t = trimmed_start(s);
    let mut n: usize = t.len();
    while n > 0 && is_white_space(t[n - 1])
        invariant
            n <= t@.len(),
            forall|i: int| n <= i < t@.len() ==> is_white(t@[i]),
        decreases n,
    {
        n -= 1;
    }
    proof {
        lemma_trim_end_is(t@, n as int);
    }
    slice_subrange(t, 0, n)
}

/// The views of a list of stretches of characters.
pub open spec fn views(list: Seq<&[char]>) -> Seq<Seq<char>> {
    list.map_values(|s: &[char]| s@)
}

/// The lines of `s`.
pub fn split_lines(s: &[char]) -> (list: Vec<&[char]>)
    ensures
        views(list@) == lines(s@),
{
    let mut list: Vec<&[char]> = Vec::new();
    let mut rest: &[char] = s;
    while rest.len() > 0
        invariant
            views(list@) + lines(rest@) == lines(s@),
        decreases rest@.len(),
    {
        let n: usize = position_of(rest, '\n');
        proof {
            lemma_find_char(rest@, '\n');
        }
        if n == rest.len() {
            list.push(rest);
            rest = slice_subrange(rest, n, n);
        } else {
            let ended = if n > 0 && rest[n - 1] == '\r' {
                slice_subrange(rest, 0, n - 1)
            } else {
                slice_subrange(rest, 0, n)
            };
            assert(ended@ =~= strip_return(rest@.take(n as int)));
            list.push(ended);
            rest = slice_subrange(rest, n + 1, rest.len());
        }
    }
    list
}

/// The words of `s`.
pub fn split_words(s: &[char]) -> (list: Vec<&[char]>)
    ensures
        views(list@) == words(s@),
{
    let mut list: Vec<&[char]> = Vec::new();
    let mut rest: &[char] = trimmed_start(s);
    assert(trim_start(rest@) == rest@) by {
        lemma_trim_start(s@);
    }
    while rest.len() > 0
        invariant
            views(list@) + words(rest@) == words(s@),
            trim_start(rest@) == rest@,
        decreases rest@.len(),
    {
        let mut n: usize = 0;
        while n < rest.len() && !is_white_space(rest[n])
            invariant
                n <= rest@.len(),
                forall|i: int| 0 <= i < n ==> !is_white(rest@[i]),
            decreases rest@.len() - n,
        {
            n += 1;
        }
        proof {
            lemma_word_len_is(rest@, n as int);
            lemma_trim_start(rest@);
        }
        let word = slice_subrange(rest, 0, n);
        list.push(word);
        let ghost after = rest@.skip(n as int);
        let behind = slice_subrange(rest, n, rest.len());
        proof {
            lemma_trim_start(after);
        }
        rest = trimmed_start(behind);
        assert(words(rest@) == words(after));
    }
    list
}

/// The digit that stands for `d`.
pub open spec fn digit_char(d: int) -> char {
    (48 + d) as char
}

/// Whether `c` is one of the ASCII digits.
pub open spec fn is_digit(c: char) -> bool {
    '0' <= c <= '9'
}

/// The decimal digits of `n`, without leading zeros.
pub open spec fn decimal(n: nat) -> Seq<char>
    decreases n,
{
    if n < 10 {
        seq![digit_char(n as int)]
    } else {
        decimal(n / 10).push(digit_char((n % 10) as int))
    }
}

/// The number that a row of decimal digits stands for.
pub open spec fn digits_value(digits: Seq<char>) -> int
    decreases digits.len(),
{
    if digits.len() == 0 {
        0
    } else {
        digits_value(digits.drop_last()) * 10 + (digits.last() as int - 48)
    }
}

/// The digits of a number that may carry a plus sign.
pub open spec fn unsigned_digits(s: Seq<char>) -> Seq<char> {
    if s.len() > 0 && s[0] == '+' {
        s.skip(1)
    } else {
        s
    }
}

/// The 16-bit number that `s` spells: an optional plus sign, then nothing but decimal digits, at
/// least one of them, for a value of at most 65535.
pub open spec fn parse_u16(s: Seq<char>) -> Option<u16> {
    let digits = unsigned_digits(s);
    if digits.len() > 0 && (forall|i: int| 0 <= i < digits.len() ==> is_digit(#[trigger] digits[i]))
        && digits_value(digits) <= u16::MAX {
        Some(digits_value(digits) as u16)
    } else {
        None
    }
}

/// More digits never make a smaller number.
proof fn lemma_digits_value_grows(digits: Seq<char>, n: int)
    requires
        0 <= n <= digits.len(),
        forall|i: int| 0 <= i < digits.len() ==> is_digit(#[trigger] digits[i]),
    ensures
        0 <= digits_value(digits.take(n)) <= digits_value(digits),
    decreases digits.len(),
{
    if digits.len() > 0 {
        let init = digits.drop_last();
        if n == digits.len() {
            assert(digits.take(n) =~= digits);
            lemma_digits_value_grows(init, 0);
        } else {
            lemma_digits_value_grows(init, n);
            assert(init.take(n) =~= digits.take(n));
        }
    }
}

/// Reading back a number that was written in decimal gives that number.
pub proof fn lemma_parse_decimal(n: nat)
    requires
        n <= u16::MAX,
    ensures
        parse_u16(decimal(n)) == Some(n as u16),
{
    lemma_decimal_digits(n);
}

/// A number in decimal is a row of digits that stands for that number.
proof fn lemma_decimal_digits(n: nat)
    ensures
        decimal(n).len() > 0,
        forall|i: int| 0 <= i < decimal(n).len() ==> is_digit(#[trigger] decimal(n)[i]),
        digits_value(decimal(n)) == n,
    decreases n,
{
    if n < 10 {
        assert(digits_value(decimal(n).drop_last()) == 0);
    } else {
        lemma_decimal_digits(n / 10);
        assert(decimal(n).drop_last() =~= decimal(n / 10));
    }
}

/// `n` in decimal.
pub fn decimal_string(n: u64) -> (s: String)
    ensures
        s@ == decimal(n as nat),
    decreases n,
{
    if n < 10 {
        let mut s = String::new();
        s.push((48 + n as u8) as char);
        s
    } else {
        let mut s = decimal_string(n / 10);
        s.push((48 + (n % 10) as u8) as char);
        s
    }
}

/// Reads a 16-bit number with an optional plus sign.
pub fn read_u16(s: &[char]) -> (n: Option<u16>)
    ensures
        n == parse_u16(s@),
{
    let digits = if s.len() > 0 && s[0] == '+' {
        slice_subrange(s, 1, s.len())
    } else {
        s
    };
    if digits.len() == 0 {
        return None;
    }
    let mut value: u32 = 0;
    let mut i: usize = 0;
    while i < digits.len()
        invariant
            i <= digits@.len(),
            digits@ == unsigned_digits(s@),
            value == digits_value(digits@.take(i as int)),
            value <= u16::MAX,
            forall|j: int| 0 <= j < i ==> is_digit(#[trigger] digits@[j]),
        decreases digits@.len() - i,
    {
        let c = digits[i];
        if c < '0' || '9' < c {
            return None;
        }
        let ghost longer = digits@.take(i + 1);
        assert(longer.drop_last() =~= digits@.take(i as int));
        value = value * 10 + (c as u32 - 48);
        i += 1;
        if value > 65535 {
            proof {
                if forall|j: int| 0 <= j < digits@.len() ==> is_digit(#[trigger] digits@[j]) {
                    lemma_digits_value_grows(digits@, i as int);
                }
            }
            return None;
        }
    }
    assert(digits@.take(i as int) =~= digits@);
    Some(value as u16)
}

/// The text that `String::from_utf8_lossy` gives for `bytes`.
pub uninterp spec fn utf8_lossy(bytes: Seq<u8>) -> Seq<char>;

/// Whether `bytes`, if they are valid UTF-8, are decoded as they stand.
pub open spec fn decodes_utf8(bytes: Seq<u8>) -> bool {
    vstd::utf8::valid_utf8(bytes) ==> utf8_lossy(bytes) == vstd::utf8::decode_utf8(bytes)
}

/// `String::from_utf8_lossy`: the text of `bytes` as a function of the bytes alone. Bytes that are
/// valid UTF-8 are decoded as they stand; what replaces the others is left to the named result.
#[verifier::external_body]
pub(crate) fn decode_lossy(bytes: &[u8]) -> (text: String)
    ensures
        text@ == utf8_lossy(bytes@),
        vstd::utf8::valid_utf8(bytes@) ==> text@ == vstd::utf8::decode_utf8(bytes@),
{
    String::from_utf8_lossy(bytes).into_owned()
}

// ---------------------------------------------------------------------------------------------
// What holds of lines, words and numbers
// ---------------------------------------------------------------------------------------------

/// Whether `s` holds nothing but white space.
pub open spec fn is_white_run(s: Seq<char>) -> bool {
    forall|i: int| 0 <= i < s.len() ==> is_white(#[trigger] s[i])
}

/// Whether `s` neither begins nor ends with white space.
pub open spec fn has_solid_ends(s: Seq<char>) -> bool {
    s.len() > 0 ==> !is_white(s[0]) && !is_white(s[s.len() - 1])
}

/// White space is what Unicode calls so, by the numbers of the characters.
pub proof fn lemma_white_space_by_number(c: char)
    ensures
        is_white(c) <==> {
            let n = c as int;
            ||| 9 <= n <= 13
            ||| n == 32
            ||| n == 0x85
            ||| n == 0xa0
            ||| n == 0x1680
            ||| 0x2000 <= n <= 0x200a
            ||| 0x2028 <= n <= 0x2029
            ||| n == 0x202f
            ||| n == 0x205f
            ||| n == 0x3000
        },
{
}

/// Trimming takes off the white space around a text, all of it, and nothing else.
pub proof fn lemma_trim_of_padded(before: Seq<char>, core: Seq<char>, after: Seq<char>)
    requires
        is_white_run(before),
        is_white_run(after),
        has_solid_ends(core),
    ensures
        trim(before + core + after) == core,
{
    let whole = before + core + after;
    if core.len() == 0 {
        lemma_trim_start_is(whole, whole.len() as int);
        assert(trim_start(whole) =~= core);
    } else {
        let n = before.len() as int;
        assert(whole[n] == core[0]);
        lemma_trim_start_is(whole, n);
        assert(whole.skip(n) =~= core + after);
        lemma_trim_end_is(core + after, core.len() as int);
        assert((core + after).take(core.len() as int) =~= core);
    }
}

/// A trimmed text is a stretch of the text, and where nothing is left of it the text is white space.
pub(crate) proof fn lemma_trim_is_within(s: Seq<char>)
    ensures
        forall|i: int| 0 <= i < trim(s).len() ==> s.contains(#[trigger] trim(s)[i]),
        trim(s).len() == 0 ==> is_white_run(s),
{
    lemma_trim_start(s);
    let t = trim_start(s);
    let n = s.len() - t.len();
    lemma_trim_end(t);
    assert forall|i: int| 0 <= i < trim(s).len() implies s.contains(#[trigger] trim(s)[i]) by {
        assert(trim(s)[i] == t[i]);
        assert(t[i] == s[n + i]);
    }
    if trim(s).len() == 0 {
        assert forall|i: int| 0 <= i < s.len() implies is_white(#[trigger] s[i]) by {
            if i >= n {
                assert(t[i - n] == s[i]);
            }
        }
    }
}

/// A text splits at the first `c`: what stands before it holds no `c`, what stands behind it is
/// kept as it is. A text without `c` does not split.
pub proof fn lemma_split_at_the_first(before: Seq<char>, c: char, after: Seq<char>)
    requires
        forall|i: int| 0 <= i < before.len() ==> #[trigger] before[i] != c,
    ensures
        split_once(before + seq![c] + after, c) == Some((before, after)),
        split_once(before, c) is None,
{
    let whole = before + seq![c] + after;
    let n = before.len() as int;
    assert forall|i: int| 0 <= i < n implies whole[i] != c by {
        assert(whole[i] == before[i]);
    }
    lemma_find_char_unique(whole, c, n);
    lemma_find_char_unique(before, c, n);
    assert(whole.take(n) =~= before);
    assert(whole.skip(n + 1) =~= after);
}

/// A text begins with its first line, whichever of the two line endings follows it, and goes on
/// with the lines of the rest. A last line needs no line ending; an empty text has no lines.
pub proof fn lemma_first_line(line: Seq<char>, rest: Seq<char>)
    requires
        forall|i: int| 0 <= i < line.len() ==> #[trigger] line[i] != '\n',
    ensures
        lines(line + seq!['\r', '\n'] + rest) == seq![line] + lines(rest),
        line.len() == 0 || line.last() != '\r' ==> lines(line + seq!['\n'] + rest) == seq![line]
            + lines(rest),
        line.len() > 0 ==> lines(line) == seq![line],
        line.len() == 0 ==> lines(line) == Seq::<Seq<char>>::empty(),
{
    let n = line.len() as int;
    let unix = line + seq!['\n'] + rest;
    assert forall|i: int| 0 <= i < n implies unix[i] != '\n' by {
        assert(unix[i] == line[i]);
    }
    lemma_find_char_unique(unix, '\n', n);
    assert(unix.take(n) =~= line);
    assert(unix.skip(n + 1) =~= rest);
    let dos = line + seq!['\r', '\n'] + rest;
    assert forall|i: int| 0 <= i < n + 1 implies dos[i] != '\n' by {
        if i < n {
            assert(dos[i] == line[i]);
        }
    }
    lemma_find_char_unique(dos, '\n', n + 1);
    assert(strip_return(dos.take(n + 1)) =~= line);
    assert(dos.skip(n + 2) =~= rest);
    lemma_find_char_unique(line, '\n', n);
}

/// A text begins with its first word, whatever white space stands before it, and goes on with the
/// words of the rest.
pub proof fn lemma_first_word(before: Seq<char>, word: Seq<char>, rest: Seq<char>)
    requires
        is_white_run(before),
        word.len() > 0,
        forall|i: int| 0 <= i < word.len() ==> !is_white(#[trigger] word[i]),
        rest.len() > 0 ==> is_white(rest[0]),
    ensures
        words(before + word + rest) == seq![word] + words(rest),
{
    let whole = before + word + rest;
    let n = before.len() as int;
    assert(whole[n] == word[0]);
    lemma_trim_start_is(whole, n);
    let t = word + rest;
    assert(whole.skip(n) =~= t);
    assert forall|i: int| 0 <= i < word.len() implies !is_white(t[i]) by {
        assert(t[i] == word[i]);
    }
    lemma_word_len_is(t, word.len() as int);
    assert(t.take(word.len() as int) =~= word);
    assert(t.skip(word.len() as int) =~= rest);
}

/// White space alone holds no words.
pub proof fn lemma_no_words(white: Seq<char>)
    requires
        is_white_run(white),
    ensures
        words(white) == Seq::<Seq<char>>::empty(),
{
    lemma_trim_start_is(white, white.len() as int);
}

/// A digit behind a number in decimal makes ten times that number and the digit.
pub proof fn lemma_decimal_appends_a_digit(n: nat, d: nat)
    requires
        d < 10,
    ensures
        decimal(d) == seq!["0123456789"@[d as int]],
        n > 0 ==> decimal((10 * n + d) as nat) == decimal(n).push("0123456789"@[d as int]),
{
    reveal_strlit("0123456789");
    if n > 0 {
        let m = (10 * n + d) as nat;
        assert(m / 10 == n && m % 10 == d);
    }
}

/// `n` zeros.
pub open spec fn zeros(n: nat) -> Seq<char> {
    Seq::new(n, |i: int| '0')
}

/// A number in decimal is read as that number where 16 bits can hold it, and refused otherwise.
/// Zeros in front of it, and a plus sign in front of those, make no difference.
pub proof fn lemma_numbers_are_read(n: nat, padding: nat)
    ensures
        parse_u16(zeros(padding) + decimal(n)) == if n <= 65535 {
            Some(n as u16)
        } else {
            None
        },
        parse_u16(seq!['+'] + zeros(padding) + decimal(n)) == if n <= 65535 {
            Some(n as u16)
        } else {
            None
        },
{
    let digits = zeros(padding) + decimal(n);
    lemma_decimal_digits(n);
    lemma_zeros_add_nothing(padding, decimal(n));
    assert forall|i: int| 0 <= i < digits.len() implies is_digit(#[trigger] digits[i]) by {
        if i >= padding {
            assert(digits[i] == decimal(n)[i - padding]);
        }
    }
    assert(is_digit(digits[0]));
    let signed = seq!['+'] + zeros(padding) + decimal(n);
    assert(signed.skip(1) =~= digits);
}

/// Zeros in front of digits do not change what the digits stand for.
proof fn lemma_zeros_add_nothing(padding: nat, digits: Seq<char>)
    ensures
        digits_value(zeros(padding) + digits) == digits_value(digits),
    decreases padding + digits.len(),
{
    let whole = zeros(padding) + digits;
    if digits.len() > 0 {
        lemma_zeros_add_nothing(padding, digits.drop_last());
        assert(whole.drop_last() =~= zeros(padding) + digits.drop_last());
    } else if padding > 0 {
        lemma_zeros_add_nothing((padding - 1) as nat, digits);
        assert(whole.drop_last() =~= zeros((padding - 1) as nat) + digits);
    }
}

/// Only digits, at least one, with or without a plus sign in front, are read as a number.
pub proof fn lemma_only_digits_are_read(s: Seq<char>)
    ensures
        parse_u16(s) is Some ==> {
            &&& s.len() > 0
            &&& s[0] == '+' ==> s.len() > 1
            &&& s[0] == '+' || '0' <= s[0] <= '9'
            &&& forall|i: int| 0 < i < s.len() ==> '0' <= #[trigger] s[i] <= '9'
        },
{
    let digits = unsigned_digits(s);
    if parse_u16(s) is Some {
        assert(is_digit(digits[0]));
        assert forall|i: int| 0 < i < s.len() implies '0' <= #[trigger] s[i] <= '9' by {
            if s[0] == '+' {
                assert(is_digit(digits[i - 1]));
            } else {
                assert(is_digit(digits[i]));
            }
        }
    }
}

/// A list of stretches of characters is viewed item by item.
pub proof fn lemma_views_item_by_item(list: Seq<&[char]>)
    ensures
        views(list).len() == list.len(),
        forall|i: int| 0 <= i < list.len() ==> #[trigger] views(list)[i] == list[i]@,
{
}

} // verus!
