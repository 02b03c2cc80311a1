//! Small text routines: lines, prefixes and decimal numbers.

use vstd::prelude::*;
use vstd::string::*;

verus! {

/// `String::push`: the character is appended to the end of the string.
pub assume_specification[ std::string::String::push ](string: &mut String, ch: char)
    ensures
        final(string)@ == old(string)@.push(ch),
;

/// The text that `format!("{:?}", ch)` produces: the character in single
/// quotes, escaped where the standard library escapes it.
pub uninterp spec fn quoted_char(ch: char) -> Seq<char>;

/// `format!` with the `Debug` form of one character. The result is a function
/// of the character alone; how it is escaped is left to the standard library.
#[verifier::external_body]
pub(crate) fn quote_char(ch: char) -> (quoted: String)
    ensures
        quoted@ == quoted_char(ch),
{
    format!("{ch:?}")
}

/// The character of a decimal digit.
pub open spec fn digit_char(digit: nat) -> char {
    (48 + digit) as char
}

/// A number in decimal, most significant digit first.
pub open spec fn decimal(n: nat) -> Seq<char>
    decreases n,
{
    if n < 10 {
        seq![digit_char(n)]
    } else {
        decimal(n / 10).push(digit_char(n % 10))
    }
}

/// The number that a string of decimal digits denotes.
pub open spec fn decimal_value(digits: Seq<char>) -> nat
    decreases digits.len(),
{
    if digits.len() == 0 {
        0
    } else {
        (decimal_value(digits.drop_last()) * 10 + (digits.last() as nat - 48)) as nat
    }
}

/// Reading a decimal back gives the number that was written.
pub proof fn law_decimal_reads_back(n: nat)
    ensures
        decimal_value(decimal(n)) == n,
    decreases n,
{
    reveal_with_fuel(decimal_value, 2);
    if n >= 10 {
        law_decimal_reads_back(n / 10);
        assert(decimal(n).drop_last() == decimal(n / 10));
    } else {
        assert(decimal(n).drop_last() == Seq::<char>::empty());
    }
}

/// Appends `n` in decimal.
pub(crate) fn push_decimal(text: &mut String, n: u64)
    ensures
        final(text)@ == old(text)@ + decimal(n as nat),
    decreases n,
{
    if n >= 10 {
        push_decimal(text, n / 10);
    }
    let digit: u8 = (n % 10) as u8;
    text.push((48 + digit) as char);
    assert(text@ == old(text)@ + decimal(n as nat));
}

/// Whether the first characters of `text` are those of `prefix`.
pub open spec fn begins_with(text: Seq<char>, prefix: Seq<char>) -> bool {
    prefix.len() <= text.len() && text.take(prefix.len() as int) == prefix
}

pub(crate) fn starts_with(text: &str, prefix: &str) -> (found: bool)
    ensures
        found == begins_with(text@, prefix@),
{
    let length: usize = prefix.unicode_len();
    if text.unicode_len() < length {
        return false;
    }
    let mut i: usize = 0;
    while i < length
        invariant
            i <= length,
            length == prefix@.len(),
            length <= text@.len(),
            text@.take(i as int) == prefix@.take(i as int),
        decreases length - i,
    {
        if text.get_char(i) != prefix.get_char(i) {
            proof {
                assert(text@.take(length as int)[i as int] == text@[i as int]);
            }
            return false;
        }
        assert(text@.take(i + 1) == text@.take(i as int).push(text@[i as int]));
        assert(prefix@.take(i + 1) == prefix@.take(i as int).push(prefix@[i as int]));
        i = i + 1;
    }
    assert(prefix@.take(length as int) == prefix@);
    true
}

/// Whether two strings have the same characters.
pub(crate) fn same_text(a: &str, b: &str) -> (same: bool)
    ensures
        same == (a@ == b@),
{
    let same = a.unicode_len() == b.unicode_len() && starts_with(a, b);
    assert(a@.take(a@.len() as int) == a@);
    same
}

/// A line without the carriage return that may end it.
pub open spec fn without_cr(line: Seq<char>) -> Seq<char> {
    if line.len() > 0 && line.last() == '\r' {
        line.drop_last()
    } else {
        line
    }
}

/// The lines of a text that a line feed ends, without their line endings
/// (`\n` or `\r\n`).
pub open spec fn ended_lines(text: Seq<char>) -> Seq<Seq<char>>
    decreases text.len(),
{
    if text.len() == 0 {
        Seq::empty()
    } else if text.last() == '\n' {
        ended_lines(text.drop_last()).push(without_cr(open_line(text.drop_last())))
    } else {
        ended_lines(text.drop_last())
    }
}

/// What follows the last line feed of a text.
pub open spec fn open_line(text: Seq<char>) -> Seq<char>
    decreases text.len(),
{
    if text.len() == 0 || text.last() == '\n' {
        Seq::empty()
    } else {
        open_line(text.drop_last()).push(text.last())
    }
}

/// All lines of a text; the last one needs no line feed.
pub open spec fn lines_of(text: Seq<char>) -> Seq<Seq<char>> {
    let open = open_line(text);
    if open.len() == 0 {
        ended_lines(text)
    } else {
        ended_lines(text).push(open)
    }
}

/// The characters of each of a list of strings.
pub open spec fn texts(list: Seq<String>) -> Seq<Seq<char>> {
    list.map_values(|s: String| s@)
}

/// A string's characters without the last one if that is a carriage return.
fn strip_cr(line: &str) -> (stripped: String)
    ensures
        stripped@ == without_cr(line@),
{
    let length: usize = line.unicode_len();
    if length > 0 && line.get_char(length - 1) == '\r' {
        let stripped = line.substring_char(0, length - 1).to_owned();
        assert(stripped@ == line@.drop_last());
        stripped
    } else {
        line.to_owned()
    }
}

/// Splits a text into its lines.
pub(crate) fn split_lines(text: &str) -> (lines: Vec<String>)
    ensures
        texts(lines@) == lines_of(text@),
{
    let mut lines: Vec<String> = Vec::new();
    let mut line: String = String::new();
    let ghost mut read: int = 0;
    assert(texts(lines@) == ended_lines(text@.take(0)));
    for ch in chars: text.chars()
        invariant
            chars.seq() == text@,
            read == chars.index(),
            texts(lines@) == ended_lines(text@.take(read)),
            line@ == open_line(text@.take(read)),
    {
        proof {
            let seen = text@.take(read + 1);
            assert(seen.drop_last() == text@.take(read));
            assert(seen.last() == ch);
        }
        if ch == '\n' {
            let ended = strip_cr(line.as_str());
            let ghost before = lines@;
            lines.push(ended);
            line = String::new();
            assert(texts(lines@) == texts(before).push(ended@));
        } else {
            line.push(ch);
        }
        proof {
            read = read + 1;
        }
    }
    assert(text@.take(read) == text@);
    if !line.as_str().is_empty() {
        let ghost before = lines@;
        lines.push(line);
        assert(texts(lines@) == texts(before).push(line@));
    }
    lines
}

/// Whether a text is empty or ends with a line feed.
pub open spec fn line_ended(text: Seq<char>) -> bool {
    text.len() == 0 || text.last() == '\n'
}

/// Whether a text reads back as itself when it is written as a line.
pub open spec fn fits_one_line(text: Seq<char>) -> bool {
    &&& !text.contains('\n')
    &&& text.len() == 0 || text.last() != '\r'
}

proof fn lemma_append_to_ended(a: Seq<char>, b: Seq<char>)
    requires
        line_ended(a),
    ensures
        ended_lines(a + b) == ended_lines(a) + ended_lines(b),
        open_line(a + b) == open_line(b),
    decreases b.len(),
{
    if b.len() == 0 {
        assert(a + b == a);
        assert(ended_lines(a) + ended_lines(b) == ended_lines(a));
    } else {
        lemma_append_to_ended(a, b.drop_last());
        assert((a + b).drop_last() == a + b.drop_last());
        assert((a + b).last() == b.last());
        if b.last() == '\n' {
            let line = without_cr(open_line(b.drop_last()));
            assert(ended_lines(a) + ended_lines(b.drop_last()).push(line) == (ended_lines(a)
                + ended_lines(b.drop_last())).push(line));
        }
    }
}

/// The lines of two texts one after the other are the lines of the first and
/// then those of the second, provided the first ends its last line.
pub proof fn law_lines_concatenate(a: Seq<char>, b: Seq<char>)
    requires
        line_ended(a),
    ensures
        lines_of(a + b) == lines_of(a) + lines_of(b),
{
    lemma_append_to_ended(a, b);
    assert(open_line(a) == Seq::<char>::empty());
    if open_line(b).len() > 0 {
        assert((ended_lines(a) + ended_lines(b)).push(open_line(b)) == ended_lines(a)
            + ended_lines(b).push(open_line(b)));
    }
}

proof fn lemma_open_line(text: Seq<char>)
    requires
        !text.contains('\n'),
    ensures
        ended_lines(text) == Seq::<Seq<char>>::empty(),
        open_line(text) == text,
    decreases text.len(),
{
    if text.len() > 0 {
        let start = text.drop_last();
        assert forall|i: int| 0 <= i < start.len() implies start[i] != '\n' by {
            assert(text.contains(text[i]));
        }
        lemma_open_line(start);
        assert(text.contains(text.last()));
        assert(start.push(text.last()) == text);
    }
}

/// A text without line feeds, ended by one, is a single line, less a carriage
/// return at its end. A text that fits one line reads back as it is.
pub proof fn law_one_line_reads_back(line: Seq<char>)
    requires
        !line.contains('\n'),
    ensures
        lines_of(line.push('\n')) == seq![without_cr(line)],
        fits_one_line(line) ==> lines_of(line.push('\n')) == seq![line],
{
    lemma_open_line(line);
    assert(line.push('\n').drop_last() == line);
    assert(ended_lines(line.push('\n')) == seq![without_cr(line)]);
}

/// A number is written with decimal digits only, and without a leading zero
/// unless it is zero itself.
pub proof fn law_decimals_are_plain_digits(n: nat, i: int)
    requires
        0 <= i < decimal(n).len(),
    ensures
        '0' <= decimal(n)[i] <= '9',
        decimal(n)[0] == '0' ==> n == 0,
        n < 10 ==> decimal(n).len() == 1,
    decreases n,
{
    if n >= 10 {
        lemma_decimals_are_long(n / 10);
        law_decimals_are_plain_digits(n / 10, 0);
        if i < decimal(n / 10).len() {
            law_decimals_are_plain_digits(n / 10, i);
        }
    }
}

proof fn lemma_decimals_are_long(n: nat)
    ensures
        decimal(n).len() > 0,
    decreases n,
{
}

/// A text begins with a prefix exactly if it is the prefix and something after
/// it.
pub proof fn law_texts_begin_with_their_prefix(text: Seq<char>, prefix: Seq<char>, rest: Seq<char>)
    ensures
        begins_with(prefix + rest, prefix),
        begins_with(text, prefix) ==> text == prefix + text.skip(prefix.len() as int),
        text.len() < prefix.len() ==> !begins_with(text, prefix),
{
    assert((prefix + rest).take(prefix.len() as int) == prefix);
    if begins_with(text, prefix) {
        assert(text == text.take(prefix.len() as int) + text.skip(prefix.len() as int));
    }
}

/// A last line without a line feed is read as it is, and an empty text has no
/// line.
pub proof fn law_last_lines_need_no_line_feed(line: Seq<char>)
    requires
        !line.contains('\n'),
    ensures
        line.len() > 0 ==> lines_of(line) == seq![line],
        line.len() == 0 ==> lines_of(line).len() == 0,
{
    lemma_open_line(line);
    assert(Seq::<Seq<char>>::empty().push(line) == seq![line]);
}

/// Only a carriage return at the very end of a line is taken off it, and only
/// one.
pub proof fn law_lines_lose_one_carriage_return(line: Seq<char>)
    ensures
        without_cr(line.push('\r')) == line,
        line.len() > 0 && line.last() != '\r' ==> without_cr(line) == line,
        line.len() == 0 ==> without_cr(line) == line,
{
    assert(line.push('\r').drop_last() == line);
}

/// The texts of some strings are their characters, in order.
pub proof fn law_texts_keep_their_order(list: Seq<String>, i: int)
    requires
        0 <= i < list.len(),
    ensures
        texts(list).len() == list.len(),
        texts(list)[i] == list[i]@,
{
}

} // verus!
