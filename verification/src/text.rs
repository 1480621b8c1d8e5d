//! Text helpers: comparing strings, splitting a text into lines and writing
//! them out again, and writing numbers and truth values.

use vstd::prelude::*;
use vstd::std_specs::iter::IteratorSpec;
use vstd::string::*;
use vstd::utf8::{
    decode_utf8, decode_utf8_split, encode_utf8, group_utf8_lib, is_ascii_chars,
    is_ascii_chars_encode_utf8, is_char_boundary,
    is_char_boundary_iff_not_is_continuation_byte, is_char_boundary_start_end_of_seq, valid_utf8,
    valid_utf8_split,
};

verus! {

/// Whether two strings hold the same characters.
pub fn str_eq(a: &str, b: &str) -> (same: bool)
    ensures
        same == (a@ == b@),
{
    broadcast use group_string_axioms;

    let mut left = a.chars();
    let mut right = b.chars();
    let ghost mut i: int = 0;
    loop
        invariant
            0 <= i <= a@.len(),
            i <= b@.len(),
            left.remaining() == a@.subrange(i, a@.len() as int),
            right.remaining() == b@.subrange(i, b@.len() as int),
            a@.subrange(0, i) == b@.subrange(0, i),
        decreases a@.len() - i,
    {
        let x = left.next();
        let y = right.next();
        match (x, y) {
            (None, None) => {
                proof {
                    assert(a@ == a@.subrange(0, i));
                    assert(b@ == b@.subrange(0, i));
                }
                return true;
            },
            (Some(c), Some(d)) => {
                if c != d {
                    proof {
                        assert(a@[i] != b@[i]);
                    }
                    return false;
                }
                proof {
                    assert(a@.subrange(0, i + 1) == a@.subrange(0, i).push(a@[i]));
                    assert(b@.subrange(0, i + 1) == b@.subrange(0, i).push(b@[i]));
                    i = i + 1;
                }
            },
            _ => {
                return false;
            },
        }
    }
}

/// The index of the first line feed of `s` at or after `from`, or the length
/// of `s` where there is none.
pub open spec fn line_end(s: Seq<char>, from: int) -> int
    decreases s.len() - from,
{
    if from >= s.len() {
        s.len() as int
    } else if s[from] == '\n' {
        from
    } else {
        line_end(s, from + 1)
    }
}

/// A line without the carriage return that may stand before its line feed.
pub open spec fn strip_cr(line: Seq<char>) -> Seq<char> {
    if line.len() > 0 && line.last() == '\r' {
        line.drop_last()
    } else {
        line
    }
}

/// The lines of `s` that begin at or after index `from`, where `from` is the
/// start of a line.
///
/// A line ends at a line feed, and a carriage return directly before that
/// line feed belongs to the line ending. What follows the last line feed is a
/// line of its own unless it is empty; it is kept as it stands.
pub open spec fn lines_from(s: Seq<char>, from: int) -> Seq<Seq<char>>
    decreases s.len() - from,
    via lines_from_decreases
{
    if from < 0 || from >= s.len() {
        Seq::empty()
    } else {
        let end = line_end(s, from);
        if end >= s.len() {
            seq![s.subrange(from, s.len() as int)]
        } else {
            seq![strip_cr(s.subrange(from, end))] + lines_from(s, end + 1)
        }
    }
}

#[via_fn]
proof fn lines_from_decreases(s: Seq<char>, from: int) {
    if 0 <= from < s.len() {
        lemma_line_end_bounds(s, from);
    }
}

/// The lines of a text, without their line endings.
pub open spec fn spec_lines(s: Seq<char>) -> Seq<Seq<char>> {
    lines_from(s, 0)
}

/// `line_end` stays between its starting point and the end of the text, and
/// points at a line feed whenever it stops early.
pub proof fn lemma_line_end_bounds(s: Seq<char>, from: int)
    requires
        0 <= from <= s.len(),
    ensures
        from <= line_end(s, from) <= s.len(),
        line_end(s, from) < s.len() ==> s[line_end(s, from)] == '\n',
        forall|k: int| from <= k < line_end(s, from) ==> s[k] != '\n',
    decreases s.len() - from,
{
    if from < s.len() && s[from] != '\n' {
        lemma_line_end_bounds(s, from + 1);
    }
}

/// Skipping characters that are no line feed does not move the end of the line.
pub proof fn lemma_line_end_skip(s: Seq<char>, from: int, to: int)
    requires
        0 <= from <= to <= s.len(),
        forall|k: int| from <= k < to ==> s[k] != '\n',
    ensures
        line_end(s, from) == line_end(s, to),
    decreases to - from,
{
    if from < to {
        lemma_line_end_skip(s, from + 1, to);
    }
}

/// Splits a text into its lines, each borrowed from the text and without its
/// line ending.
pub fn split_lines(src: &str) -> (lines: Vec<&str>)
    ensures
        lines.deep_view() == spec_lines(src@),
{
    broadcast use group_string_axioms;

    let len = src.unicode_len();
    let mut lines: Vec<&str> = Vec::new();
    let mut chars = src.chars();
    let mut pos: usize = 0;
    let mut start: usize = 0;
    let mut after_cr = false;
    let ghost s = src@;
    proof {
        assert(lines.deep_view() == Seq::<Seq<char>>::empty());
    }
    loop
        invariant
            s == src@,
            len == s.len(),
            0 <= start <= pos <= len,
            chars.remaining() == s.subrange(pos as int, len as int),
            forall|k: int| start <= k < pos ==> s[k] != '\n',
            after_cr == (start < pos && s[pos - 1] == '\r'),
            spec_lines(s) == lines.deep_view() + lines_from(s, start as int),
        ensures
            pos == len,
        decreases len - pos,
    {
        let c = match chars.next() {
            Some(c) => c,
            None => {
                break;
            },
        };
        assert(c == s[pos as int]);
        if c == '\n' {
            let end = if after_cr {
                pos - 1
            } else {
                pos
            };
            let line = src.substring_char(start, end);
            let ghost before = lines.deep_view();
            lines.push(line);
            proof {
                lemma_line_end_skip(s, start as int, pos as int);
                lemma_line_end_bounds(s, pos as int);
                assert(line_end(s, start as int) == pos);
                assert(line@ == strip_cr(s.subrange(start as int, pos as int)));
                assert(lines.deep_view() == before.push(line@));
                assert(before.push(line@) + lines_from(s, pos + 1) == before + (seq![line@]
                    + lines_from(s, pos + 1)));
            }
            start = pos + 1;
            after_cr = false;
        } else {
            after_cr = c == '\r';
        }
        pos = pos + 1;
    }
    if start < len {
        let line = src.substring_char(start, len);
        let ghost before = lines.deep_view();
        lines.push(line);
        proof {
            lemma_line_end_skip(s, start as int, len as int);
            assert(lines_from(s, start as int) == seq![line@]);
            assert(lines.deep_view() == before.push(line@));
            assert(before.push(line@) == before + seq![line@]);
        }
    } else {
        proof {
            assert(lines.deep_view() + Seq::<Seq<char>>::empty() == lines.deep_view());
        }
    }
    lines
}

/// The character that stands for a decimal digit.
pub open spec fn digit_char(digit: nat) -> char {
    if digit == 0 {
        '0'
    } else if digit == 1 {
        '1'
    } else if digit == 2 {
        '2'
    } else if digit == 3 {
        '3'
    } else if digit == 4 {
        '4'
    } else if digit == 5 {
        '5'
    } else if digit == 6 {
        '6'
    } else if digit == 7 {
        '7'
    } else if digit == 8 {
        '8'
    } else {
        '9'
    }
}

/// A number in decimal, without leading zeros.
pub open spec fn decimal(n: nat) -> Seq<char>
    decreases n,
{
    if n < 10 {
        seq![digit_char(n)]
    } else {
        decimal(n / 10).push(digit_char(n % 10))
    }
}

/// The text of one decimal digit.
fn digit_str(digit: u64) -> (text: &'static str)
    requires
        digit < 10,
    ensures
        text@ == seq![digit_char(digit as nat)],
{
    proof {
        reveal_strlit("0");
        reveal_strlit("1");
        reveal_strlit("2");
        reveal_strlit("3");
        reveal_strlit("4");
        reveal_strlit("5");
        reveal_strlit("6");
        reveal_strlit("7");
        reveal_strlit("8");
        reveal_strlit("9");
    }
    let text = if digit == 0 {
        "0"
    } else if digit == 1 {
        "1"
    } else if digit == 2 {
        "2"
    } else if digit == 3 {
        "3"
    } else if digit == 4 {
        "4"
    } else if digit == 5 {
        "5"
    } else if digit == 6 {
        "6"
    } else if digit == 7 {
        "7"
    } else if digit == 8 {
        "8"
    } else {
        "9"
    };
    assert(text@ =~= seq![digit_char(digit as nat)]);
    text
}

/// Writes a number in decimal, without leading zeros.
pub fn to_decimal(n: u64) -> (text: String)
    ensures
        text@ == decimal(n as nat),
    decreases n,
{
    if n < 10 {
        String::from_str(digit_str(n))
    } else {
        let mut text = to_decimal(n / 10);
        text.append(digit_str(n % 10));
        assert(text@ =~= decimal(n as nat));
        text
    }
}

/// The text of a truth value: `true` or `false`.
pub open spec fn bool_text(value: bool) -> Seq<char> {
    if value {
        "true"@
    } else {
        "false"@
    }
}

/// Writes a truth value as `true` or `false`.
pub fn bool_str(value: bool) -> (text: &'static str)
    ensures
        text@ == bool_text(value),
{
    if value {
        "true"
    } else {
        "false"
    }
}

/// Lines written out one after the other, each closed by a line feed.
pub open spec fn join_lines(lines: Seq<Seq<char>>) -> Seq<char>
    decreases lines.len(),
{
    if lines.len() == 0 {
        Seq::empty()
    } else {
        join_lines(lines.drop_last()) + lines.last() + seq!['\n']
    }
}

/// Writing out a first line and then the rest is writing out all of them.
pub proof fn lemma_join_lines_first(first: Seq<char>, rest: Seq<Seq<char>>)
    ensures
        join_lines(seq![first] + rest) == first + seq!['\n'] + join_lines(rest),
    decreases rest.len(),
{
    let all = seq![first] + rest;
    if rest.len() == 0 {
        assert(all.drop_last() =~= Seq::<Seq<char>>::empty());
        assert(join_lines(all.drop_last()) == Seq::<char>::empty());
        assert(all.last() == first);
        assert(join_lines(rest) == Seq::<char>::empty());
        assert(join_lines(all) =~= first + seq!['\n'] + join_lines(rest));
    } else {
        lemma_join_lines_first(first, rest.drop_last());
        assert(all.drop_last() =~= seq![first] + rest.drop_last());
        assert(all.last() == rest.last());
        assert(join_lines(all) =~= first + seq!['\n'] + join_lines(rest));
    }
}

/// Whether a text is made of lines that each end in a bare line feed: it is
/// empty or ends in a line feed, and no line feed follows a carriage return.
pub open spec fn ends_lines_with_lf(s: Seq<char>) -> bool {
    &&& s.len() == 0 || s.last() == '\n'
    &&& forall|i: int| 0 < i < s.len() && #[trigger] s[i] == '\n' ==> s[i - 1] != '\r'
}

/// Splitting such a text into lines and writing the lines out again gives
/// the text back, from any start of a line on.
pub proof fn lemma_lines_round_trip_from(s: Seq<char>, from: int)
    requires
        ends_lines_with_lf(s),
        0 <= from <= s.len(),
    ensures
        join_lines(lines_from(s, from)) == s.subrange(from, s.len() as int),
    decreases s.len() - from,
{
    if from >= s.len() {
        assert(join_lines(lines_from(s, from)) =~= s.subrange(from, s.len() as int));
    } else {
        lemma_line_end_bounds(s, from);
        let end = line_end(s, from);
        if end >= s.len() {
            assert(s[s.len() - 1] != '\n');
            assert(false);
        }
        let line = s.subrange(from, end);
        assert(strip_cr(line) == line) by {
            if line.len() > 0 {
                assert(line.last() == s[end - 1]);
            }
        }
        lemma_lines_round_trip_from(s, end + 1);
        lemma_join_lines_first(line, lines_from(s, end + 1));
        assert(line + seq!['\n'] + s.subrange(end + 1, s.len() as int) =~= s.subrange(
            from,
            s.len() as int,
        ));
    }
}

/// A text whose lines each end in a bare line feed is the same text after it
/// has been split into lines and written out again.
pub proof fn lemma_lines_round_trip(s: Seq<char>)
    requires
        ends_lines_with_lf(s),
    ensures
        join_lines(spec_lines(s)) == s,
{
    lemma_lines_round_trip_from(s, 0);
    assert(s.subrange(0, s.len() as int) =~= s);
}

/// Whether a line holds no line feed.
pub open spec fn has_no_line_feed(line: Seq<char>) -> bool {
    forall|k: int| 0 <= k < line.len() ==> line[k] != '\n'
}

/// No line of a text holds a line feed.
pub proof fn lemma_lines_hold_no_line_feed(s: Seq<char>, from: int)
    requires
        0 <= from <= s.len(),
    ensures
        forall|i: int|
            0 <= i < lines_from(s, from).len() ==> has_no_line_feed(#[trigger] lines_from(s, from)[i]),
    decreases s.len() - from,
{
    if from < s.len() {
        lemma_line_end_bounds(s, from);
        let end = line_end(s, from);
        if end < s.len() {
            lemma_lines_hold_no_line_feed(s, end + 1);
            let first = strip_cr(s.subrange(from, end));
            let rest = lines_from(s, end + 1);
            assert(has_no_line_feed(first));
            assert forall|i: int| 0 <= i < lines_from(s, from).len() implies has_no_line_feed(
                #[trigger] lines_from(s, from)[i],
            ) by {
                if i > 0 {
                    assert(lines_from(s, from)[i] == rest[i - 1]);
                }
            }
        } else {
            assert(has_no_line_feed(s.subrange(from, s.len() as int)));
        }
    }
}

/// The end of a line does not depend on what stands before the line.
pub proof fn lemma_line_end_shift(s: Seq<char>, cut: int, from: int)
    requires
        0 <= cut <= s.len(),
        0 <= from <= s.len() - cut,
    ensures
        line_end(s.subrange(cut, s.len() as int), from) + cut == line_end(s, from + cut),
    decreases s.len() - cut - from,
{
    let tail = s.subrange(cut, s.len() as int);
    if from < tail.len() {
        assert(tail[from] == s[from + cut]);
        if tail[from] != '\n' {
            lemma_line_end_shift(s, cut, from + 1);
        }
    }
}

/// The lines of a text from the start of a line on are the lines of the rest
/// of the text.
pub proof fn lemma_lines_from_is_lines_of_rest(s: Seq<char>, from: int)
    requires
        0 <= from <= s.len(),
    ensures
        lines_from(s, from) == spec_lines(s.subrange(from, s.len() as int)),
    decreases s.len() - from,
{
    let tail = s.subrange(from, s.len() as int);
    if from < s.len() {
        lemma_line_end_bounds(s, from);
        lemma_line_end_bounds(tail, 0);
        lemma_line_end_shift(s, from, 0);
        let end = line_end(s, from);
        let tail_end = line_end(tail, 0);
        if end < s.len() {
            lemma_lines_from_is_lines_of_rest(s, end + 1);
            lemma_lines_from_is_lines_of_rest(tail, tail_end + 1);
            assert(tail.subrange(tail_end + 1, tail.len() as int) == s.subrange(
                end + 1,
                s.len() as int,
            ));
            assert(tail.subrange(0, tail_end) == s.subrange(from, end));
        } else {
            assert(tail.subrange(0, tail.len() as int) == tail);
        }
    }
}

/// Lines without line feeds that are written out and split again are the
/// same lines, one for one, each without the carriage return that stood at
/// its end.
pub proof fn lemma_lines_of_joined(lines: Seq<Seq<char>>)
    requires
        forall|i: int| 0 <= i < lines.len() ==> has_no_line_feed(#[trigger] lines[i]),
    ensures
        spec_lines(join_lines(lines)) == lines.map_values(|line: Seq<char>| strip_cr(line)),
    decreases lines.len(),
{
    let stripped = lines.map_values(|line: Seq<char>| strip_cr(line));
    if lines.len() == 0 {
        assert(join_lines(lines) == Seq::<char>::empty());
        assert(spec_lines(join_lines(lines)) =~= stripped);
    } else {
        let first = lines[0];
        let rest = lines.drop_first();
        assert(lines == seq![first] + rest);
        lemma_join_lines_first(first, rest);
        lemma_lines_of_joined(rest);
        let s = join_lines(lines);
        assert(s == first + seq!['\n'] + join_lines(rest));
        let cut = first.len() as int;
        assert(s[cut] == '\n');
        assert(has_no_line_feed(first));
        assert forall|k: int| 0 <= k < cut implies s[k] != '\n' by {
            assert(s[k] == first[k]);
        }
        lemma_line_end_skip(s, 0, cut);
        assert(line_end(s, cut) == cut);
        lemma_lines_from_is_lines_of_rest(s, cut + 1);
        assert(s.subrange(cut + 1, s.len() as int) == join_lines(rest));
        assert(s.subrange(0, cut) == first);
        assert(spec_lines(s) == seq![strip_cr(first)] + spec_lines(join_lines(rest)));
        assert(spec_lines(s) =~= stripped);
    }
}

/// Whether the bytes from `start` up to `end` of the UTF-8 form of a text are
/// a run of whole characters of the text.
pub open spec fn is_span(text: Seq<char>, start: int, end: int) -> bool {
    &&& 0 <= start <= end <= encode_utf8(text).len()
    &&& is_char_boundary(encode_utf8(text), start)
    &&& is_char_boundary(encode_utf8(text), end)
}

/// The characters of a text that lie before byte `at` of its UTF-8 form.
pub open spec fn text_before(text: Seq<char>, at: int) -> Seq<char> {
    decode_utf8(encode_utf8(text).subrange(0, at))
}

/// The characters of a text that lie at and after byte `at` of its UTF-8 form.
pub open spec fn text_from(text: Seq<char>, at: int) -> Seq<char> {
    decode_utf8(encode_utf8(text).subrange(at, encode_utf8(text).len() as int))
}

/// The characters of a text that lie in a span of its UTF-8 form.
pub open spec fn text_between(text: Seq<char>, start: int, end: int) -> Seq<char> {
    decode_utf8(encode_utf8(text).subrange(start, end))
}

/// A text with the characters of one span replaced by `token`: what stands
/// before the span and what stands after it are kept as they are.
pub open spec fn replace_span(text: Seq<char>, start: int, end: int, token: Seq<char>) -> Seq<
    char,
> {
    text_before(text, start) + token + text_from(text, end)
}

/// A character boundary of a text is one of every part of the text that
/// begins at the start and reaches at least that far.
pub proof fn lemma_boundary_in_prefix(bytes: Seq<u8>, at: int, end: int)
    requires
        valid_utf8(bytes),
        0 <= at <= end <= bytes.len(),
        is_char_boundary(bytes, at),
        is_char_boundary(bytes, end),
    ensures
        valid_utf8(bytes.subrange(0, end)),
        is_char_boundary(bytes.subrange(0, end), at),
{
    let head = bytes.subrange(0, end);
    valid_utf8_split(bytes, end);
    if at == end {
        is_char_boundary_start_end_of_seq(head);
    } else {
        is_char_boundary_iff_not_is_continuation_byte(bytes, at);
        is_char_boundary_iff_not_is_continuation_byte(head, at);
    }
}

/// A text is what stands before a span, the span, and what stands after it.
pub proof fn lemma_span_parts(text: Seq<char>, start: int, end: int)
    requires
        is_span(text, start, end),
    ensures
        text == text_before(text, start) + text_between(text, start, end) + text_from(text, end),
{
    broadcast use group_utf8_lib;

    let bytes = encode_utf8(text);
    let head = bytes.subrange(0, end);
    lemma_boundary_in_prefix(bytes, start, end);
    decode_utf8_split(bytes, end);
    decode_utf8_split(head, start);
    assert(head.subrange(0, start) == bytes.subrange(0, start));
    assert(head.subrange(start, head.len() as int) == bytes.subrange(start, end));
    assert(decode_utf8(bytes) == text);
}

/// Replacing a span changes nothing outside it: the text and the result are
/// the same characters before the span and the same characters after it, with
/// the old text of the span in the one and the token in the other. Replacing
/// a span by its own text gives the text back.
pub proof fn lemma_replace_span_keeps_the_rest(
    text: Seq<char>,
    start: int,
    end: int,
    token: Seq<char>,
)
    requires
        is_span(text, start, end),
    ensures
        text == text_before(text, start) + text_between(text, start, end) + text_from(text, end),
        replace_span(text, start, end, token) == text_before(text, start) + token + text_from(
            text,
            end,
        ),
        replace_span(text, start, end, text_between(text, start, end)) == text,
{
    lemma_span_parts(text, start, end);
}

/// A line without a line feed has none after a token without one has taken
/// the place of a span.
pub proof fn lemma_replaced_holds_no_line_feed(
    text: Seq<char>,
    start: int,
    end: int,
    token: Seq<char>,
)
    requires
        is_span(text, start, end),
        has_no_line_feed(text),
        has_no_line_feed(token),
    ensures
        has_no_line_feed(replace_span(text, start, end, token)),
{
    lemma_span_parts(text, start, end);
    let before = text_before(text, start);
    let old = text_between(text, start, end);
    let after = text_from(text, end);
    let replaced = replace_span(text, start, end, token);
    assert forall|k: int| 0 <= k < replaced.len() implies replaced[k] != '\n' by {
        if k < before.len() {
            assert(replaced[k] == text[k]);
        } else if k < before.len() + token.len() {
            assert(replaced[k] == token[k - before.len()]);
        } else {
            assert(replaced[k] == after[k - before.len() - token.len()]);
            assert(after[k - before.len() - token.len()] == text[k - token.len() + old.len()]);
        }
    }
}

/// In a text of ASCII characters bytes and characters are the same: every
/// range is a span, and the parts of the text around it are the parts of the
/// character sequence.
pub proof fn lemma_ascii_spans(text: Seq<char>, start: int, end: int)
    requires
        is_ascii_chars(text),
        0 <= start <= end <= text.len(),
    ensures
        is_span(text, start, end),
        text_before(text, start) == text.subrange(0, start),
        text_between(text, start, end) == text.subrange(start, end),
        text_from(text, end) == text.subrange(end, text.len() as int),
{
    broadcast use group_utf8_lib;

    let bytes = encode_utf8(text);
    is_ascii_chars_encode_utf8(text);
    assert(is_char_boundary(bytes, start)) by {
        if start < bytes.len() {
            is_char_boundary_iff_not_is_continuation_byte(bytes, start);
        }
    }
    assert(is_char_boundary(bytes, end)) by {
        if end < bytes.len() {
            is_char_boundary_iff_not_is_continuation_byte(bytes, end);
        }
    }
    lemma_ascii_part(text, 0, start);
    lemma_ascii_part(text, start, end);
    lemma_ascii_part(text, end, text.len() as int);
}

/// A range of the UTF-8 form of a text of ASCII characters holds the
/// characters of that range.
proof fn lemma_ascii_part(text: Seq<char>, from: int, to: int)
    requires
        is_ascii_chars(text),
        0 <= from <= to <= text.len(),
    ensures
        encode_utf8(text).len() == text.len(),
        decode_utf8(encode_utf8(text).subrange(from, to)) == text.subrange(from, to),
{
    broadcast use group_utf8_lib;

    let part = text.subrange(from, to);
    is_ascii_chars_encode_utf8(text);
    is_ascii_chars_encode_utf8(part);
    assert(encode_utf8(part) =~= encode_utf8(text).subrange(from, to)) by {
        assert forall|i: int| 0 <= i < part.len() implies encode_utf8(part)[i] == encode_utf8(
            text,
        ).subrange(from, to)[i] by {
            assert(part[i] == text[from + i]);
        }
    }
    assert(decode_utf8(encode_utf8(part)) == part);
}

/// Whether a span of bytes is a run of whole characters of a text.
pub fn check_span(text: &str, start: usize, end: usize) -> (ok: bool)
    ensures
        ok == is_span(text@, start as int, end as int),
{
    start <= end && end <= text.as_bytes().len() && text.is_char_boundary(start)
        && text.is_char_boundary(end)
}

/// The part of a text that lies in a span.
pub fn span_text<'a>(text: &'a str, start: usize, end: usize) -> (part: &'a str)
    requires
        is_span(text@, start as int, end as int),
    ensures
        part@ == text_between(text@, start as int, end as int),
{
    broadcast use group_utf8_lib;

    proof {
        lemma_boundary_in_prefix(text.spec_bytes(), start as int, end as int);
    }
    let (head, _) = text.split_at(end);
    let (_, part) = head.split_at(start);
    proof {
        assert(head.spec_bytes().subrange(start as int, head.spec_bytes().len() as int)
            == text.spec_bytes().subrange(start as int, end as int));
        assert(decode_utf8(encode_utf8(part@)) == part@);
    }
    part
}

/// Writes a text with the characters of one span replaced by `token`.
pub fn write_replaced(text: &str, start: usize, end: usize, token: &str) -> (replaced: String)
    requires
        is_span(text@, start as int, end as int),
    ensures
        replaced@ == replace_span(text@, start as int, end as int, token@),
{
    broadcast use group_utf8_lib;

    let (before, _) = text.split_at(start);
    let (_, after) = text.split_at(end);
    proof {
        assert(decode_utf8(encode_utf8(before@)) == before@);
        assert(decode_utf8(encode_utf8(after@)) == after@);
    }
    let mut replaced = String::from_str(before);
    replaced.append(token);
    replaced.append(after);
    replaced
}

/// Whether a byte is a space or a tab.
pub open spec fn is_blank(byte: u8) -> bool {
    byte == 0x20 || byte == 0x09
}

/// Where a span ends once the spaces and tabs at its end are left out.
pub open spec fn trimmed_end(bytes: Seq<u8>, start: int, end: int) -> int
    decreases end - start,
{
    if start < end <= bytes.len() && is_blank(bytes[end - 1]) {
        trimmed_end(bytes, start, end - 1)
    } else {
        end
    }
}

/// Leaves the spaces and tabs at the end of a span out of it.
pub fn trim_span_end(text: &str, start: usize, end: usize) -> (trimmed: usize)
    requires
        is_span(text@, start as int, end as int),
    ensures
        trimmed == trimmed_end(encode_utf8(text@), start as int, end as int),
        start <= trimmed <= end,
        is_span(text@, start as int, trimmed as int),
{
    broadcast use group_utf8_lib;

    let bytes = text.as_bytes();
    let mut stop = end;
    while stop > start && (bytes[stop - 1] == 0x20 || bytes[stop - 1] == 0x09)
        invariant
            bytes@ == encode_utf8(text@),
            valid_utf8(bytes@),
            start <= stop <= end <= bytes@.len(),
            is_span(text@, start as int, stop as int),
            trimmed_end(bytes@, start as int, end as int) == trimmed_end(
                bytes@,
                start as int,
                stop as int,
            ),
        decreases stop - start,
    {
        proof {
            is_char_boundary_iff_not_is_continuation_byte(bytes@, stop - 1);
        }
        stop = stop - 1;
    }
    stop
}

} // verus!
