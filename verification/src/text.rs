//! Text operations on `str` and `String`, stated over sequences of characters.
use crate::model::views;
use vstd::prelude::*;
use vstd::utf8::{decode_utf8, is_ascii_chars, valid_utf8};

verus! {

/// `String::push` of the standard library appends one character.
pub assume_specification[ String::push ](text: &mut String, c: char)
    ensures
        final(text)@ == old(text)@.push(c),
;

/// The characters of `text`, one by one.
pub fn chars_of(text: &str) -> (chars: Vec<char>)
    ensures
        chars@ == text@,
{
    let mut chars: Vec<char> = Vec::new();
    for c in it: text.chars()
        invariant
            it.seq() == text@,
            chars@ == text@.take(it.index()),
    {
        chars.push(c);
        assert(text@.take(it.index() + 1) == text@.take(it.index()).push(c));
    }
    assert(text@.take(text@.len() as int) == text@);
    chars
}

/// The text made of `chars[from..to]`.
pub fn slice_text(chars: &Vec<char>, from: usize, to: usize) -> (text: String)
    requires
        from <= to <= chars@.len(),
    ensures
        text@ == chars@.subrange(from as int, to as int),
{
    let mut text = String::new();
    let mut i: usize = from;
    while i < to
        invariant
            from <= i <= to <= chars@.len(),
            text@ == chars@.subrange(from as int, i as int),
        decreases to - i,
    {
        text.push(chars[i]);
        i += 1;
        assert(chars@.subrange(from as int, i as int) == chars@.subrange(from as int, i - 1).push(
            chars@[i - 1],
        ));
    }
    text
}

/// Unicode's `White_Space` property.
pub open spec fn is_white_space(c: char) -> bool {
    ||| '\u{9}' <= c <= '\u{d}'
    ||| c == '\u{20}'
    ||| c == '\u{85}'
    ||| c == '\u{a0}'
    ||| c == '\u{1680}'
    ||| '\u{2000}' <= c <= '\u{200a}'
    ||| c == '\u{2028}'
    ||| c == '\u{2029}'
    ||| c == '\u{202f}'
    ||| c == '\u{205f}'
    ||| c == '\u{3000}'
}

/// Tells whether `c` is white space.
pub fn white_space(c: char) -> (yes: bool)
    ensures
        yes == is_white_space(c),
{
    ('\u{9}' <= c && c <= '\u{d}') || c == '\u{20}' || c == '\u{85}' || c == '\u{a0}' || c == '\u{1680}'
        || ('\u{2000}' <= c && c <= '\u{200a}') || c == '\u{2028}' || c == '\u{2029}' || c == '\u{202f}'
        || c == '\u{205f}' || c == '\u{3000}'
}

/// `text` without the white space at its two ends.
pub open spec fn trimmed(text: Seq<char>) -> Seq<char>
    decreases text.len(),
{
    if text.len() == 0 {
        text
    } else if is_white_space(text.first()) {
        trimmed(text.drop_first())
    } else if is_white_space(text.last()) {
        trimmed(text.drop_last())
    } else {
        text
    }
}

/// Removes the white space at the two ends of `text`.
pub fn trim(text: &str) -> (short: String)
    ensures
        short@ == trimmed(text@),
{
    let chars = chars_of(text);
    let mut from: usize = 0;
    let mut to: usize = chars.len();
    assert(chars@.subrange(0, to as int) == text@);
    while from < to && white_space(chars[from])
        invariant
            from <= to == chars@.len(),
            chars@ == text@,
            trimmed(chars@.subrange(from as int, to as int)) == trimmed(text@),
        decreases to - from,
    {
        assert(chars@.subrange(from as int, to as int).drop_first() == chars@.subrange(
            from + 1,
            to as int,
        ));
        from += 1;
    }
    while from < to && white_space(chars[to - 1])
        invariant
            from <= to <= chars@.len(),
            from < to ==> !is_white_space(chars@[from as int]),
            trimmed(chars@.subrange(from as int, to as int)) == trimmed(text@),
        decreases to - from,
    {
        assert(chars@.subrange(from as int, to as int).drop_last() == chars@.subrange(
            from as int,
            to - 1,
        ));
        to -= 1;
    }
    slice_text(&chars, from, to)
}

/// What trimming leaves has no white space at its ends, and trimming it again
/// changes nothing.
pub proof fn trimmed_is_trim(text: Seq<char>)
    ensures
        trimmed(text).len() > 0 ==> !is_white_space(trimmed(text).first()) && !is_white_space(
            trimmed(text).last(),
        ),
        trimmed(trimmed(text)) == trimmed(text),
        trimmed(text).len() <= text.len(),
    decreases text.len(),
{
    if text.len() == 0 {
    } else if is_white_space(text.first()) {
        trimmed_is_trim(text.drop_first());
    } else if is_white_space(text.last()) {
        trimmed_is_trim(text.drop_last());
    }
}

/// The lower-case form of an ASCII letter; any other character as it is.
pub open spec fn ascii_lower_char(c: char) -> char {
    if 'A' <= c <= 'Z' {
        ((c as u8 + 32) as u8) as char
    } else {
        c
    }
}

/// `text` with its ASCII letters in lower case.
pub open spec fn ascii_lowered(text: Seq<char>) -> Seq<char> {
    Seq::new(text.len(), |i: int| ascii_lower_char(text[i]))
}

/// Puts the ASCII letters of `text` in lower case.
pub fn ascii_lower(text: &str) -> (lower: String)
    ensures
        lower@ == ascii_lowered(text@),
{
    let chars = chars_of(text);
    let mut lower = String::new();
    let mut i: usize = 0;
    while i < chars.len()
        invariant
            i <= chars@.len(),
            chars@ == text@,
            lower@ == ascii_lowered(text@).take(i as int),
        decreases chars@.len() - i,
    {
        let c = chars[i];
        if 'A' <= c && c <= 'Z' {
            lower.push(((c as u8) + 32) as char);
        } else {
            lower.push(c);
        }
        i += 1;
        assert(ascii_lowered(text@).take(i as int) == ascii_lowered(text@).take(i - 1).push(
            ascii_lower_char(text@[i - 1]),
        ));
    }
    assert(ascii_lowered(text@).take(text@.len() as int) == ascii_lowered(text@));
    lower
}

/// `part` stands in `text` at position `at`.
pub open spec fn occurs_at(text: Seq<char>, part: Seq<char>, at: int) -> bool {
    0 <= at && at + part.len() <= text.len() && text.subrange(at, at + part.len()) == part
}

/// `part` stands somewhere in `text`.
pub open spec fn occurs_in(text: Seq<char>, part: Seq<char>) -> bool {
    exists|at: int| occurs_at(text, part, at)
}

/// Tells whether `part` stands in `chars` at position `at`.
fn stands_at(chars: &Vec<char>, part: &Vec<char>, at: usize) -> (yes: bool)
    requires
        at + part@.len() <= chars@.len(),
    ensures
        yes == occurs_at(chars@, part@, at as int),
{
    let mut i: usize = 0;
    while i < part.len()
        invariant
            i <= part@.len(),
            at + part.len() <= chars.len(),
            forall|j: int| 0 <= j < i ==> chars@[at + j] == part@[j],
        decreases part@.len() - i,
    {
        if chars[at + i] != part[i] {
            assert(chars@.subrange(at as int, at + part@.len())[i as int] != part@[i as int]);
            return false;
        }
        i += 1;
    }
    assert(chars@.subrange(at as int, at + part@.len()) == part@);
    true
}

/// Tells whether `part` stands somewhere in `text`.
pub fn contains(text: &str, part: &str) -> (yes: bool)
    ensures
        yes == occurs_in(text@, part@),
{
    let chars = chars_of(text);
    let wanted = chars_of(part);
    if wanted.len() > chars.len() {
        return false;
    }
    let last: usize = chars.len() - wanted.len();
    let mut at: usize = 0;
    while at <= last
        invariant
            chars@ == text@,
            wanted@ == part@,
            last == chars@.len() - wanted@.len(),
            at <= last + 1,
            forall|j: int| 0 <= j < at ==> !occurs_at(text@, part@, j),
        decreases last + 1 - at,
    {
        if stands_at(&chars, &wanted, at) {
            return true;
        }
        if at == last {
            return false;
        }
        at += 1;
    }
    false
}

/// Writes three texts one after the other.
pub fn concat3(first: &str, second: &str, third: &str) -> (text: String)
    ensures
        text@ == first@ + second@ + third@,
{
    let mut text = first.to_owned();
    text.append(second);
    text.append(third);
    text
}

/// Tells whether two texts are the same.
pub fn same(text: &str, other: &str) -> (yes: bool)
    ensures
        yes == (text@ == other@),
{
    text.to_owned() == other.to_owned()
}

/// Tells whether `text` ends with `part`.
pub fn ends_with(text: &str, part: &str) -> (yes: bool)
    ensures
        yes == part@.is_suffix_of(text@),
{
    let chars = chars_of(text);
    let wanted = chars_of(part);
    if wanted.len() > chars.len() {
        return false;
    }
    let at: usize = chars.len() - wanted.len();
    stands_at(&chars, &wanted, at)
}

/// How many characters of `text` stand before the first `a` or `b`; all of them
/// where it holds neither.
pub open spec fn run_before(text: Seq<char>, a: char, b: char) -> nat
    decreases text.len(),
{
    if text.len() == 0 || text.first() == a || text.first() == b {
        0
    } else {
        1 + run_before(text.drop_first(), a, b)
    }
}

/// The part of `text` before the first `a` or `b`.
pub open spec fn before(text: Seq<char>, a: char, b: char) -> Seq<char> {
    text.take(run_before(text, a, b) as int)
}

/// `run_before` is the length of a run that holds neither stop and that a stop or
/// the end of the text follows.
pub proof fn run_before_is_run(text: Seq<char>, a: char, b: char)
    ensures
        run_before(text, a, b) <= text.len(),
        forall|i: int| 0 <= i < run_before(text, a, b) ==> text[i] != a && text[i] != b,
        run_before(text, a, b) < text.len() ==> {
            let stop = text[run_before(text, a, b) as int];
            stop == a || stop == b
        },
    decreases text.len(),
{
    if text.len() == 0 || text.first() == a || text.first() == b {
    } else {
        let rest = text.drop_first();
        run_before_is_run(rest, a, b);
        assert forall|i: int| 0 <= i < run_before(text, a, b) implies text[i] != a && text[i]
            != b by {
            if i > 0 {
                assert(text[i] == rest[i - 1]);
            }
        }
    }
}

/// Counts the characters of `chars[from..]` before the first `a` or `b`.
pub fn count_before(chars: &Vec<char>, from: usize, a: char, b: char) -> (count: usize)
    requires
        from <= chars@.len(),
    ensures
        count == run_before(chars@.skip(from as int), a, b),
        from + count <= chars.len(),
{
    let mut i: usize = from;
    while i < chars.len() && chars[i] != a && chars[i] != b
        invariant
            from <= i <= chars@.len(),
            run_before(chars@.skip(from as int), a, b) == (i - from) + run_before(
                chars@.skip(i as int),
                a,
                b,
            ),
        decreases chars@.len() - i,
    {
        assert(chars@.skip(i as int).drop_first() == chars@.skip(i + 1));
        i += 1;
    }
    i - from
}

/// A run that holds neither stop is all of what stands before a stop that follows
/// it, or before the end.
pub proof fn run_before_of_run(run: Seq<char>, tail: Seq<char>, a: char, b: char)
    requires
        forall|i: int| 0 <= i < run.len() ==> run[i] != a && run[i] != b,
        tail.len() > 0 ==> tail.first() == a || tail.first() == b,
    ensures
        run_before(run + tail, a, b) == run.len(),
        before(run + tail, a, b) == run,
    decreases run.len(),
{
    if run.len() == 0 {
        assert(run + tail == tail);
    } else {
        assert((run + tail).drop_first() == run.drop_first() + tail);
        run_before_of_run(run.drop_first(), tail, a, b);
    }
    assert((run + tail).take(run.len() as int) == run);
}

/// Cuts `text` off at the first `a` or `b`.
pub fn cut_before(text: &str, a: char, b: char) -> (head: String)
    ensures
        head@ == before(text@, a, b),
{
    let chars = chars_of(text);
    let count = count_before(&chars, 0, a, b);
    assert(chars@.skip(0) == text@);
    slice_text(&chars, 0, count)
}

/// The character of a decimal digit.
pub open spec fn digit_char(d: nat) -> char {
    (('0' as u8 + d) as u8) as char
}

/// `n` in decimal, without leading zeros.
pub open spec fn decimal(n: nat) -> Seq<char>
    decreases n,
{
    if n < 10 {
        seq![digit_char(n)]
    } else {
        decimal(n / 10).push(digit_char(n % 10))
    }
}

/// Writes `n` in decimal.
pub fn write_decimal(n: usize) -> (text: String)
    ensures
        text@ == decimal(n as nat),
    decreases n,
{
    let digit: char = (48u8 + (n % 10) as u8) as char;
    if n < 10 {
        let mut text = String::new();
        text.push(digit);
        assert(text@ == seq![digit_char(n as nat)]);
        text
    } else {
        let mut text = write_decimal(n / 10);
        text.push(digit);
        text
    }
}

/// `count` spaces.
pub open spec fn spaces(count: nat) -> Seq<char> {
    Seq::new(count, |i: int| ' ')
}

/// The spaces that fill `text` up to `width` characters.
pub open spec fn fill(text: Seq<char>, width: nat) -> Seq<char> {
    spaces((if text.len() < width { width - text.len() } else { 0 }) as nat)
}

/// `text` followed by spaces up to `width` characters.
pub open spec fn padded_right(text: Seq<char>, width: nat) -> Seq<char> {
    text + fill(text, width)
}

/// `text` preceded by spaces up to `width` characters.
pub open spec fn padded_left(text: Seq<char>, width: nat) -> Seq<char> {
    fill(text, width) + text
}

/// Writes the spaces that fill `text` up to `width` characters.
fn write_fill(text: &str, width: usize) -> (blank: String)
    ensures
        blank@ == fill(text@, width as nat),
{
    let used = text.unicode_len();
    let mut blank = String::new();
    let mut i: usize = used;
    while i < width
        invariant
            used <= i,
            i <= width || i == used,
            blank@ == spaces((i - used) as nat),
        decreases width - i,
    {
        blank.push(' ');
        i += 1;
        assert(spaces((i - used) as nat) == spaces((i - 1 - used) as nat).push(' '));
    }
    blank
}

/// Fills `text` up with spaces on its right.
pub fn pad_right(text: &str, width: usize) -> (padded: String)
    ensures
        padded@ == padded_right(text@, width as nat),
{
    let mut padded = text.to_owned();
    padded.append(write_fill(text, width).as_str());
    padded
}

/// Fills `text` up with spaces on its left.
pub fn pad_left(text: &str, width: usize) -> (padded: String)
    ensures
        padded@ == padded_left(text@, width as nat),
{
    let mut padded = write_fill(text, width);
    padded.append(text);
    padded
}

/// The texts of `list` with `separator` between each two.
pub open spec fn joined(list: Seq<Seq<char>>, separator: Seq<char>) -> Seq<char>
    decreases list.len(),
{
    if list.len() == 0 {
        seq![]
    } else if list.len() == 1 {
        list[0]
    } else {
        joined(list.drop_last(), separator) + separator + list.last()
    }
}

/// Joins the texts of `list` with `separator` between each two.
pub fn join(list: &Vec<String>, separator: &str) -> (text: String)
    ensures
        text@ == joined(views(list@), separator@),
{
    let mut text = String::new();
    let mut i: usize = 0;
    while i < list.len()
        invariant
            i <= list@.len(),
            text@ == joined(views(list@).take(i as int), separator@),
        decreases list@.len() - i,
    {
        if i > 0 {
            text.append(separator);
        }
        text.append(list[i].as_str());
        i += 1;
        assert(views(list@).take(i as int).drop_last() == views(list@).take(i - 1));
        if i == 1 {
            assert(text@ == list@[0]@);
        }
    }
    assert(views(list@).take(list@.len() as int) == views(list@));
    text
}

/// A copy of `list`.
pub fn copy_texts(list: &Vec<String>) -> (copy: Vec<String>)
    ensures
        views(copy@) == views(list@),
{
    let mut copy: Vec<String> = Vec::new();
    let mut i: usize = 0;
    while i < list.len()
        invariant
            i <= list@.len(),
            views(copy@) == views(list@).take(i as int),
        decreases list@.len() - i,
    {
        copy.push(list[i].clone());
        i += 1;
        assert(views(list@).take(i as int) == views(list@).take(i - 1).push(list@[i - 1]@));
        assert(views(copy@) == views(copy@.drop_last()).push(copy@.last()@));
    }
    assert(views(list@).take(list@.len() as int) == views(list@));
    copy
}

/// What `str::to_lowercase` of the standard library makes of a text.
pub uninterp spec fn lowercased(text: Seq<char>) -> Seq<char>;

/// Calls `str::to_lowercase` of the standard library. Its result is a function of
/// the text; on a text of ASCII characters it puts the letters `A` to `Z` in lower
/// case and changes nothing else. What it makes of other characters is Unicode's
/// case mapping and is only named here.
#[verifier::external_body]
pub(crate) fn lowercase(text: &str) -> (lower: String)
    ensures
        lower@ == lowercased(text@),
        is_ascii_chars(text@) ==> lower@ == ascii_lowered(text@),
{
    text.to_lowercase()
}

/// Calls `String::from_utf8` of the standard library: it succeeds exactly on bytes
/// that are valid UTF-8, and gives the text that they encode.
#[verifier::external_body]
pub(crate) fn utf8_text(bytes: Vec<u8>) -> (text: Option<String>)
    ensures
        text is Some <==> valid_utf8(bytes@),
        text is Some ==> text->0@ == decode_utf8(bytes@),
{
    String::from_utf8(bytes).ok()
}

/// What `String::from_utf8_lossy` of the standard library makes of bytes.
pub uninterp spec fn lossy_text_of(bytes: Seq<u8>) -> Seq<char>;

/// Calls `String::from_utf8_lossy` of the standard library. Its result is a function
/// of the bytes: the text that they encode, where they are valid UTF-8. Where they are
/// not, replacement characters stand for what is not; where exactly is only named here.
#[verifier::external_body]
pub(crate) fn lossy_text(bytes: &Vec<u8>) -> (text: String)
    ensures
        text@ == lossy_text_of(bytes@),
        valid_utf8(bytes@) ==> text@ == decode_utf8(bytes@),
{
    String::from_utf8_lossy(bytes).into_owned()
}

} // verus!
