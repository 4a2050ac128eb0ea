//! Version numbers: release tags, their numeric core, and their order.
use crate::text::{
    before, chars_of, count_before, cut_before, is_white_space, run_before, run_before_of_run,
    slice_text, trim, trimmed,
};
use vstd::prelude::*;

verus! {

/// The version that a release tag names: the tag without surrounding white space
/// and without one leading `v` or `V`.
pub open spec fn stripped(tag: Seq<char>) -> Seq<char> {
    let bare = trimmed(tag);
    if bare.len() > 0 && (bare.first() == 'v' || bare.first() == 'V') {
        bare.drop_first()
    } else {
        bare
    }
}

/// Takes the bare version out of a release tag such as `v1.2.3` or `1.2.3`.
pub fn strip_tag(tag: &str) -> (version: String)
    ensures
        version@ == stripped(tag@),
{
    let bare = trim(tag);
    let chars = chars_of(bare.as_str());
    if chars.len() > 0 && (chars[0] == 'v' || chars[0] == 'V') {
        let version = slice_text(&chars, 1, chars.len());
        assert(version@ == bare@.drop_first());
        version
    } else {
        bare
    }
}

/// `c` is one of the digits `0` to `9`.
pub open spec fn is_digit(c: char) -> bool {
    '0' <= c <= '9'
}

/// The number that a row of decimal digits stands for.
pub open spec fn digits_value(digits: Seq<char>) -> nat
    decreases digits.len(),
{
    if digits.len() == 0 {
        0
    } else {
        digits_value(digits.drop_last()) * 10 + (digits.last() as u32 - '0' as u32) as nat
    }
}

/// The digits of a number that may have a plus sign.
pub open spec fn unsigned(text: Seq<char>) -> Seq<char> {
    if text.len() > 0 && text.first() == '+' {
        text.drop_first()
    } else {
        text
    }
}

/// The number that `text` writes: an optional plus sign and at least one digit, of
/// a value that 64 bits hold; any other text is no number.
pub open spec fn number(text: Seq<char>) -> Option<nat> {
    let digits = unsigned(text);
    if digits.len() > 0 && (forall|i: int| 0 <= i < digits.len() ==> is_digit(digits[i]))
        && digits_value(digits) <= u64::MAX {
        Some(digits_value(digits))
    } else {
        None
    }
}

/// A row of digits stands for at least the number that its first ones stand for.
proof fn digits_value_grows(digits: Seq<char>, count: int)
    requires
        0 <= count <= digits.len(),
        forall|i: int| 0 <= i < digits.len() ==> is_digit(digits[i]),
    ensures
        digits_value(digits.take(count)) <= digits_value(digits),
    decreases digits.len() - count,
{
    if count < digits.len() {
        digits_value_grows(digits, count + 1);
        assert(digits.take(count + 1).drop_last() == digits.take(count));
    } else {
        assert(digits.take(count) == digits);
    }
}

/// Reads a number.
pub fn parse_number(text: &str) -> (value: Option<u64>)
    ensures
        match value {
            Some(n) => number(text@) == Some(n as nat),
            None => number(text@) is None,
        },
{
    let chars = chars_of(text);
    let start: usize = if chars.len() > 0 && chars[0] == '+' {
        1
    } else {
        0
    };
    let ghost digits = unsigned(text@);
    assert(digits == chars@.skip(start as int));
    if start == chars.len() {
        return None;
    }
    let mut value: u64 = 0;
    let mut i: usize = start;
    while i < chars.len()
        invariant
            start <= i <= chars@.len(),
            start <= 1,
            start < chars@.len(),
            chars@ == text@,
            digits == unsigned(text@),
            digits == chars@.skip(start as int),
            forall|j: int| 0 <= j < i - start ==> is_digit(digits[j]),
            value == digits_value(digits.take(i - start)),
        decreases chars@.len() - i,
    {
        let c = chars[i];
        assert(digits[i - start] == c);
        if c < '0' || c > '9' {
            return None;
        }
        let digit: u64 = (c as u32 - '0' as u32) as u64;
        assert(digits.take(i - start + 1).drop_last() == digits.take(i - start));
        assert(digits_value(digits.take(i - start + 1)) == value * 10 + digit);
        proof {
            if forall|j: int| 0 <= j < digits.len() ==> is_digit(digits[j]) {
                digits_value_grows(digits, i - start + 1);
            }
        }
        if value > (u64::MAX - digit) / 10 {
            assert(value * 10 + digit > u64::MAX);
            return None;
        }
        value = value * 10 + digit;
        i += 1;
    }
    assert(digits.take(digits.len() as int) == digits);
    Some(value)
}

/// Three numbers, the most significant first.
pub struct Triple {
    pub major: nat,
    pub minor: nat,
    pub patch: nat,
}

/// Part number `n` of a text that dots divide.
pub open spec fn dotted_part(text: Seq<char>, n: nat) -> Option<Seq<char>>
    decreases n,
{
    if n == 0 {
        Some(before(text, '.', '.'))
    } else if run_before(text, '.', '.') < text.len() {
        dotted_part(text.skip(run_before(text, '.', '.') as int + 1), (n - 1) as nat)
    } else {
        None
    }
}

/// The number in part `n` of a text that dots divide; 0 where there is no such
/// part or no number in it.
pub open spec fn dotted_number(text: Seq<char>, n: nat) -> nat {
    match dotted_part(text, n) {
        Some(part) => match number(trimmed(part)) {
            Some(value) => value,
            None => 0,
        },
        None => 0,
    }
}

/// The numeric core X.Y.Z of a version: what stands before the first `-` or `+`,
/// read as three numbers that dots divide.
pub open spec fn core_of(version: Seq<char>) -> Triple {
    let core = before(version, '-', '+');
    Triple {
        major: dotted_number(core, 0),
        minor: dotted_number(core, 1),
        patch: dotted_number(core, 2),
    }
}

/// `a` comes after `b`: the first number in which they differ is greater in `a`.
pub open spec fn comes_after(a: Triple, b: Triple) -> bool {
    ||| a.major > b.major
    ||| a.major == b.major && a.minor > b.minor
    ||| a.major == b.major && a.minor == b.minor && a.patch > b.patch
}

/// Reads the part of `chars` that begins at `from`, and tells where the part after
/// it begins.
fn next_number(chars: &Vec<char>, from: Option<usize>) -> (read: (u64, Option<usize>))
    requires
        from is Some ==> from->0 <= chars@.len(),
    ensures
        from is None ==> read == (0u64, None::<usize>),
        from is Some ==> {
            let text = chars@.skip(from->0 as int);
            let run = run_before(text, '.', '.');
            &&& read.0 == dotted_number(text, 0)
            &&& read.1 is Some <==> run < text.len()
            &&& read.1 is Some ==> read.1->0 <= chars@.len() && chars@.skip(read.1->0 as int)
                == text.skip(run as int + 1)
        },
{
    match from {
        None => (0, None),
        Some(start) => {
            let count = count_before(chars, start, '.', '.');
            let part = slice_text(chars, start, start + count);
            assert(part@ == before(chars@.skip(start as int), '.', '.'));
            let value: u64 = match parse_number(trim(part.as_str()).as_str()) {
                Some(n) => n,
                None => 0,
            };
            if start + count < chars.len() {
                assert(chars@.skip(start as int).skip(count + 1) == chars@.skip(
                    start + count + 1,
                ));
                (value, Some(start + count + 1))
            } else {
                (value, None)
            }
        },
    }
}

/// Reads the numeric core X.Y.Z of a version.
pub fn triple(version: &str) -> (core: (u64, u64, u64))
    ensures
        core_of(version@) == (Triple {
            major: core.0 as nat,
            minor: core.1 as nat,
            patch: core.2 as nat,
        }),
{
    let head = cut_before(version, '-', '+');
    let chars = chars_of(head.as_str());
    assert(chars@.skip(0) == head@);
    let (major, second) = next_number(&chars, Some(0));
    let (minor, third) = next_number(&chars, second);
    let (patch, rest) = next_number(&chars, third);
    proof {
        reveal_with_fuel(dotted_part, 3);
    }
    (major, minor, patch)
}

/// Tells whether `latest` is a newer X.Y.Z than `current`.
pub fn is_newer(latest: &str, current: &str) -> (newer: bool)
    ensures
        newer == comes_after(core_of(latest@), core_of(current@)),
{
    let a = triple(latest);
    let b = triple(current);
    a.0 > b.0 || (a.0 == b.0 && (a.1 > b.1 || (a.1 == b.1 && a.2 > b.2)))
}

/// A version is at least `minimum`, by the numeric core X.Y.Z.
pub open spec fn suffices(version: Seq<char>, minimum: Seq<char>) -> bool {
    comes_after(core_of(version), core_of(minimum)) || core_of(version) == core_of(minimum)
}

/// Tells whether `version` is at least `minimum`, by the numeric core X.Y.Z.
pub fn is_at_least(version: &str, minimum: &str) -> (enough: bool)
    ensures
        enough == suffices(version@, minimum@),
{
    let a = triple(version);
    let b = triple(minimum);
    a.0 > b.0 || (a.0 == b.0 && (a.1 > b.1 || (a.1 == b.1 && a.2 >= b.2)))
}

/// "Newer" orders versions strictly: no version is newer than itself, of two
/// versions at most one is newer than the other, and what is newer than a newer
/// version is newer. Versions of which neither is newer have the same core.
pub proof fn newer_is_a_strict_order(a: Seq<char>, b: Seq<char>, c: Seq<char>)
    ensures
        !comes_after(core_of(a), core_of(a)),
        comes_after(core_of(a), core_of(b)) ==> !comes_after(core_of(b), core_of(a)),
        comes_after(core_of(a), core_of(b)) && comes_after(core_of(b), core_of(c))
            ==> comes_after(core_of(a), core_of(c)),
        !comes_after(core_of(a), core_of(b)) && !comes_after(core_of(b), core_of(a))
            ==> core_of(a) == core_of(b),
{
}

/// A version is at least the minimum exactly where the minimum is not newer.
pub proof fn at_least_is_not_older(version: Seq<char>, minimum: Seq<char>)
    ensures
        suffices(version, minimum) <==> !comes_after(core_of(minimum), core_of(version)),
{
}

/// A prerelease or build suffix does not count: it changes nothing in the order.
pub proof fn suffixes_are_ignored(core: Seq<char>, suffix: Seq<char>)
    requires
        forall|i: int| 0 <= i < core.len() ==> core[i] != '-' && core[i] != '+',
        suffix.len() > 0,
        suffix.first() == '-' || suffix.first() == '+',
    ensures
        core_of(core + suffix) == core_of(core),
{
    run_before_of_run(core, suffix, '-', '+');
    run_before_of_run(core, seq![], '-', '+');
    assert(core + Seq::<char>::empty() == core);
}

/// A tag names the same version with and without its leading `v` or `V`.
pub proof fn tag_prefix_names_the_version(version: Seq<char>)
    requires
        version.len() > 0 ==> !is_white_space(version.last()),
    ensures
        stripped(seq!['v'] + version) == version,
        stripped(seq!['V'] + version) == version,
        trimmed(version) == version && !(version.len() > 0 && (version.first() == 'v'
            || version.first() == 'V')) ==> stripped(version) == version,
{
    assert((seq!['v'] + version).drop_first() == version);
    assert((seq!['V'] + version).drop_first() == version);
}

} // verus!
