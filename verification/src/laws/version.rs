//! What version numbers and release tags mean.
use crate::laws::text::decimal_has_its_value;
use crate::precedence::{fields_order, prerelease_of, text_order, version_order, Order};
use crate::text::{
    before, decimal, is_white_space, run_before, run_before_is_run, run_before_of_run, trimmed,
};
use crate::version::{
    comes_after, core_of, digits_value, dotted_part, is_digit, number, stripped,
    suffixes_are_ignored, unsigned, Triple,
};
use vstd::prelude::*;

verus! {

/// White space around a tag does not count.
pub proof fn space_around_a_tag_does_not_count(tag: Seq<char>)
    ensures
        stripped(trimmed(tag)) == stripped(tag),
{
    crate::text::trimmed_is_trim(tag);
}

/// A part of a version number: it holds none of the signs that divide versions.
pub open spec fn is_part(part: Seq<char>) -> bool {
    forall|i: int|
        0 <= i < part.len() ==> (#[trigger] part[i]) != '.' && part[i] != '-' && part[i] != '+'
}

/// What a part of a version number counts as: the number that it holds, white space
/// around it left out, or 0.
pub open spec fn counts_as(part: Seq<char>) -> nat {
    match number(trimmed(part)) {
        Some(value) => value,
        None => 0,
    }
}

/// The part in front of a dot, or of the end, is the first, and the parts behind the dot
/// come after it.
proof fn first_part(part: Seq<char>, rest: Seq<char>, n: nat)
    requires
        is_part(part),
        rest.len() > 0 ==> rest.first() == '.',
    ensures
        dotted_part(part + rest, 0) == Some(part),
        rest.len() > 0 ==> dotted_part(part + rest, n + 1) == dotted_part(rest.drop_first(), n),
        rest.len() == 0 ==> dotted_part(part + rest, n + 1) is None,
{
    run_before_of_run(part, rest, '.', '.');
    if rest.len() > 0 {
        assert((part + rest).skip(part.len() as int + 1) == rest.drop_first());
    }
}

/// A text without suffix is all core.
proof fn all_is_core(text: Seq<char>)
    requires
        forall|i: int| 0 <= i < text.len() ==> (#[trigger] text[i]) != '-' && text[i] != '+',
    ensures
        before(text, '-', '+') == text,
{
    let none = Seq::<char>::empty();
    run_before_of_run(text, none, '-', '+');
    assert(text + none == text);
}

/// The major number of a version stands in front of its first dot; what is missing behind
/// it counts as 0.
pub proof fn first_number_is_the_major_one(major: Seq<char>)
    requires
        is_part(major),
    ensures
        core_of(major) == (Triple { major: counts_as(major), minor: 0, patch: 0 }),
{
    let none = Seq::<char>::empty();
    all_is_core(major);
    first_part(major, none, 0);
    first_part(major, none, 1);
    assert(major + none == major);
}

/// The minor number of a version stands behind its first dot.
pub proof fn second_number_is_the_minor_one(major: Seq<char>, minor: Seq<char>)
    requires
        is_part(major),
        is_part(minor),
    ensures
        core_of(major + seq!['.'] + minor) == (Triple {
            major: counts_as(major),
            minor: counts_as(minor),
            patch: 0,
        }),
{
    let none = Seq::<char>::empty();
    let rest = seq!['.'] + minor;
    let all = major + seq!['.'] + minor;
    assert(all =~= major + rest);
    all_is_core(all);
    first_part(major, rest, 0);
    first_part(major, rest, 1);
    assert(rest.drop_first() =~= minor);
    first_part(minor, none, 0);
    assert(minor + none == minor);
}

/// The patch of a version stands behind its second dot, and what stands behind a third
/// does not count.
pub proof fn third_number_is_the_patch(
    major: Seq<char>,
    minor: Seq<char>,
    patch: Seq<char>,
    more: Seq<char>,
)
    requires
        is_part(major),
        is_part(minor),
        is_part(patch),
        more.len() > 0 ==> more.first() == '.',
        forall|i: int| 0 <= i < more.len() ==> (#[trigger] more[i]) != '-' && more[i] != '+',
    ensures
        core_of(major + seq!['.'] + minor + seq!['.'] + patch + more) == (Triple {
            major: counts_as(major),
            minor: counts_as(minor),
            patch: counts_as(patch),
        }),
{
    let all = major + seq!['.'] + minor + seq!['.'] + patch + more;
    let tail = patch + more;
    let patch_on = seq!['.'] + tail;
    let middle = minor + patch_on;
    let rest = seq!['.'] + middle;
    assert(all =~= major + rest);
    all_is_core(all);
    first_part(major, rest, 0);
    first_part(major, rest, 1);
    assert(rest.drop_first() =~= middle);
    first_part(minor, patch_on, 0);
    assert(patch_on.drop_first() =~= tail);
    first_part(patch, more, 0);
}

/// A digit is no white space and no plus sign.
proof fn digits_are_not_white(text: Seq<char>)
    requires
        text.len() > 0,
        forall|i: int| 0 <= i < text.len() ==> is_digit(#[trigger] text[i]),
    ensures
        trimmed(text) == text,
        unsigned(text) == text,
{
    assert(is_digit(text[0]) && is_digit(text[text.len() - 1]));
    assert(!is_white_space(text.first()) && !is_white_space(text.last()));
}

/// A number that is written in decimal is read as it is, unless 64 bits do not hold it:
/// then it counts as 0.
pub proof fn numbers_are_read_as_written(n: nat)
    ensures
        n <= u64::MAX ==> counts_as(decimal(n)) == n,
        n > u64::MAX ==> counts_as(decimal(n)) == 0,
        is_part(decimal(n)),
{
    decimal_has_its_value(n);
    digits_are_not_white(decimal(n));
    assert(forall|i: int| 0 <= i < decimal(n).len() ==> is_digit(decimal(n)[i]));
    assert forall|i: int| 0 <= i < decimal(n).len() implies (#[trigger] decimal(n)[i]) != '.'
        && decimal(n)[i] != '-' && decimal(n)[i] != '+' by {
        assert(is_digit(decimal(n)[i]));
    }
}

/// White space around a number does not count.
pub proof fn space_around_a_number_does_not_count(part: Seq<char>)
    ensures
        counts_as(trimmed(part)) == counts_as(part),
{
    crate::text::trimmed_is_trim(part);
}

/// Zeros in front of a number do not count.
pub proof fn zeros_in_front_do_not_count(part: Seq<char>)
    requires
        part.len() > 0,
        forall|i: int| 0 <= i < part.len() ==> is_digit(#[trigger] part[i]),
    ensures
        counts_as(seq!['0'] + part) == counts_as(part),
{
    let longer = seq!['0'] + part;
    assert forall|i: int| 0 <= i < longer.len() implies is_digit(#[trigger] longer[i]) by {
        if i > 0 {
            assert(longer[i] == part[i - 1]);
        }
    }
    digits_are_not_white(part);
    digits_are_not_white(longer);
    leading_zero_does_not_count(part);
    assert(forall|i: int| 0 <= i < part.len() ==> is_digit(part[i]));
    assert(forall|i: int| 0 <= i < longer.len() ==> is_digit(longer[i]));
}

/// What holds anything but digits, or nothing, counts as 0.
pub proof fn no_number_counts_as_zero(part: Seq<char>)
    requires
        is_part(part),
        trimmed(part).len() == 0 || exists|i: int|
            0 <= i < trimmed(part).len() && !is_digit(#[trigger] trimmed(part)[i]),
    ensures
        counts_as(part) == 0,
{
    let short = trimmed(part);
    if short.len() > 0 {
        let (front, back) = crate::laws::text::trimming_leaves_the_middle(part);
        assert(short[0] == part[front.len() as int]);
        assert(unsigned(short) == short);
        assert(number(short) is None);
    }
}

/// A zero in front of a row of digits does not count.
proof fn leading_zero_does_not_count(digits: Seq<char>)
    ensures
        digits_value(seq!['0'] + digits) == digits_value(digits),
    decreases digits.len(),
{
    let longer = seq!['0'] + digits;
    if digits.len() == 0 {
        reveal_with_fuel(digits_value, 2);
        assert(longer.drop_last() == Seq::<char>::empty());
    } else {
        assert(longer.drop_last() == seq!['0'] + digits.drop_last());
        leading_zero_does_not_count(digits.drop_last());
    }
}

/// A version is newer exactly where the first of its numbers that differs is greater.
pub proof fn greater_number_is_newer(a: Triple, b: Triple)
    ensures
        a.major > b.major ==> comes_after(a, b),
        a.major < b.major ==> !comes_after(a, b),
        a.major == b.major && a.minor > b.minor ==> comes_after(a, b),
        a.major == b.major && a.minor < b.minor ==> !comes_after(a, b),
        a.major == b.major && a.minor == b.minor ==> (comes_after(a, b) <==> a.patch > b.patch),
{
}

/// Of two prereleases of one version the first field that differs decides.
pub open spec fn after_dash(core: Seq<char>, suffix: Seq<char>) -> Seq<char> {
    core + seq!['-'] + suffix
}

/// The prerelease suffix of a version is what follows its first dash.
pub proof fn prerelease_is_what_follows_the_dash(core: Seq<char>, suffix: Seq<char>)
    requires
        forall|i: int| 0 <= i < core.len() ==> core[i] != '-' && core[i] != '+',
        forall|i: int| 0 <= i < suffix.len() ==> suffix[i] != '+',
    ensures
        prerelease_of(after_dash(core, suffix)) == Some(suffix),
        core_of(after_dash(core, suffix)) == core_of(core),
{
    let none = Seq::<char>::empty();
    let all = after_dash(core, suffix);
    run_before_of_run(all, none, '+', '+');
    assert(all + none == all);
    let tail = seq!['-'] + suffix;
    assert(all == core + tail);
    run_before_of_run(core, tail, '-', '-');
    assert(all.skip(core.len() as int + 1) == suffix);
    suffixes_are_ignored(core, tail);
}

/// A build suffix, which a plus sign begins, counts for nothing.
pub proof fn build_suffix_does_not_count(version: Seq<char>, build: Seq<char>, other: Seq<char>)
    requires
        forall|i: int| 0 <= i < version.len() ==> version[i] != '+',
    ensures
        prerelease_of(version + seq!['+'] + build) == prerelease_of(version),
        core_of(version + seq!['+'] + build) == core_of(version),
        version_order(version + seq!['+'] + build, other) == version_order(version, other),
        version_order(other, version + seq!['+'] + build) == version_order(other, version),
{
    let none = Seq::<char>::empty();
    let tail = seq!['+'] + build;
    let all = version + tail;
    assert(version + seq!['+'] + build == all);
    run_before_of_run(version, tail, '+', '+');
    run_before_of_run(version, none, '+', '+');
    assert(version + none == version);
    run_before_is_run(version, '-', '+');
    let core = run_before(version, '-', '+') as int;
    if core < version.len() {
        let front = version.take(core);
        assert(version == front + version.skip(core));
        assert(all == front + (version.skip(core) + tail));
        suffixes_are_ignored(front, version.skip(core));
        suffixes_are_ignored(front, version.skip(core) + tail);
    } else {
        assert(version.take(core) == version);
        suffixes_are_ignored(version, tail);
    }
}

/// Prereleases of one version are ordered by their suffixes.
pub proof fn prereleases_go_by_their_suffix(core: Seq<char>, a: Seq<char>, b: Seq<char>)
    requires
        forall|i: int| 0 <= i < core.len() ==> core[i] != '-' && core[i] != '+',
        forall|i: int| 0 <= i < a.len() ==> a[i] != '+',
        forall|i: int| 0 <= i < b.len() ==> b[i] != '+',
    ensures
        version_order(after_dash(core, a), after_dash(core, b)) == fields_order(a, b),
{
    prerelease_is_what_follows_the_dash(core, a);
    prerelease_is_what_follows_the_dash(core, b);
}

/// A field of a suffix holds no dot.
pub open spec fn is_field(field: Seq<char>) -> bool {
    forall|i: int| 0 <= i < field.len() ==> (#[trigger] field[i]) != '.'
}

/// Fields that hold numbers are ordered by their value and come before all others, which
/// are ordered character by character; a suffix comes before one that continues it, and
/// fields in front that are the same do not count.
pub proof fn fields_go_one_by_one(
    n: nat,
    m: nat,
    word: Seq<char>,
    other: Seq<char>,
    a: Seq<char>,
    b: Seq<char>,
)
    requires
        is_field(word),
        is_field(other),
        !crate::precedence::is_numeric(word),
        !crate::precedence::is_numeric(other),
    ensures
        n < m ==> fields_order(decimal(n), decimal(m)) == Order::Before,
        n > m ==> fields_order(decimal(n), decimal(m)) == Order::After,
        fields_order(decimal(n), word) == Order::Before,
        fields_order(word, decimal(n)) == Order::After,
        fields_order(word, other) == text_order(word, other),
        fields_order(word, word + seq!['.'] + a) == Order::Before,
        fields_order(word + seq!['.'] + a, word) == Order::After,
        fields_order(word + seq!['.'] + a, word + seq!['.'] + b) == fields_order(a, b),
{
    let none = Seq::<char>::empty();
    decimal_has_its_value(n);
    decimal_has_its_value(m);
    assert(is_field(decimal(n)) && is_field(decimal(m)));
    run_before_of_run(decimal(n), none, '.', '.');
    run_before_of_run(decimal(m), none, '.', '.');
    run_before_of_run(word, none, '.', '.');
    run_before_of_run(other, none, '.', '.');
    assert(decimal(n) + none == decimal(n) && decimal(m) + none == decimal(m));
    assert(word + none == word && other + none == other);
    assert(crate::precedence::is_numeric(decimal(n)) && crate::precedence::is_numeric(decimal(m)));
    let tail_a = seq!['.'] + a;
    let tail_b = seq!['.'] + b;
    assert(word + seq!['.'] + a == word + tail_a);
    assert(word + seq!['.'] + b == word + tail_b);
    run_before_of_run(word, tail_a, '.', '.');
    run_before_of_run(word, tail_b, '.', '.');
    assert((word + tail_a).skip(word.len() as int + 1) == a);
    assert((word + tail_b).skip(word.len() as int + 1) == b);
    same_text_is_same(word);
}

/// A text stands to itself as the same.
proof fn same_text_is_same(text: Seq<char>)
    ensures
        text_order(text, text) == Order::Same,
    decreases text.len(),
{
    if text.len() > 0 {
        same_text_is_same(text.drop_first());
    }
}

/// Texts are ordered by the first character in which they differ, and a text comes before
/// one that continues it.
pub proof fn texts_go_by_their_first_difference(
    front: Seq<char>,
    x: char,
    y: char,
    a: Seq<char>,
    b: Seq<char>,
)
    ensures
        x < y ==> text_order(front + seq![x] + a, front + seq![y] + b) == Order::Before,
        x > y ==> text_order(front + seq![x] + a, front + seq![y] + b) == Order::After,
        text_order(front, front + seq![x] + a) == Order::Before,
        text_order(front + seq![x] + a, front) == Order::After,
        text_order(front, front) == Order::Same,
    decreases front.len(),
{
    let left = front + seq![x] + a;
    let right = front + seq![y] + b;
    if front.len() > 0 {
        let rest = front.drop_first();
        assert(left.drop_first() == rest + seq![x] + a);
        assert(right.drop_first() == rest + seq![y] + b);
        texts_go_by_their_first_difference(rest, x, y, a, b);
    } else {
        assert(left[0] == x && right[0] == y);
    }
}

} // verus!
