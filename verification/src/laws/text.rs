//! What the text operations make of a text.
use crate::text::{
    ascii_lower_char, ascii_lowered, decimal, digit_char, is_white_space, joined, occurs_at,
    occurs_in, padded_left, padded_right, trimmed, trimmed_is_trim,
};
use crate::version::{digits_value, is_digit};
use vstd::prelude::*;

verus! {

/// A text is all white space.
pub open spec fn all_white(text: Seq<char>) -> bool {
    forall|i: int| 0 <= i < text.len() ==> is_white_space(#[trigger] text[i])
}

/// Trimming leaves the middle of the text, takes nothing but white space from its two
/// ends, and all of that.
pub proof fn trimming_leaves_the_middle(text: Seq<char>) -> (ends: (Seq<char>, Seq<char>))
    ensures
        text == ends.0 + trimmed(text) + ends.1,
        all_white(ends.0),
        all_white(ends.1),
        trimmed(text).len() > 0 ==> !is_white_space(trimmed(text).first()) && !is_white_space(
            trimmed(text).last(),
        ),
    decreases text.len(),
{
    trimmed_is_trim(text);
    let none = Seq::<char>::empty();
    if text.len() == 0 {
        assert(text =~= none + text + none);
        (none, none)
    } else if is_white_space(text.first()) {
        let (front, back) = trimming_leaves_the_middle(text.drop_first());
        let longer = seq![text.first()] + front;
        white_rows_add_up(seq![text.first()], front);
        let short = trimmed(text.drop_first());
        assert(trimmed(text) == short);
        assert(text =~= seq![text.first()] + (front + short + back));
        assert(seq![text.first()] + (front + short + back) =~= longer + short + back);
        (longer, back)
    } else if is_white_space(text.last()) {
        let (front, back) = trimming_leaves_the_middle(text.drop_last());
        let longer = back + seq![text.last()];
        white_rows_add_up(back, seq![text.last()]);
        let short = trimmed(text.drop_last());
        assert(trimmed(text) == short);
        assert(text =~= (front + short + back) + seq![text.last()]);
        assert((front + short + back) + seq![text.last()] =~= front + short + longer);
        (front, longer)
    } else {
        assert(text =~= none + text + none);
        (none, none)
    }
}

/// White space after white space is white space.
proof fn white_rows_add_up(front: Seq<char>, back: Seq<char>)
    requires
        all_white(front),
        all_white(back),
    ensures
        all_white(front + back),
{
    let all = front + back;
    assert forall|i: int| 0 <= i < all.len() implies is_white_space(#[trigger] all[i]) by {
        if i < front.len() {
            assert(all[i] == front[i]);
        } else {
            assert(all[i] == back[i - front.len()]);
        }
    }
}

/// White space around a text that has none at its ends is what trimming takes away.
pub proof fn white_space_is_taken_away(front: Seq<char>, text: Seq<char>, back: Seq<char>)
    requires
        all_white(front),
        all_white(back),
        text.len() > 0 ==> !is_white_space(text.first()) && !is_white_space(text.last()),
    ensures
        trimmed(front + text + back) == text,
    decreases front.len() + back.len(),
{
    let all = front + text + back;
    if front.len() > 0 {
        let rest = front.drop_first();
        assert(all.first() == front[0]);
        assert(all.drop_first() =~= rest + text + back);
        assert(all_white(rest)) by {
            assert forall|i: int| 0 <= i < rest.len() implies is_white_space(#[trigger] rest[i]) by {
                assert(rest[i] == front[i + 1]);
            }
        }
        white_space_is_taken_away(rest, text, back);
    } else if back.len() > 0 {
        let rest = back.drop_last();
        assert(all.last() == back[back.len() - 1]);
        assert(all.drop_last() =~= front + text + rest);
        assert(all_white(rest)) by {
            assert forall|i: int| 0 <= i < rest.len() implies is_white_space(#[trigger] rest[i]) by {
                assert(rest[i] == back[i]);
            }
        }
        white_space_is_taken_away(front, text, rest);
        if text.len() == 0 {
            assert(all =~= back);
            if is_white_space(all.first()) {
                all_white_trims_to_nothing(all);
            }
        } else {
            assert(all.first() == text.first());
        }
    } else {
        assert(all =~= text);
    }
}

/// Nothing is left of white space.
proof fn all_white_trims_to_nothing(text: Seq<char>)
    requires
        all_white(text),
    ensures
        trimmed(text) == Seq::<char>::empty(),
    decreases text.len(),
{
    if text.len() > 0 {
        let rest = text.drop_first();
        assert(is_white_space(text[0]));
        assert forall|i: int| 0 <= i < rest.len() implies is_white_space(#[trigger] rest[i]) by {
            assert(rest[i] == text[i + 1]);
        }
        all_white_trims_to_nothing(rest);
    }
}

/// Lowering ASCII letters changes just the letters `A` to `Z`, each to the small letter
/// that stands in its place in the alphabet.
pub proof fn only_capital_letters_are_lowered(text: Seq<char>, i: int)
    requires
        0 <= i < text.len(),
    ensures
        ascii_lowered(text).len() == text.len(),
        'A' <= text[i] <= 'Z' ==> ascii_lowered(text)[i] as u32 - 'a' as u32 == text[i] as u32
            - 'A' as u32,
        !('A' <= text[i] <= 'Z') ==> ascii_lowered(text)[i] == text[i],
        ascii_lowered(ascii_lowered(text)) == ascii_lowered(text),
{
    let c = text[i];
    if 'A' <= c <= 'Z' {
        assert(c as u8 == c as u32);
    }
    assert forall|j: int| 0 <= j < text.len() implies ascii_lower_char(
        #[trigger] ascii_lowered(text)[j],
    ) == ascii_lowered(text)[j] by {
        let d = text[j];
        if 'A' <= d <= 'Z' {
            assert(d as u8 == d as u32);
        }
    }
    assert(ascii_lowered(ascii_lowered(text)) =~= ascii_lowered(text));
}

/// A part stands in every text that it is put into, and a text in which it stands is that
/// part with something in front of it and something behind it.
pub proof fn a_part_stands_in_what_holds_it(
    front: Seq<char>,
    part: Seq<char>,
    back: Seq<char>,
    text: Seq<char>,
)
    ensures
        occurs_in(front + part + back, part),
        occurs_in(text, part) ==> exists|a: Seq<char>, b: Seq<char>| text == #[trigger] (a + part
            + b),
{
    let whole = front + part + back;
    assert(whole.subrange(front.len() as int, (front.len() + part.len()) as int) =~= part);
    assert(occurs_at(whole, part, front.len() as int));
    if occurs_in(text, part) {
        let at = choose|at: int| occurs_at(text, part, at);
        let a = text.take(at);
        let b = text.skip(at + part.len());
        assert(text =~= a + part + b);
    }
}

/// A number in decimal is a row of digits that has its value, and begins with a zero only
/// where it is zero.
pub proof fn decimal_has_its_value(n: nat)
    ensures
        digits_value(decimal(n)) == n,
        decimal(n).len() > 0,
        forall|i: int| 0 <= i < decimal(n).len() ==> is_digit(#[trigger] decimal(n)[i]),
        decimal(n)[0] == '0' ==> n == 0,
        n < 10 ==> decimal(n).len() == 1,
    decreases n,
{
    reveal_with_fuel(digits_value, 2);
    if n < 10 {
        let one = decimal(n);
        assert(one.drop_last() =~= Seq::<char>::empty());
        assert(digit_char(n) as u32 == 48 + n);
    } else {
        decimal_has_its_value(n / 10);
        let all = decimal(n);
        assert(all.drop_last() =~= decimal(n / 10));
        assert(digit_char(n % 10) as u32 == 48 + n % 10);
        assert(all[0] == decimal(n / 10)[0]);
        assert forall|i: int| 0 <= i < all.len() implies is_digit(#[trigger] all[i]) by {
            if i < all.len() - 1 {
                assert(all[i] == decimal(n / 10)[i]);
            }
        }
    }
}

/// Padding fills a text up to its width with spaces, and never cuts it.
pub proof fn padding_fills_up_with_spaces(text: Seq<char>, width: nat)
    ensures
        padded_right(text, width).len() == if text.len() < width {
            width
        } else {
            text.len()
        },
        padded_left(text, width).len() == padded_right(text, width).len(),
        padded_right(text, width).take(text.len() as int) == text,
        forall|i: int|
            text.len() <= i < padded_right(text, width).len() ==> #[trigger] padded_right(
                text,
                width,
            )[i] == ' ',
        padded_left(text, width).skip(padded_left(text, width).len() - text.len()) == text,
        forall|i: int|
            0 <= i < padded_left(text, width).len() - text.len() ==> #[trigger] padded_left(
                text,
                width,
            )[i] == ' ',
{
    assert(padded_right(text, width).take(text.len() as int) =~= text);
    assert(padded_left(text, width).skip(padded_left(text, width).len() - text.len()) =~= text);
}

/// Joining two lists puts the separator between what each of them joins to; a single text
/// joins to itself, and no text to nothing.
pub proof fn joining_puts_the_separator_between(
    front: Seq<Seq<char>>,
    back: Seq<Seq<char>>,
    text: Seq<char>,
    separator: Seq<char>,
)
    requires
        front.len() > 0,
        back.len() > 0,
    ensures
        joined(front + back, separator) == joined(front, separator) + separator + joined(
            back,
            separator,
        ),
        joined(seq![text], separator) == text,
        joined(Seq::<Seq<char>>::empty(), separator) == Seq::<char>::empty(),
    decreases back.len(),
{
    let all = front + back;
    assert(all.drop_last() == front + back.drop_last());
    assert(all.last() == back.last());
    if back.len() == 1 {
        assert(all.drop_last() == front);
    } else {
        joining_puts_the_separator_between(front, back.drop_last(), text, separator);
        assert(joined(all, separator) =~= joined(front, separator) + separator + joined(
            back,
            separator,
        ));
    }
}

} // verus!
