//! The order of versions with their prerelease suffixes, after Semantic Versioning: the
//! numeric core decides first; of versions with the same core a release comes after its
//! prereleases, and prereleases are ordered field by field.
use crate::text::{
    before, chars_of, count_before, cut_before, run_before, run_before_is_run,
    run_before_of_run, slice_text,
};
use crate::version::{
    comes_after, core_of, digits_value, is_digit, suffixes_are_ignored, triple, Triple,
};
use vstd::prelude::*;

verus! {

/// Where one thing stands to another.
#[derive(Clone, Copy, PartialEq, Eq, Structural, Debug)]
pub enum Order {
    Before,
    Same,
    After,
}

/// The order the other way round.
pub open spec fn reversed(order: Order) -> Order {
    match order {
        Order::Before => Order::After,
        Order::Same => Order::Same,
        Order::After => Order::Before,
    }
}

/// The order of numbers.
pub open spec fn number_order(a: nat, b: nat) -> Order {
    if a < b {
        Order::Before
    } else if a > b {
        Order::After
    } else {
        Order::Same
    }
}

/// The order of texts, character by character.
pub open spec fn text_order(a: Seq<char>, b: Seq<char>) -> Order
    decreases a.len(),
{
    if a.len() == 0 {
        if b.len() == 0 {
            Order::Same
        } else {
            Order::Before
        }
    } else if b.len() == 0 || a[0] > b[0] {
        Order::After
    } else if a[0] < b[0] {
        Order::Before
    } else {
        text_order(a.drop_first(), b.drop_first())
    }
}

/// A field is made of digits alone.
pub open spec fn is_numeric(field: Seq<char>) -> bool {
    field.len() > 0 && forall|i: int| 0 <= i < field.len() ==> is_digit(#[trigger] field[i])
}

/// The order of two fields: numbers by their value, other fields as texts, and numbers
/// before other fields.
pub open spec fn field_order(a: Seq<char>, b: Seq<char>) -> Order {
    match (is_numeric(a), is_numeric(b)) {
        (true, true) => number_order(digits_value(a), digits_value(b)),
        (true, false) => Order::Before,
        (false, true) => Order::After,
        (false, false) => text_order(a, b),
    }
}

/// The order of two rows of fields that dots divide: the first field that differs
/// decides, and a row comes before what continues it.
pub open spec fn fields_order(a: Seq<char>, b: Seq<char>) -> Order
    decreases a.len(),
{
    match field_order(before(a, '.', '.'), before(b, '.', '.')) {
        Order::Same => {
            let first = run_before(a, '.', '.');
            let second = run_before(b, '.', '.');
            if first < a.len() && second < b.len() {
                fields_order(a.skip(first as int + 1), b.skip(second as int + 1))
            } else if first < a.len() {
                Order::After
            } else if second < b.len() {
                Order::Before
            } else {
                Order::Same
            }
        },
        decided => decided,
    }
}

/// The prerelease suffix of a version: what stands after the first `-`, up to the build
/// suffix that a `+` begins.
pub open spec fn prerelease_of(version: Seq<char>) -> Option<Seq<char>> {
    let head = before(version, '+', '+');
    let core = run_before(head, '-', '-');
    if core < head.len() {
        Some(head.skip(core as int + 1))
    } else {
        None
    }
}

/// The order of two versions with the same core: what has no prerelease suffix is the
/// release and comes last.
pub open spec fn prerelease_order(a: Option<Seq<char>>, b: Option<Seq<char>>) -> Order {
    match (a, b) {
        (Some(x), Some(y)) => fields_order(x, y),
        (Some(_), None) => Order::Before,
        (None, Some(_)) => Order::After,
        (None, None) => Order::Same,
    }
}

/// The order of numeric cores.
pub open spec fn core_order(a: Triple, b: Triple) -> Order {
    if comes_after(a, b) {
        Order::After
    } else if comes_after(b, a) {
        Order::Before
    } else {
        Order::Same
    }
}

/// The order of versions.
pub open spec fn version_order(a: Seq<char>, b: Seq<char>) -> Order {
    match core_order(core_of(a), core_of(b)) {
        Order::Same => prerelease_order(prerelease_of(a), prerelease_of(b)),
        decided => decided,
    }
}

/// The order of two texts as numbers.
fn order_numbers(a: &Vec<char>, b: &Vec<char>) -> (order: Order)
    requires
        is_numeric(a@),
        is_numeric(b@),
    ensures
        order == number_order(digits_value(a@), digits_value(b@)),
{
    let width: usize = if a.len() > b.len() {
        a.len()
    } else {
        b.len()
    };
    let a_gap: usize = width - a.len();
    let b_gap: usize = width - b.len();
    let mut order = Order::Same;
    let mut k: usize = 0;
    while k < width
        invariant
            k <= width,
            a_gap + a.len() == width,
            b_gap + b.len() == width,
            is_numeric(a@),
            is_numeric(b@),
            order == number_order(
                digits_value(a@.take(if k > a_gap { k - a_gap } else { 0 })),
                digits_value(b@.take(if k > b_gap { k - b_gap } else { 0 })),
            ),
        decreases width - k,
    {
        let ghost a_done = a@.take(if k > a_gap { k - a_gap } else { 0 });
        let ghost b_done = b@.take(if k > b_gap { k - b_gap } else { 0 });
        let x: char = if k >= a_gap {
            a[k - a_gap]
        } else {
            '0'
        };
        let y: char = if k >= b_gap {
            b[k - b_gap]
        } else {
            '0'
        };
        assert(is_digit(x) && is_digit(y));
        let ghost a_next = a@.take(if k + 1 > a_gap { k + 1 - a_gap } else { 0 });
        let ghost b_next = b@.take(if k + 1 > b_gap { k + 1 - b_gap } else { 0 });
        assert(digits_value(a_next) == digits_value(a_done) * 10 + (x as u32 - '0' as u32)) by {
            if k >= a_gap {
                assert(a_next.drop_last() == a_done);
            }
        }
        assert(digits_value(b_next) == digits_value(b_done) * 10 + (y as u32 - '0' as u32)) by {
            if k >= b_gap {
                assert(b_next.drop_last() == b_done);
            }
        }
        if order == Order::Same {
            if x < y {
                order = Order::Before;
            } else if x > y {
                order = Order::After;
            }
        }
        k += 1;
    }
    assert(a@.take(a@.len() as int) == a@);
    assert(b@.take(b@.len() as int) == b@);
    order
}

/// The order of two texts, character by character.
fn order_texts(a: &Vec<char>, b: &Vec<char>) -> (order: Order)
    ensures
        order == text_order(a@, b@),
{
    let mut i: usize = 0;
    assert(a@.skip(0) == a@ && b@.skip(0) == b@);
    while i < a.len() && i < b.len()
        invariant
            i <= a@.len(),
            i <= b@.len(),
            text_order(a@, b@) == text_order(a@.skip(i as int), b@.skip(i as int)),
        decreases a@.len() - i,
    {
        if a[i] > b[i] {
            return Order::After;
        }
        if a[i] < b[i] {
            return Order::Before;
        }
        assert(a@.skip(i as int).drop_first() == a@.skip(i + 1));
        assert(b@.skip(i as int).drop_first() == b@.skip(i + 1));
        i += 1;
    }
    if i < a.len() {
        Order::After
    } else if i < b.len() {
        Order::Before
    } else {
        Order::Same
    }
}

/// Tells whether a field is made of digits alone.
fn numeric(field: &Vec<char>) -> (yes: bool)
    ensures
        yes == is_numeric(field@),
{
    let mut i: usize = 0;
    while i < field.len()
        invariant
            i <= field@.len(),
            forall|j: int| 0 <= j < i ==> is_digit(#[trigger] field@[j]),
        decreases field@.len() - i,
    {
        if field[i] < '0' || field[i] > '9' {
            assert(!is_digit(field@[i as int]));
            return false;
        }
        i += 1;
    }
    field.len() > 0
}

/// The order of two fields.
fn order_field(a: &str, b: &str) -> (order: Order)
    ensures
        order == field_order(a@, b@),
{
    let x = chars_of(a);
    let y = chars_of(b);
    match (numeric(&x), numeric(&y)) {
        (true, true) => order_numbers(&x, &y),
        (true, false) => Order::Before,
        (false, true) => Order::After,
        (false, false) => order_texts(&x, &y),
    }
}

/// The order of the fields of `a[a_from..]` and `b[b_from..]`.
fn order_fields(a: &Vec<char>, a_from: usize, b: &Vec<char>, b_from: usize) -> (order: Order)
    requires
        a_from <= a@.len(),
        b_from <= b@.len(),
    ensures
        order == fields_order(a@.skip(a_from as int), b@.skip(b_from as int)),
    decreases a@.len() - a_from,
{
    let ghost left = a@.skip(a_from as int);
    let ghost right = b@.skip(b_from as int);
    let a_end: usize = a_from + count_before(a, a_from, '.', '.');
    let b_end: usize = b_from + count_before(b, b_from, '.', '.');
    let x = slice_text(a, a_from, a_end);
    let y = slice_text(b, b_from, b_end);
    assert(x@ == before(left, '.', '.'));
    assert(y@ == before(right, '.', '.'));
    match order_field(x.as_str(), y.as_str()) {
        Order::Same => if a_end < a.len() && b_end < b.len() {
            assert(left.skip(a_end - a_from + 1) == a@.skip(a_end + 1));
            assert(right.skip(b_end - b_from + 1) == b@.skip(b_end + 1));
            order_fields(a, a_end + 1, b, b_end + 1)
        } else if a_end < a.len() {
            Order::After
        } else if b_end < b.len() {
            Order::Before
        } else {
            Order::Same
        },
        decided => decided,
    }
}

/// Takes the prerelease suffix out of a version.
fn prerelease(version: &str) -> (suffix: Option<Vec<char>>)
    ensures
        match suffix {
            Some(chars) => prerelease_of(version@) == Some(chars@),
            None => prerelease_of(version@) is None,
        },
{
    let head = cut_before(version, '+', '+');
    let chars = chars_of(head.as_str());
    let core: usize = count_before(&chars, 0, '-', '-');
    assert(chars@.skip(0) == head@);
    if core < chars.len() {
        let suffix = chars_of(slice_text(&chars, core + 1, chars.len()).as_str());
        assert(suffix@ == head@.skip(core + 1));
        Some(suffix)
    } else {
        None
    }
}

/// Tells where version `a` stands to version `b`.
pub fn order_versions(a: &str, b: &str) -> (order: Order)
    ensures
        order == version_order(a@, b@),
{
    let x = triple(a);
    let y = triple(b);
    if x.0 != y.0 {
        return if x.0 > y.0 {
            Order::After
        } else {
            Order::Before
        };
    }
    if x.1 != y.1 {
        return if x.1 > y.1 {
            Order::After
        } else {
            Order::Before
        };
    }
    if x.2 != y.2 {
        return if x.2 > y.2 {
            Order::After
        } else {
            Order::Before
        };
    }
    match (prerelease(a), prerelease(b)) {
        (Some(p), Some(q)) => {
            assert(p@.skip(0) == p@ && q@.skip(0) == q@);
            order_fields(&p, 0, &q, 0)
        },
        (Some(_), None) => Order::Before,
        (None, Some(_)) => Order::After,
        (None, None) => Order::Same,
    }
}

/// Texts are ordered.
proof fn text_order_is_an_order(a: Seq<char>, b: Seq<char>, c: Seq<char>)
    ensures
        text_order(a, a) == Order::Same,
        text_order(b, a) == reversed(text_order(a, b)),
        text_order(a, b) != Order::After && text_order(b, c) != Order::After ==> text_order(a, c)
            != Order::After,
        text_order(a, b) != Order::After && text_order(b, c) != Order::After && text_order(a, c)
            == Order::Same ==> text_order(a, b) == Order::Same && text_order(b, c) == Order::Same,
        text_order(a, b) == Order::Same && text_order(b, c) == Order::Same ==> text_order(a, c)
            == Order::Same,
    decreases a.len() + b.len() + c.len(),
{
    if a.len() > 0 && b.len() > 0 && c.len() > 0 {
        text_order_is_an_order(a.drop_first(), b.drop_first(), c.drop_first());
    } else if a.len() > 0 && b.len() > 0 {
        text_order_is_an_order(a.drop_first(), b.drop_first(), c);
    } else if a.len() > 0 && c.len() > 0 {
        text_order_is_an_order(a.drop_first(), b, c.drop_first());
    } else if b.len() > 0 && c.len() > 0 {
        text_order_is_an_order(a, b.drop_first(), c.drop_first());
    } else if a.len() > 0 {
        text_order_is_an_order(a.drop_first(), b, c);
    }
}

/// Fields are ordered.
proof fn field_order_is_an_order(a: Seq<char>, b: Seq<char>, c: Seq<char>)
    ensures
        field_order(a, a) == Order::Same,
        field_order(b, a) == reversed(field_order(a, b)),
        field_order(a, b) != Order::After && field_order(b, c) != Order::After ==> field_order(
            a,
            c,
        ) != Order::After,
        field_order(a, b) != Order::After && field_order(b, c) != Order::After && field_order(a, c)
            == Order::Same ==> field_order(a, b) == Order::Same && field_order(b, c)
            == Order::Same,
        field_order(a, b) == Order::Same && field_order(b, c) == Order::Same ==> field_order(a, c)
            == Order::Same,
{
    text_order_is_an_order(a, b, c);
}

/// No row of fields comes before or after itself.
proof fn fields_order_itself(a: Seq<char>)
    ensures
        fields_order(a, a) == Order::Same,
    decreases a.len(),
{
    field_order_is_an_order(before(a, '.', '.'), before(a, '.', '.'), before(a, '.', '.'));
    let first = run_before(a, '.', '.');
    if first < a.len() {
        fields_order_itself(a.skip(first as int + 1));
    }
}

/// Of two rows of fields each stands to the other the other way round.
proof fn fields_order_reversed(a: Seq<char>, b: Seq<char>)
    ensures
        fields_order(b, a) == reversed(fields_order(a, b)),
    decreases a.len(),
{
    field_order_is_an_order(before(a, '.', '.'), before(b, '.', '.'), before(a, '.', '.'));
    let first = run_before(a, '.', '.');
    let second = run_before(b, '.', '.');
    if first < a.len() && second < b.len() {
        fields_order_reversed(a.skip(first as int + 1), b.skip(second as int + 1));
    }
}

/// The order of rows of fields carries on.
proof fn fields_order_carries_on(a: Seq<char>, b: Seq<char>, c: Seq<char>)
    ensures
        fields_order(a, b) != Order::After && fields_order(b, c) != Order::After ==> fields_order(
            a,
            c,
        ) != Order::After,
    decreases a.len(),
{
    field_order_is_an_order(before(a, '.', '.'), before(b, '.', '.'), before(c, '.', '.'));
    let first = run_before(a, '.', '.');
    let second = run_before(b, '.', '.');
    let third = run_before(c, '.', '.');
    if first < a.len() && second < b.len() && third < c.len() {
        fields_order_carries_on(
            a.skip(first as int + 1),
            b.skip(second as int + 1),
            c.skip(third as int + 1),
        );
    }
}

/// Versions are ordered: each stands to itself as the same, of two each stands to the
/// other the other way round, and what does not come after a version does not come after
/// one that this does not come after.
pub proof fn versions_are_ordered(a: Seq<char>, b: Seq<char>, c: Seq<char>)
    ensures
        version_order(a, a) == Order::Same,
        version_order(b, a) == reversed(version_order(a, b)),
        version_order(a, b) != Order::After && version_order(b, c) != Order::After
            ==> version_order(a, c) != Order::After,
{
    if prerelease_of(a) is Some {
        fields_order_itself(prerelease_of(a)->0);
        if prerelease_of(b) is Some {
            fields_order_reversed(prerelease_of(a)->0, prerelease_of(b)->0);
            if prerelease_of(c) is Some {
                fields_order_carries_on(
                    prerelease_of(a)->0,
                    prerelease_of(b)->0,
                    prerelease_of(c)->0,
                );
            }
        }
    }
}

/// A newer version comes after an older one, whatever their suffixes.
pub proof fn newer_comes_after(a: Seq<char>, b: Seq<char>)
    requires
        comes_after(core_of(a), core_of(b)),
    ensures
        version_order(a, b) == Order::After,
        version_order(b, a) == Order::Before,
{
}

/// A release comes after its own prereleases.
pub proof fn release_comes_after_its_prereleases(core: Seq<char>, suffix: Seq<char>)
    requires
        forall|i: int| 0 <= i < core.len() ==> core[i] != '-' && core[i] != '+',
        suffix.len() > 0,
        suffix.first() == '-',
    ensures
        version_order(core, core + suffix) == Order::After,
        version_order(core + suffix, core) == Order::Before,
{
    let none = Seq::<char>::empty();
    suffixes_are_ignored(core, suffix);
    assert(core + none == core);
    run_before_of_run(core, none, '+', '+');
    run_before_of_run(core, none, '-', '-');
    let tail = before(suffix, '+', '+');
    before_of_run(core, suffix, '+');
    run_before_is_run(suffix, '+', '+');
    assert(tail.len() > 0 && tail.first() == '-');
    run_before_of_run(core, tail, '-', '-');
}

/// What stands before a stop in a text that begins with a run without that stop: the run,
/// and what stands before the stop in the rest.
proof fn before_of_run(run: Seq<char>, rest: Seq<char>, stop: char)
    requires
        forall|i: int| 0 <= i < run.len() ==> run[i] != stop,
    ensures
        run_before(run + rest, stop, stop) == run.len() + run_before(rest, stop, stop),
        before(run + rest, stop, stop) == run + before(rest, stop, stop),
    decreases run.len(),
{
    run_before_is_run(rest, stop, stop);
    if run.len() == 0 {
        assert(run + rest == rest);
        assert(run + before(rest, stop, stop) == before(rest, stop, stop));
    } else {
        assert((run + rest).drop_first() == run.drop_first() + rest);
        before_of_run(run.drop_first(), rest, stop);
        assert(before(run + rest, stop, stop) == run + before(rest, stop, stop));
    }
}

} // verus!
