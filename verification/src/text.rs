//! Order of paths and readings of property values.

use vstd::prelude::*;

verus! {

/// `left` stands before `right` in the order of their code points.
pub open spec fn text_before(left: Seq<char>, right: Seq<char>) -> bool
    decreases left.len(),
{
    right.len() > 0 && (left.len() == 0 || left[0] < right[0] || (left[0]
        == right[0] && text_before(left.drop_first(), right.drop_first())))
}

/// `left` stands before `right` or is the same text.
pub open spec fn text_not_after(left: Seq<char>, right: Seq<char>) -> bool {
    !text_before(right, left)
}

/// Compares two strings through `<` on `str`.
///
/// Claims what std documents of that order: strings are ordered
/// lexicographically by their bytes, which orders them by code points.
#[verifier::external_body]
pub(crate) fn is_before(left: &str, right: &str) -> (before: bool)
    ensures
        before == text_before(left@, right@),
{
    left < right
}

/// No text stands before itself.
pub proof fn text_order_irreflexive(text: Seq<char>)
    ensures
        !text_before(text, text),
    decreases text.len(),
{
    if text.len() > 0 {
        text_order_irreflexive(text.drop_first());
    }
}

/// Of two different texts one stands before the other.
pub proof fn text_order_total(left: Seq<char>, right: Seq<char>)
    ensures
        text_before(left, right) || left == right || text_before(right, left),
    decreases left.len(),
{
    if left.len() > 0 && right.len() > 0 {
        if left[0] == right[0] {
            text_order_total(left.drop_first(), right.drop_first());
            if left.drop_first() == right.drop_first() {
                assert(left =~= seq![left[0]] + left.drop_first());
                assert(right =~= seq![right[0]] + right.drop_first());
            }
        }
    } else if left.len() == 0 && right.len() == 0 {
        assert(left =~= right);
    }
}

/// The order of texts is transitive.
pub proof fn text_order_transitive(first: Seq<char>, second: Seq<char>, third: Seq<char>)
    requires
        text_before(first, second),
        text_before(second, third),
    ensures
        text_before(first, third),
    decreases first.len(),
{
    if first.len() > 0 && first[0] == second[0] && second[0] == third[0] {
        text_order_transitive(first.drop_first(), second.drop_first(), third.drop_first());
    }
}

/// Of two texts at most one stands before the other.
pub proof fn text_order_asymmetric(left: Seq<char>, right: Seq<char>)
    requires
        text_before(left, right),
    ensures
        text_not_after(left, right),
{
    if text_before(right, left) {
        text_order_transitive(left, right, left);
        text_order_irreflexive(left);
    }
}

/// Of two texts neither of which stands before the other, both are the same;
/// so the weak order is transitive too.
pub proof fn text_not_after_transitive(first: Seq<char>, second: Seq<char>, third: Seq<char>)
    requires
        text_not_after(first, second),
        text_not_after(second, third),
    ensures
        text_not_after(first, third),
{
    text_order_total(first, second);
    text_order_total(second, third);
    if text_before(third, first) {
        if text_before(first, second) {
            text_order_transitive(third, first, second);
        }
    }
}

/// `c` is one of the digits 0 to 9.
pub open spec fn is_digit(c: char) -> bool {
    '0' <= c <= '9'
}

/// The number that a sequence of decimal digits stands for.
pub open spec fn decimal(digits: Seq<char>) -> int
    decreases digits.len(),
{
    if digits.len() == 0 {
        0
    } else {
        decimal(digits.drop_last()) * 10 + (digits.last() as u32 - '0' as u32)
    }
}

/// The number that a text stands for: an optional plus sign and then at least
/// one decimal digit and nothing else, of a value that a `u32` can hold.
pub open spec fn u32_of(text: Seq<char>) -> Option<u32> {
    let digits = if text.len() > 0 && text[0] == '+' {
        text.drop_first()
    } else {
        text
    };
    if digits.len() > 0 && digits.all(|c: char| is_digit(c)) && decimal(digits) <= u32::MAX {
        Some(decimal(digits) as u32)
    } else {
        None
    }
}

/// Reads a number through `str::parse::<u32>`.
///
/// Claims what std documents of it: the text is an optional `+` followed by
/// decimal digits only, and a value out of range is an error.
#[verifier::external_body]
pub(crate) fn parse_u32(text: &str) -> (number: Option<u32>)
    ensures
        number == u32_of(text@),
{
    text.parse().ok()
}

/// The truth value that a text stands for.
pub open spec fn bool_of(text: Seq<char>) -> Option<bool> {
    if text == "true"@ {
        Some(true)
    } else if text == "false"@ {
        Some(false)
    } else {
        None
    }
}

/// Reads a truth value: only `true` and `false` are accepted.
pub(crate) fn parse_bool(text: &str) -> (value: Option<bool>)
    ensures
        value == bool_of(text@),
{
    let given: String = text.to_owned();
    if given == "true".to_owned() {
        Some(true)
    } else if given == "false".to_owned() {
        Some(false)
    } else {
        None
    }
}

/// Two texts agree up to a place at which the one has ended and the other has
/// not, or has the lower code point there.
pub open spec fn differs_lower_at(left: Seq<char>, right: Seq<char>, at: int) -> bool {
    &&& 0 <= at <= left.len()
    &&& at < right.len()
    &&& forall|i: int| 0 <= i < at ==> #[trigger] left[i] == right[i]
    &&& at == left.len() || left[at] < right[at]
}

/// A text stands before another exactly where they agree up to a place at which
/// it has ended or has the lower code point.
pub proof fn text_order_is_lexicographic(left: Seq<char>, right: Seq<char>)
    ensures
        text_before(left, right) <==> exists|at: int| #[trigger] differs_lower_at(left, right, at),
    decreases left.len(),
{
    if left.len() == 0 {
        if right.len() > 0 {
            assert(differs_lower_at(left, right, 0));
        }
    } else if right.len() > 0 {
        let (mine, theirs) = (left.drop_first(), right.drop_first());
        text_order_is_lexicographic(mine, theirs);
        if left[0] < right[0] {
            assert(differs_lower_at(left, right, 0));
        } else if left[0] == right[0] && text_before(mine, theirs) {
            let at = choose|at: int| #[trigger] differs_lower_at(mine, theirs, at);
            assert forall|i: int| 0 <= i < at + 1 implies #[trigger] left[i] == right[i] by {
                if i > 0 {
                    assert(mine[i - 1] == theirs[i - 1]);
                }
            }
            assert(differs_lower_at(left, right, at + 1));
        }
        if exists|at: int| #[trigger] differs_lower_at(left, right, at) {
            let at = choose|at: int| #[trigger] differs_lower_at(left, right, at);
            if at > 0 {
                assert(left[0] == right[0]);
                assert forall|i: int| 0 <= i < at - 1 implies #[trigger] mine[i] == theirs[i] by {
                    assert(left[i + 1] == right[i + 1]);
                }
                assert(differs_lower_at(mine, theirs, at - 1));
            }
        }
    }
}

/// The value of a decimal digit.
pub open spec fn digit_value(c: char) -> int {
    c as u32 - 48
}

/// Numbers are read digit by digit: a digit stands for its value, a further digit
/// makes tenfold of the number before it, and a plus sign in front changes
/// nothing.
pub proof fn numbers_are_read_digit_by_digit(text: Seq<char>, digit: char)
    requires
        '0' <= digit <= '9',
    ensures
        u32_of(seq![digit]) == Some(digit_value(digit) as u32),
        u32_of(text) matches Some(number) ==> u32_of(text.push(digit)) == (if number * 10
            + digit_value(digit) <= 0xffff_ffff {
            Some((number * 10 + digit_value(digit)) as u32)
        } else {
            None
        }),
        text.len() > 0 && text[0] != '+' ==> u32_of(seq!['+'] + text) == u32_of(text),
{
    let one = seq![digit];
    assert(one.drop_last() =~= Seq::empty());
    reveal_with_fuel(decimal, 2);
    assert(one.all(|c: char| is_digit(c)));
    if u32_of(text) is Some {
        let digits = if text[0] == '+' {
            text.drop_first()
        } else {
            text
        };
        let longer = digits.push(digit);
        assert(text.push(digit)[0] == text[0]);
        if text[0] == '+' {
            assert(text.push(digit).drop_first() =~= longer);
        }
        assert(longer.drop_last() =~= digits);
        let digital = |c: char| is_digit(c);
        assert(digits.all(digital));
        digits_are_not_negative(digits);
        assert forall|i: int| 0 <= i < longer.len() implies #[trigger] digital(longer[i]) by {
            if i < digits.len() {
                assert(digital(digits[i]));
            }
        }
        assert(longer.all(digital));
    }
    if text.len() > 0 && text[0] != '+' {
        assert((seq!['+'] + text).drop_first() =~= text);
    }
}

/// A text that holds no digit or, behind a plus sign in front, anything else, is
/// no number.
pub proof fn other_texts_are_no_numbers(text: Seq<char>, at: int)
    ensures
        u32_of(Seq::empty()) is None,
        u32_of(seq!['+']) is None,
        0 <= at < text.len() && !('0' <= text[at] <= '9') && !(at == 0 && text[at] == '+')
            ==> u32_of(text) is None,
{
    assert(seq!['+'].drop_first() =~= Seq::<char>::empty());
    if 0 <= at < text.len() && !('0' <= text[at] <= '9') && !(at == 0 && text[at] == '+') {
        let digital = |c: char| is_digit(c);
        assert(!digital(text[at]));
        if text[0] == '+' {
            assert(text.drop_first()[at - 1] == text[at]);
            assert(!digital(text.drop_first()[at - 1]));
        }
    }
}

/// Digits stand for no negative number.
proof fn digits_are_not_negative(digits: Seq<char>)
    requires
        digits.all(|c: char| is_digit(c)),
    ensures
        decimal(digits) >= 0,
    decreases digits.len(),
{
    if digits.len() > 0 {
        let digital = |c: char| is_digit(c);
        assert(digital(digits[digits.len() - 1]));
        assert forall|i: int| 0 <= i < digits.drop_last().len() implies #[trigger] digital(
            digits.drop_last()[i],
        ) by {
            assert(digital(digits[i]));
        }
        assert(digits.drop_last().all(digital));
        digits_are_not_negative(digits.drop_last());
    }
}

/// Only the words `true` and `false` stand for truth values.
pub proof fn truth_values_are_words(text: Seq<char>)
    ensures
        bool_of(text) == Some(true) <==> text == seq!['t', 'r', 'u', 'e'],
        bool_of(text) == Some(false) <==> text == seq!['f', 'a', 'l', 's', 'e'],
{
    reveal_strlit("true");
    reveal_strlit("false");
    assert("true"@ =~= seq!['t', 'r', 'u', 'e']);
    assert("false"@ =~= seq!['f', 'a', 'l', 's', 'e']);
    assert("true"@.len() != "false"@.len());
}

} // verus!
