//! Text as sequences of characters.
use vstd::prelude::*;
use vstd::string::*;

verus! {

/// The texts that a list of strings holds.
pub open spec fn texts(list: Seq<String>) -> Seq<Seq<char>> {
    list.map_values(|s: String| s@)
}

/// Whether `c` is one of the ten decimal digits.
pub open spec fn is_digit(c: char) -> bool {
    '0' <= c <= '9'
}

/// Whether every character is a decimal digit.
pub open spec fn all_digits(s: Seq<char>) -> bool {
    forall|i: int| 0 <= i < s.len() ==> is_digit(#[trigger] s[i])
}

/// The number that a row of decimal digits writes down.
pub open spec fn decimal_value(digits: Seq<char>) -> nat
    decreases digits.len(),
{
    if digits.len() == 0 {
        0
    } else {
        (decimal_value(digits.drop_last()) * 10 + (digits.last() as int - '0' as int)) as nat
    }
}

/// The number that a text writes down in decimal, where it is one and a `u128` can hold it.
pub open spec fn number(text: Seq<char>) -> Option<u128> {
    if text.len() > 0 && all_digits(text) && decimal_value(text) <= u128::MAX {
        Some(decimal_value(text) as u128)
    } else {
        None
    }
}

/// Whether two texts hold the same characters.
pub fn same(a: &str, b: &str) -> (r: bool)
    ensures
        r == (a@ == b@),
{
    a.to_owned() == b.to_owned()
}

/// `middle` between `before` and `after`.
pub fn around(before: &str, middle: &str, after: &str) -> (r: String)
    ensures
        r@ == before@ + middle@ + after@,
{
    before.to_owned().concat(middle).concat(after)
}

/// More digits write down no smaller a number.
proof fn decimal_value_grows(digits: Seq<char>, i: int)
    requires
        0 <= i <= digits.len(),
        all_digits(digits),
    ensures
        decimal_value(digits.take(i)) <= decimal_value(digits),
    decreases digits.len(),
{
    if i < digits.len() {
        let front = digits.drop_last();
        assert forall|j: int| 0 <= j < front.len() implies is_digit(#[trigger] front[j]) by {
            assert(front[j] == digits[j]);
        }
        decimal_value_grows(front, i);
        assert(front.take(i) =~= digits.take(i));
        assert(is_digit(digits[digits.len() - 1]));
    } else {
        assert(digits.take(i) =~= digits);
    }
}

/// Reads a number written in decimal.
pub fn read_number(text: &str) -> (r: Option<u128>)
    ensures
        r == number(text@),
        match r {
            Some(n) => {
                &&& text@.len() > 0
                &&& forall|i: int| 0 <= i < text@.len() ==> '0' <= #[trigger] text@[i] <= '9'
                &&& n == decimal_value(text@)
            },
            None => {
                ||| text@.len() == 0
                ||| exists|i: int| 0 <= i < text@.len() && !('0' <= #[trigger] text@[i] <= '9')
                ||| decimal_value(text@) > u128::MAX
            },
        },
{
    let n: usize = text.unicode_len();
    if n == 0 {
        return None;
    }
    let mut value: u128 = 0;
    let mut i: usize = 0;
    while i < n
        invariant
            i <= n,
            0 < n == text@.len(),
            forall|j: int| 0 <= j < i ==> is_digit(#[trigger] text@[j]),
            value == decimal_value(text@.take(i as int)),
        decreases n - i,
    {
        let c = text.get_char(i);
        if c < '0' || c > '9' {
            assert(!is_digit(text@[i as int]));
            return None;
        }
        let digit: u128 = (c as u32 - '0' as u32) as u128;
        assert(text@.take(i + 1).drop_last() =~= text@.take(i as int));
        proof {
            if all_digits(text@) {
                decimal_value_grows(text@, i + 1);
            }
        }
        value = match value.checked_mul(10) {
            Some(tens) => match tens.checked_add(digit) {
                Some(next) => next,
                None => return None,
            },
            None => return None,
        };
        i = i + 1;
    }
    assert(text@.take(n as int) =~= text@);
    Some(value)
}

/// Digits are read from the left, each counting ten times what the next one does.
pub proof fn digits_count_in_tens(digits: Seq<char>, digit: char)
    requires
        '0' <= digit <= '9',
    ensures
        decimal_value(Seq::empty()) == 0,
        decimal_value(digits.push(digit)) == 10 * decimal_value(digits) + (digit as int
            - '0' as int),
{
    assert(digits.push(digit).drop_last() =~= digits);
}

/// A list of strings holds the text of each, in order.
pub proof fn texts_are_seen_one_by_one(list: Seq<String>)
    ensures
        texts(list).len() == list.len(),
        forall|i: int| 0 <= i < list.len() ==> #[trigger] texts(list)[i] == list[i]@,
{
}

/// The decimal digits are the characters from zero to nine.
pub proof fn digits_are_zero_to_nine(s: Seq<char>)
    ensures
        all_digits(s) <==> forall|i: int| 0 <= i < s.len() ==> '0' <= #[trigger] s[i] <= '9',
{
    if all_digits(s) {
        assert forall|i: int| 0 <= i < s.len() implies '0' <= #[trigger] s[i] <= '9' by {
            assert(is_digit(s[i]));
        }
    }
}

} // verus!
