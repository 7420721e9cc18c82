//! Calls into other crates, each with the contract that the driver relies on.
use itertools::Itertools;
use num_traits::cast::ToPrimitive;
use vstd::prelude::*;

use crate::text::texts;

verus! {

/// The upper-case hexadecimal digit of a number below sixteen.
pub open spec fn hex_digit(d: int) -> char {
    if d < 10 {
        ('0' as int + d) as char
    } else {
        ('A' as int + d - 10) as char
    }
}

/// Bytes in upper-case hexadecimal: two digits per byte, the high half first.
pub open spec fn hex_upper(data: Seq<u8>) -> Seq<char> {
    Seq::new(
        data.len() * 2,
        |i: int|
            if i % 2 == 0 {
                hex_digit(data[i / 2] as int / 16)
            } else {
                hex_digit(data[i / 2] as int % 16)
            },
    )
}

/// Whether `a` comes before `b` in the order of strings, or is the same text: at the first place
/// where they differ the smaller code point decides, and a prefix comes before what it begins.
pub open spec fn at_most(a: Seq<char>, b: Seq<char>) -> bool
    decreases a.len(),
{
    a.len() == 0 || (b.len() > 0 && ((a[0] as int) < (b[0] as int) || (a[0] == b[0] && at_most(
        a.drop_first(),
        b.drop_first(),
    ))))
}

/// Whether every text of the list is at most each later one.
pub open spec fn ascending(list: Seq<Seq<char>>) -> bool {
    forall|i: int, j: int| 0 <= i < j < list.len() ==> #[trigger] at_most(list[i], list[j])
}

/// The list with each run of equal neighbours cut down to one.
pub open spec fn without_repeats(list: Seq<Seq<char>>) -> Seq<Seq<char>>
    decreases list.len(),
{
    if list.len() <= 1 {
        list
    } else {
        let front = without_repeats(list.drop_last());
        if list[list.len() - 2] == list.last() {
            front
        } else {
            front.push(list.last())
        }
    }
}

/// The texts of the list one after the other, with `sep` between neighbours.
pub open spec fn joined(list: Seq<Seq<char>>, sep: Seq<char>) -> Seq<char>
    decreases list.len(),
{
    if list.len() == 0 {
        Seq::empty()
    } else if list.len() == 1 {
        list[0]
    } else {
        joined(list.drop_last(), sep) + sep + list.last()
    }
}

/// Calls `hex::encode_upper`. Believed of it: the result writes each byte of `data`, in order, as
/// two upper-case hexadecimal digits, the high half of the byte first.
#[verifier::external_body]
pub(crate) fn encode_upper(data: &Vec<u8>) -> (r: String)
    ensures
        r@ == hex_upper(data@),
{
    hex::encode_upper(data)
}

/// Calls `itertools::Itertools::sorted`. Believed of it: the result holds the same texts, each as
/// often, in the ascending order of strings, which is that of their code points.
#[verifier::external_body]
pub(crate) fn sorted(list: Vec<String>) -> (r: Vec<String>)
    ensures
        ascending(texts(r@)),
        texts(r@).to_multiset() == texts(list@).to_multiset(),
{
    list.into_iter().sorted().collect()
}

/// Calls `itertools::Itertools::dedup`. Believed of it: of each run of equal neighbours one
/// stays, and nothing else changes.
#[verifier::external_body]
pub(crate) fn dedup(list: Vec<String>) -> (r: Vec<String>)
    ensures
        texts(r@) == without_repeats(texts(list@)),
{
    list.into_iter().dedup().collect()
}

/// Calls `itertools::Itertools::join`. Believed of it: the result is the texts one after the
/// other, with `sep` between neighbours.
#[verifier::external_body]
pub(crate) fn join(list: &Vec<String>, sep: &str) -> (r: String)
    ensures
        r@ == joined(texts(list@), sep@),
{
    list.iter().join(sep)
}

/// Calls `num_traits::ToPrimitive::to_u32` on a `u128`. Believed of it: the same number where a
/// `u32` can hold it, and `None` where it cannot.
#[verifier::external_body]
pub(crate) fn to_u32(n: u128) -> (r: Option<u32>)
    ensures
        r == (if n <= u32::MAX {
            Some(n as u32)
        } else {
            None
        }),
{
    n.to_u32()
}

/// Different bytes are written differently in hexadecimal: the bytes can be read back.
pub proof fn hex_upper_is_injective(a: Seq<u8>, b: Seq<u8>)
    requires
        hex_upper(a) == hex_upper(b),
    ensures
        a == b,
{
    assert(hex_upper(a).len() == a.len() * 2);
    assert(hex_upper(b).len() == b.len() * 2);
    assert forall|i: int| 0 <= i < a.len() implies a[i] == b[i] by {
        assert(hex_upper(a)[2 * i] == hex_digit(a[i] as int / 16));
        assert(hex_upper(b)[2 * i] == hex_digit(b[i] as int / 16));
        assert(hex_upper(a)[2 * i + 1] == hex_digit(a[i] as int % 16));
        assert(hex_upper(b)[2 * i + 1] == hex_digit(b[i] as int % 16));
    }
    assert(a =~= b);
}

/// Each byte is written in two digits, the high half first, and digits are taken from the sixteen in
/// their order.
pub proof fn hex_digits_stand_for_halves(data: Seq<u8>, i: int)
    requires
        0 <= i < data.len(),
    ensures
        hex_upper(data).len() == 2 * data.len(),
        hex_upper(data)[2 * i] == "0123456789ABCDEF"@[data[i] as int / 16],
        hex_upper(data)[2 * i + 1] == "0123456789ABCDEF"@[data[i] as int % 16],
{
    reveal_strlit("0123456789ABCDEF");
    assert(hex_upper(data)[2 * i] == hex_digit(data[i] as int / 16));
    assert(hex_upper(data)[2 * i + 1] == hex_digit(data[i] as int % 16));
}

/// Joining puts the separator between neighbours and nowhere else: a list of one is that text, and
/// one text more comes behind the separator.
pub proof fn joined_by_the_separator(list: Seq<Seq<char>>, last: Seq<char>, sep: Seq<char>)
    ensures
        joined(Seq::empty(), sep) == Seq::<char>::empty(),
        list.len() == 0 ==> joined(list.push(last), sep) == last,
        list.len() > 0 ==> joined(list.push(last), sep) == joined(list, sep) + sep + last,
{
    assert(list.push(last).drop_last() =~= list);
}

} // verus!
