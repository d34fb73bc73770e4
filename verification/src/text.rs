//! Numbers written out as text.

use vstd::prelude::*;
use vstd::string::*;

verus! {

/// The character of a hexadecimal digit.
pub open spec fn hex_char(digit: int) -> char {
    if digit < 10 {
        (48 + digit) as char
    } else {
        (87 + digit) as char
    }
}

/// Two hexadecimal digits, high one first.
pub open spec fn hex_pair(value: int) -> Seq<char> {
    seq![hex_char(value / 16 % 16), hex_char(value % 16)]
}

/// A number in decimal, without leading zeros.
pub open spec fn decimal(value: nat) -> Seq<char>
    decreases value,
{
    if value < 10 {
        seq![hex_char(value as int)]
    } else {
        decimal(value / 10).push(hex_char((value % 10) as int))
    }
}

/// Distinct digits have distinct characters.
pub proof fn lemma_hex_char(a: int, b: int)
    requires
        0 <= a < 16,
        0 <= b < 16,
        hex_char(a) == hex_char(b),
    ensures
        a == b,
{
}

fn hex_digit(digit: u8) -> (text: &'static str)
    requires
        digit < 16,
    ensures
        text@ == seq![hex_char(digit as int)],
{
    proof {
        reveal_strlit("0");
        reveal_strlit("1");
        reveal_strlit("2");
        reveal_strlit("3");
        reveal_strlit("4");
        reveal_strlit("5");
        reveal_strlit("6");
        reveal_strlit("7");
        reveal_strlit("8");
        reveal_strlit("9");
        reveal_strlit("a");
        reveal_strlit("b");
        reveal_strlit("c");
        reveal_strlit("d");
        reveal_strlit("e");
        reveal_strlit("f");
    }
    match digit {
        0 => "0",
        1 => "1",
        2 => "2",
        3 => "3",
        4 => "4",
        5 => "5",
        6 => "6",
        7 => "7",
        8 => "8",
        9 => "9",
        10 => "a",
        11 => "b",
        12 => "c",
        13 => "d",
        14 => "e",
        _ => "f",
    }
}

/// Appends two hexadecimal digits.
pub fn push_hex_pair(text: &mut String, value: u8)
    ensures
        final(text)@ == old(text)@ + hex_pair(value as int),
{
    text.append(hex_digit(value / 16));
    text.append(hex_digit(value % 16));
    assert(text@ =~= old(text)@ + hex_pair(value as int));
}

/// Appends a number in decimal.
pub fn push_decimal(text: &mut String, value: usize)
    ensures
        final(text)@ == old(text)@ + decimal(value as nat),
    decreases value,
{
    if value >= 10 {
        push_decimal(text, value / 10);
    }
    text.append(hex_digit((value % 10) as u8));
    assert(text@ =~= old(text)@ + decimal(value as nat));
}

/// Distinct numbers are written differently.
pub proof fn lemma_decimal(a: nat, b: nat)
    requires
        decimal(a) == decimal(b),
    ensures
        a == b,
    decreases a,
{
    let x = decimal(a);
    let y = decimal(b);
    assert(x.last() == y.last());
    lemma_hex_char((a % 10) as int, (b % 10) as int);
    lemma_decimal_len(a);
    lemma_decimal_len(b);
    if a >= 10 && b >= 10 {
        assert(x.drop_last() =~= decimal(a / 10));
        assert(y.drop_last() =~= decimal(b / 10));
        lemma_decimal(a / 10, b / 10);
    }
}

proof fn lemma_decimal_len(value: nat)
    ensures
        decimal(value).len() >= 1,
        value >= 10 ==> decimal(value).len() >= 2,
    decreases value,
{
    if value >= 10 {
        lemma_decimal_len(value / 10);
    }
}

/// The number that a text in decimal stands for.
pub open spec fn read_decimal(text: Seq<char>) -> int
    decreases text.len(),
{
    if text.len() == 0 {
        0
    } else {
        read_decimal(text.drop_last()) * 10 + (text.last() as int - '0' as int)
    }
}

/// A number in decimal reads back as itself. It is made of the ten digits, and
/// does not begin with a zero unless it is zero.
pub proof fn law_decimal_reads_back(value: nat)
    ensures
        read_decimal(decimal(value)) == value,
        decimal(value).len() > 0,
        forall|i: int| 0 <= i < decimal(value).len() ==> '0' <= #[trigger] decimal(value)[i] <= '9',
        value > 0 ==> decimal(value)[0] != '0',
        value == 0 ==> decimal(value) == seq!['0'],
    decreases value,
{
    if value < 10 {
        let text = decimal(value);
        assert(text.drop_last() =~= Seq::empty());
        assert(read_decimal(text.drop_last()) == 0);
        assert(text.last() as int == 48 + value);
    } else {
        law_decimal_reads_back(value / 10);
        let text = decimal(value);
        assert(text.drop_last() =~= decimal(value / 10));
        assert(text.last() as int == 48 + value % 10);
    }
}

/// The hexadecimal digits are `0` to `9` and then `a` to `f`, and of two of them
/// the higher one comes first.
pub proof fn law_hexadecimal_digits(value: int)
    requires
        0 <= value < 256,
    ensures
        hex_pair(value).len() == 2,
        value / 16 < 10 ==> hex_pair(value)[0] as int - '0' as int == value / 16,
        value / 16 >= 10 ==> hex_pair(value)[0] as int - 'a' as int == value / 16 - 10,
        value % 16 < 10 ==> hex_pair(value)[1] as int - '0' as int == value % 16,
        value % 16 >= 10 ==> hex_pair(value)[1] as int - 'a' as int == value % 16 - 10,
{
}

} // verus!
