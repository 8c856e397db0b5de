//! Rendering counts as decimal numbers in right-justified columns.

use vstd::prelude::*;
use vstd::string::{StrSliceExecFns, StringExecFns};

verus! {

/// The width that a column has at least.
pub const FIELD_WIDTH: usize = 8;

/// The character that stands for the digit `d`.
pub open spec fn digit_char(d: nat) -> char
    recommends
        d < 10,
{
    if d == 0 {
        '0'
    } else if d == 1 {
        '1'
    } else if d == 2 {
        '2'
    } else if d == 3 {
        '3'
    } else if d == 4 {
        '4'
    } else if d == 5 {
        '5'
    } else if d == 6 {
        '6'
    } else if d == 7 {
        '7'
    } else if d == 8 {
        '8'
    } else {
        '9'
    }
}

/// The decimal numeral of `n`: its digits, the most significant first.
pub open spec fn decimal(n: nat) -> Seq<char>
    decreases n,
{
    if n < 10 {
        seq![digit_char(n)]
    } else {
        decimal(n / 10).push(digit_char(n % 10))
    }
}

/// `n` spaces; none where `n` is not positive.
pub open spec fn blanks(n: int) -> Seq<char> {
    Seq::new(
        if n > 0 {
            n as nat
        } else {
            0
        },
        |i: int| ' ',
    )
}

/// One column: the numeral of `value` with blanks before it up to
/// `FIELD_WIDTH` characters, or nothing where the column is not shown.
pub open spec fn field_text(value: nat, show: bool) -> Seq<char> {
    if show {
        blanks(FIELD_WIDTH - decimal(value).len()) + decimal(value)
    } else {
        Seq::empty()
    }
}

/// The digit `d` as text.
fn digit_str(d: u8) -> (res: &'static str)
    requires
        d < 10,
    ensures
        res@ == seq![digit_char(d as nat)],
{
    proof {
        reveal_strlit("0");
        reveal_strlit("1");
        reveal_strlit("2");
        reveal_strlit("3");
        reveal_strlit("4");
        reveal_strlit("5");
        reveal_strlit("6");
        reveal_strlit("7");
        reveal_strlit("8");
        reveal_strlit("9");
    }
    let res = match d {
        0 => "0",
        1 => "1",
        2 => "2",
        3 => "3",
        4 => "4",
        5 => "5",
        6 => "6",
        7 => "7",
        8 => "8",
        _ => "9",
    };
    assert(res@ =~= seq![digit_char(d as nat)]);
    res
}

/// The decimal numeral of `value`.
pub fn decimal_string(value: u128) -> (res: String)
    ensures
        res@ == decimal(value as nat),
    decreases value,
{
    if value < 10 {
        String::from_str(digit_str(value as u8))
    } else {
        let head = decimal_string(value / 10);
        let res = head.concat(digit_str((value % 10) as u8));
        assert(res@ =~= decimal(value as nat));
        res
    }
}

/// Renders one column for a count of any size: see `field_text`.
pub fn format_count(value: u128, show: bool) -> (res: String)
    ensures
        res@ == field_text(value as nat, show),
{
    if !show {
        return String::new();
    }
    let digits = decimal_string(value);
    let len: usize = digits.as_str().unicode_len();
    let mut res = String::new();
    let mut width: usize = len;
    while width < FIELD_WIDTH
        invariant
            len <= width,
            width <= FIELD_WIDTH || width == len,
            res@ == blanks(width - len),
        decreases FIELD_WIDTH - width,
    {
        proof {
            reveal_strlit(" ");
        }
        res.append(" ");
        width = width + 1;
        assert(res@ =~= blanks(width - len));
    }
    assert(blanks(width - len) =~= blanks(FIELD_WIDTH - len));
    res.append(digits.as_str());
    assert(res@ =~= field_text(value as nat, show));
    res
}

/// Renders one column for the count of one input: see `field_text`.
pub fn format_field(value: usize, show: bool) -> (res: String)
    ensures
        res@ == field_text(value as nat, show),
{
    format_count(value as u128, show)
}

/// Whether `c` is one of the ten digits.
pub open spec fn is_digit(c: char) -> bool {
    '0' <= c <= '9'
}

/// The number that the digits of `numeral` stand for, the most significant
/// first.
pub open spec fn numeral_value(numeral: Seq<char>) -> nat
    decreases numeral.len(),
{
    if numeral.len() == 0 {
        0
    } else {
        numeral_value(numeral.drop_last()) * 10 + (numeral.last() as u32 - '0' as u32) as nat
    }
}

/// The numeral of a number is made of digits, at least one, it stands for
/// that number, and it begins with a zero only where the number is zero.
pub proof fn law_decimal_reads_back(n: nat)
    ensures
        decimal(n).len() >= 1,
        forall|i: int| 0 <= i < decimal(n).len() ==> is_digit(#[trigger] decimal(n)[i]),
        numeral_value(decimal(n)) == n,
        decimal(n)[0] == '0' <==> n == 0,
    decreases n,
{
    if n < 10 {
        assert(decimal(n).drop_last() =~= Seq::<char>::empty());
        assert(numeral_value(decimal(n)) == n) by {
            reveal_with_fuel(numeral_value, 2);
        }
    } else {
        law_decimal_reads_back(n / 10);
        assert(decimal(n).drop_last() =~= decimal(n / 10));
        assert(decimal(n)[0] == decimal(n / 10)[0]);
    }
}

/// A column that is shown is at least `FIELD_WIDTH` characters wide. It ends
/// with the whole numeral, and only blanks stand before it: a numeral longer
/// than the width makes the column wider and loses no digit.
pub proof fn law_field_is_right_justified(value: nat)
    ensures
        ({
            let field = field_text(value, true);
            let digits = decimal(value);
            &&& field.len() == if digits.len() > FIELD_WIDTH {
                digits.len()
            } else {
                FIELD_WIDTH as nat
            }
            &&& field.subrange(field.len() - digits.len(), field.len() as int) == digits
            &&& forall|i: int| 0 <= i < field.len() - digits.len() ==> field[i] == ' '
        }),
        field_text(value, false).len() == 0,
{
    let field = field_text(value, true);
    let digits = decimal(value);
    assert(field.subrange(field.len() - digits.len(), field.len() as int) =~= digits);
}

} // verus!
