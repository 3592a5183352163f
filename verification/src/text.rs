//! Decimal text of integers: how numbers are written on a sheet and read from
//! an entry field.

use vstd::prelude::*;
use vstd::string::StringSliceAdditionalSpecFns;

verus! {

/// The character of the decimal digit `d`.
pub open spec fn digit_char(d: int) -> char {
    ('0' as int + d) as char
}

/// The decimal digits of `n`, most significant first, without leading zeros.
pub open spec fn nat_text(n: nat) -> Seq<char>
    decreases n,
{
    if n < 10 {
        seq![digit_char(n as int)]
    } else {
        nat_text(n / 10).push(digit_char((n % 10) as int))
    }
}

/// The decimal text of `v`: a minus sign for a negative number, then the
/// digits of its magnitude.
pub open spec fn int_text(v: int) -> Seq<char> {
    if v < 0 {
        seq!['-'] + nat_text((-v) as nat)
    } else {
        nat_text(v as nat)
    }
}

/// The text of one decimal digit.
pub fn digit_str(d: u8) -> (text: &'static str)
    requires
        d < 10,
    ensures
        text@ == seq![digit_char(d as int)],
{
    proof {
        reveal_strlit("0");
        reveal_strlit("1");
        reveal_strlit("2");
        reveal_strlit("3");
        reveal_strlit("4");
        reveal_strlit("5");
        reveal_strlit("6");
        reveal_strlit("7");
        reveal_strlit("8");
        reveal_strlit("9");
    }
    let text = match d {
        0 => "0",
        1 => "1",
        2 => "2",
        3 => "3",
        4 => "4",
        5 => "5",
        6 => "6",
        7 => "7",
        8 => "8",
        _ => "9",
    };
    assert(text@ =~= seq![digit_char(d as int)]);
    text
}

/// Writes `n` in decimal.
pub fn render_nat(n: u64) -> (text: String)
    ensures
        text@ == nat_text(n as nat),
    decreases n,
{
    if n < 10 {
        String::from_str(digit_str(n as u8))
    } else {
        let mut text = render_nat(n / 10);
        text.append(digit_str((n % 10) as u8));
        text
    }
}

/// Writes `v` in decimal.
pub fn render_i32(v: i32) -> (text: String)
    ensures
        text@ == int_text(v as int),
{
    if v < 0 {
        let magnitude: u64 = (-(v as i64)) as u64;
        let mut text = String::from_str("-");
        proof {
            reveal_strlit("-");
        }
        let digits = render_nat(magnitude);
        text.append(digits.as_str());
        assert(text@ =~= seq!['-'] + nat_text((-v) as nat));
        text
    } else {
        render_nat(v as u64)
    }
}

/// Whether `c` is a decimal digit.
pub open spec fn is_digit(c: char) -> bool {
    '0' <= c <= '9'
}

/// The value of the decimal digit `c`.
pub open spec fn digit_value(c: char) -> int {
    c as int - '0' as int
}

/// Whether `text` holds decimal digits only.
pub open spec fn all_digits(text: Seq<char>) -> bool {
    forall|i: int| 0 <= i < text.len() ==> is_digit(#[trigger] text[i])
}

/// The number that the decimal digits of `text` write. Zero for the empty
/// text.
pub open spec fn digits_value(text: Seq<char>) -> nat
    decreases text.len(),
{
    if text.len() == 0 {
        0
    } else {
        (digits_value(text.drop_last()) * 10 + digit_value(text.last())) as nat
    }
}

/// The integer that `text` writes: an optional sign, `+` or `-`, followed by
/// one or more decimal digits and nothing else. `None` for any other text.
pub open spec fn parse_int(text: Seq<char>) -> Option<int> {
    if text.len() > 0 && (text[0] == '-' || text[0] == '+') {
        let digits = text.skip(1);
        if digits.len() > 0 && all_digits(digits) {
            if text[0] == '-' {
                Some(-(digits_value(digits) as int))
            } else {
                Some(digits_value(digits) as int)
            }
        } else {
            None
        }
    } else if text.len() > 0 && all_digits(text) {
        Some(digits_value(text) as int)
    } else {
        None
    }
}

/// The `i32` that `text` writes. `None` where `text` writes no integer or
/// one that an `i32` cannot hold.
pub open spec fn parse_i32(text: Seq<char>) -> Option<i32> {
    match parse_int(text) {
        Some(v) => if i32::MIN <= v <= i32::MAX {
            Some(v as i32)
        } else {
            None
        },
        None => None,
    }
}

/// The digits of a number are digits, and write that number.
pub proof fn lemma_nat_text_value(n: nat)
    ensures
        nat_text(n).len() > 0,
        all_digits(nat_text(n)),
        digits_value(nat_text(n)) == n,
    decreases n,
{
    if n < 10 {
        let text = nat_text(n);
        assert(text.drop_last() =~= Seq::<char>::empty());
        assert(digits_value(text.drop_last()) == 0);
    } else {
        lemma_nat_text_value(n / 10);
        let text = nat_text(n);
        assert(text.drop_last() =~= nat_text(n / 10));
    }
}

/// Reading the decimal text of an integer gives the integer back.
pub proof fn lemma_parse_int_text(v: int)
    ensures
        parse_int(int_text(v)) == Some(v),
{
    if v < 0 {
        lemma_nat_text_value((-v) as nat);
        assert(int_text(v).skip(1) =~= nat_text((-v) as nat));
    } else {
        lemma_nat_text_value(v as nat);
        assert(is_digit(int_text(v)[0]));
    }
}

/// Appending a digit to a text multiplies its value by ten and adds the
/// digit.
pub proof fn lemma_digits_value_push(text: Seq<char>, c: char)
    requires
        is_digit(c),
    ensures
        digits_value(text.push(c)) == digits_value(text) * 10 + digit_value(c),
{
    assert(text.push(c).drop_last() =~= text);
}

/// Reads an `i32` from its decimal text.
pub fn read_i32(text: &str) -> (value: Option<i32>)
    ensures
        value == parse_i32(text@),
{
    if !text.is_ascii() {
        proof {
            let i = choose|i: int|
                0 <= i < text@.len() && !('\0' <= #[trigger] text@[i] <= '\u{7f}');
            if i > 0 {
                assert(text@.skip(1)[i - 1] == text@[i]);
            }
        }
        return None;
    }
    let n: usize = text.as_bytes().len();
    proof {
        vstd::string::is_ascii_spec_bytes(text);
        assert(vstd::string::is_ascii(text));
        assert(text.spec_bytes().len() == text@.len());
    }
    if n == 0 {
        return None;
    }
    let first: u8 = text.get_ascii(0);
    let signed: bool = first == 45 || first == 43;
    let start: usize = if signed { 1 } else { 0 };
    let ghost digits = text@.skip(start as int);
    assert(signed == (text@[0] == '-' || text@[0] == '+'));
    assert(first == 45 <==> text@[0] == '-');
    if start == n {
        return None;
    }
    let mut magnitude: i64 = 0;
    let mut overflow: bool = false;
    let mut i: usize = start;
    while i < n
        invariant
            start <= i <= n,
            n == text@.len(),
            text.is_ascii(),
            digits == text@.skip(start as int),
            start == (if text@[0] == '-' || text@[0] == '+' {
                1int
            } else {
                0int
            }),
            all_digits(digits.take(i - start)),
            !overflow ==> magnitude == digits_value(digits.take(i - start)) && magnitude
                <= 0x8000_0000,
            overflow ==> digits_value(digits.take(i - start)) > 0x8000_0000,
        decreases n - i,
    {
        let b: u8 = text.get_ascii(i);
        if b < 48 || b > 57 {
            assert(!is_digit(digits[i - start]));
            return None;
        }
        proof {
            let shorter = digits.take(i - start);
            let longer = digits.take(i - start + 1);
            assert(is_digit(digits[i - start]));
            assert(longer =~= shorter.push(digits[i - start]));
            lemma_digits_value_push(shorter, digits[i - start]);
        }
        if !overflow {
            magnitude = magnitude * 10 + (b - 48) as i64;
            if magnitude > 0x8000_0000 {
                overflow = true;
            }
        }
        i += 1;
    }
    assert(digits.take(n - start) =~= digits);
    assert(text@.skip(0) =~= text@);
    if overflow {
        None
    } else if first == 45 {
        Some((-magnitude) as i32)
    } else if magnitude > 0x7fff_ffff {
        None
    } else {
        Some(magnitude as i32)
    }
}

} // verus!
