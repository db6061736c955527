//! Record identifiers as decimal text: writing them for fingerprints and
//! reading them from request paths.
use vstd::prelude::*;
use vstd::string::*;

verus! {

/// The code of the character `0`; the other digits follow it in order.
pub const ZERO: u8 = 48;

/// The code of the character `9`.
pub const NINE: u8 = 57;

/// The code of the minus sign.
pub const MINUS: u8 = 45;

/// The code of the plus sign.
pub const PLUS: u8 = 43;

/// The character that stands for the digit `d`.
pub open spec fn digit(d: int) -> char
    recommends
        0 <= d <= 9,
{
    ((d + ZERO) as u8) as char
}

/// A decimal digit.
pub open spec fn is_digit(c: char) -> bool {
    '0' <= c && c <= '9'
}

/// The number that a decimal digit stands for.
pub open spec fn digit_value(c: char) -> int {
    (c as u32) as int - ZERO
}

/// Every character is a decimal digit.
pub open spec fn all_digits(s: Seq<char>) -> bool {
    forall|i: int| 0 <= i < s.len() ==> is_digit(#[trigger] s[i])
}

/// A natural number in decimal notation, without leading zeros.
pub open spec fn decimal(n: nat) -> Seq<char>
    decreases n,
{
    if n < 10 {
        seq![digit(n as int)]
    } else {
        decimal(n / 10).push(digit((n % 10) as int))
    }
}

/// The number that a run of decimal digits stands for.
pub open spec fn digits_value(s: Seq<char>) -> nat
    recommends
        all_digits(s),
    decreases s.len(),
{
    if s.len() == 0 {
        0
    } else {
        (digits_value(s.drop_last()) * 10 + digit_value(s.last())) as nat
    }
}

/// An identifier as text: a minus sign where it is negative, then its
/// magnitude in decimal notation.
pub open spec fn id_text(id: int) -> Seq<char> {
    if id < 0 {
        seq!['-'] + decimal((-id) as nat)
    } else {
        decimal(id as nat)
    }
}

/// The identifier that a text stands for: an optional sign, then one or more
/// decimal digits, the whole within the range of `i64`. Leading zeros are
/// accepted. Every other text stands for none.
pub open spec fn parsed_id(s: Seq<char>) -> Option<i64> {
    let signed = s.len() > 0 && (s[0] == '-' || s[0] == '+');
    let digits = if signed {
        s.drop_first()
    } else {
        s
    };
    let value = if signed && s[0] == '-' {
        -(digits_value(digits) as int)
    } else {
        digits_value(digits) as int
    };
    if digits.len() > 0 && all_digits(digits) && i64::MIN <= value <= i64::MAX {
        Some(value as i64)
    } else {
        None
    }
}

/// Decimal notation consists of digits, has at least one, and stands for
/// the number it was written for.
pub proof fn lemma_decimal_reads_back(n: nat)
    ensures
        decimal(n).len() > 0,
        all_digits(decimal(n)),
        digits_value(decimal(n)) == n,
    decreases n,
{
    let s = decimal(n);
    if n < 10 {
        assert(digits_value(s.drop_last()) == 0);
    } else {
        lemma_decimal_reads_back(n / 10);
        assert(s.drop_last() =~= decimal(n / 10));
        assert(s.last() == digit((n % 10) as int));
        assert forall|i: int| 0 <= i < s.len() implies is_digit(#[trigger] s[i]) by {
            if i < s.len() - 1 {
                assert(s[i] == decimal(n / 10)[i]);
            }
        }
    }
}

/// Reading an identifier's text gives the identifier back.
pub proof fn lemma_id_text_reads_back(id: i64)
    ensures
        parsed_id(id_text(id as int)) == Some(id),
{
    if id < 0 {
        let magnitude = (-id) as nat;
        lemma_decimal_reads_back(magnitude);
        assert(id_text(id as int).drop_first() =~= decimal(magnitude));
    } else {
        lemma_decimal_reads_back(id as nat);
    }
}

/// Two identifiers with the same text are the same identifier.
pub proof fn lemma_id_text_is_injective(a: i64, b: i64)
    requires
        id_text(a as int) == id_text(b as int),
    ensures
        a == b,
{
    lemma_id_text_reads_back(a);
    lemma_id_text_reads_back(b);
}

/// A run of digits stands for at least as much as any of its beginnings.
pub proof fn lemma_digits_value_grows(s: Seq<char>, k: int)
    requires
        all_digits(s),
        0 <= k <= s.len(),
    ensures
        digits_value(s.subrange(0, k)) <= digits_value(s),
    decreases s.len() - k,
{
    if k == s.len() {
        assert(s.subrange(0, k) =~= s);
    } else {
        lemma_digits_value_grows(s, k + 1);
        let longer = s.subrange(0, k + 1);
        assert(longer.drop_last() =~= s.subrange(0, k));
    }
}

/// The text of one decimal digit.
fn digit_text(d: u64) -> (text: &'static str)
    requires
        d <= 9,
    ensures
        text@ == seq![digit(d as int)],
{
    proof {
        reveal_strlit("0");
        reveal_strlit("1");
        reveal_strlit("2");
        reveal_strlit("3");
        reveal_strlit("4");
        reveal_strlit("5");
        reveal_strlit("6");
        reveal_strlit("7");
        reveal_strlit("8");
        reveal_strlit("9");
    }
    match d {
        0 => "0",
        1 => "1",
        2 => "2",
        3 => "3",
        4 => "4",
        5 => "5",
        6 => "6",
        7 => "7",
        8 => "8",
        _ => "9",
    }
}

/// Appends the decimal notation of `n` to `out`.
pub fn push_decimal(out: &mut String, n: u64)
    ensures
        final(out)@ == old(out)@ + decimal(n as nat),
    decreases n,
{
    if n < 10 {
        out.append(digit_text(n));
    } else {
        push_decimal(out, n / 10);
        out.append(digit_text(n % 10));
    }
}

/// Appends the text of `id` to `out`.
pub fn push_id(out: &mut String, id: i64)
    ensures
        final(out)@ == old(out)@ + id_text(id as int),
{
    if id < 0 {
        let magnitude: u64 = (-(id + 1)) as u64 + 1;
        out.append("-");
        push_decimal(out, magnitude);
        proof {
            reveal_strlit("-");
        }
    } else {
        push_decimal(out, id as u64);
    }
}

/// A text that stands for an identifier consists of ASCII characters.
pub proof fn lemma_parsed_id_is_ascii(s: Seq<char>)
    requires
        parsed_id(s) is Some,
    ensures
        vstd::utf8::is_ascii_chars(s),
{
    let signed = s.len() > 0 && (s[0] == '-' || s[0] == '+');
    let digits = if signed {
        s.drop_first()
    } else {
        s
    };
    assert forall|i: int| 0 <= i < s.len() implies '\0' <= #[trigger] s[i] <= '\u{7f}' by {
        if !signed {
            assert(is_digit(digits[i]));
        } else if i > 0 {
            assert(is_digit(digits[i - 1]));
        }
    }
}

/// Reads an identifier: an optional sign, then decimal digits, within the
/// range of `i64`.
pub fn parse_id(s: &str) -> (id: Option<i64>)
    ensures
        id == parsed_id(s@),
{
    if !s.is_ascii() {
        proof {
            if parsed_id(s@) is Some {
                lemma_parsed_id_is_ascii(s@);
            }
        }
        return None;
    }
    let n = s.unicode_len();
    if n == 0 {
        return None;
    }
    let first: u8 = s.get_ascii(0);
    let negative = first == MINUS;
    let signed = negative || first == PLUS;
    let start: usize = if signed {
        1
    } else {
        0
    };
    if start == n {
        return None;
    }
    let ghost digits = s@.subrange(start as int, n as int);
    let mut magnitude: u128 = 0;
    let mut i: usize = start;
    while i < n
        invariant
            start <= i <= n,
            n == s@.len(),
            s.is_ascii(),
            signed == (s@[0] == '-' || s@[0] == '+'),
            digits == if signed {
                s@.drop_first()
            } else {
                s@
            },
            digits.len() == n - start,
            all_digits(digits.subrange(0, i - start)),
            magnitude == digits_value(digits.subrange(0, i - start)),
            magnitude <= 0x8000_0000_0000_0000,
        decreases n - i,
    {
        let b: u8 = s.get_ascii(i);
        let ghost c = digits[i - start];
        if b < ZERO || b > NINE {
            assert(!is_digit(c));
            return None;
        }
        proof {
            let longer = digits.subrange(0, i - start + 1);
            assert(longer.drop_last() =~= digits.subrange(0, i - start));
            assert(longer.last() == c);
            assert forall|j: int| 0 <= j < longer.len() implies is_digit(#[trigger] longer[j]) by {
                if j < longer.len() - 1 {
                    assert(longer[j] == digits.subrange(0, i - start)[j]);
                }
            }
        }
        magnitude = magnitude * 10 + (b - ZERO) as u128;
        i = i + 1;
        if magnitude > 0x8000_0000_0000_0000 {
            proof {
                if all_digits(digits) {
                    lemma_digits_value_grows(digits, i - start);
                }
            }
            return None;
        }
    }
    assert(digits.subrange(0, i - start) =~= digits);
    if negative {
        if magnitude == 0x8000_0000_0000_0000 {
            Some(i64::MIN)
        } else {
            Some(-(magnitude as i64))
        }
    } else {
        if magnitude > 0x7fff_ffff_ffff_ffff {
            None
        } else {
            Some(magnitude as i64)
        }
    }
}

} // verus!
