//! Whole numbers in decimal notation: how they are written and how they are read.

use vstd::prelude::*;

use crate::text::chars_of;

verus! {

/// The digit of value `d`.
pub open spec fn digit_char(d: int) -> char {
    ('0' as u32 + d) as char
}

/// Whether `c` is one of the digits 0 to 9.
pub open spec fn is_digit(c: char) -> bool {
    '0' <= c <= '9'
}

/// `n` in decimal notation, without leading zeros.
pub open spec fn decimal(n: nat) -> Seq<char>
    decreases n,
{
    if n < 10 {
        seq![digit_char(n as int)]
    } else {
        decimal(n / 10).push(digit_char((n % 10) as int))
    }
}

/// `n` in decimal notation, with a minus sign where it is negative.
pub open spec fn signed_decimal(n: int) -> Seq<char> {
    if n < 0 {
        seq!['-'] + decimal((-n) as nat)
    } else {
        decimal(n as nat)
    }
}

/// `n` in decimal notation, with at least two digits.
pub open spec fn two_digits(n: nat) -> Seq<char> {
    if n < 10 {
        seq!['0'] + decimal(n)
    } else {
        decimal(n)
    }
}

/// The number that a run of digits stands for.
pub open spec fn digits_value(s: Seq<char>) -> int
    decreases s.len(),
{
    if s.len() == 0 {
        0
    } else {
        10 * digits_value(s.drop_last()) + (s.last() as u32 - '0' as u32)
    }
}

/// Whether `s` is a run of at least one digit.
pub open spec fn is_digits(s: Seq<char>) -> bool {
    s.len() > 0 && forall|i: int| 0 <= i < s.len() ==> #[trigger] is_digit(s[i])
}

/// What `s` holds after its sign, where it has one.
pub open spec fn after_sign(s: Seq<char>) -> Seq<char> {
    if s.len() > 0 && (s[0] == '+' || s[0] == '-') {
        s.drop_first()
    } else {
        s
    }
}

/// The number that `s` writes: digits, with an optional sign before them and nothing else.
pub open spec fn integer_value(s: Seq<char>) -> Option<int> {
    if !is_digits(after_sign(s)) {
        None
    } else if s[0] == '-' {
        Some(-digits_value(after_sign(s)))
    } else {
        Some(digits_value(after_sign(s)))
    }
}

/// The number that `s` writes, where it is one of 64 bits.
pub open spec fn i64_value(s: Seq<char>) -> Option<i64> {
    match integer_value(s) {
        Some(n) => if i64::MIN <= n <= i64::MAX {
            Some(n as i64)
        } else {
            None
        },
        None => None,
    }
}

proof fn lemma_prefix_value(s: Seq<char>, k: int)
    requires
        0 <= k <= s.len(),
        forall|i: int| 0 <= i < s.len() ==> #[trigger] is_digit(s[i]),
    ensures
        0 <= digits_value(s.take(k)) <= digits_value(s),
    decreases s.len(),
{
    if s.len() == 0 {
        assert(s.take(k) == s);
    } else {
        assert(is_digit(s[s.len() - 1]));
        let t = s.drop_last();
        assert forall|i: int| 0 <= i < t.len() implies #[trigger] is_digit(t[i]) by {
            assert(is_digit(s[i]));
        }
        if k == s.len() {
            lemma_prefix_value(t, t.len() as int);
            assert(t.take(t.len() as int) == t);
            assert(s.take(k) == s);
        } else {
            lemma_prefix_value(t, k);
            assert(t.take(k) == s.take(k));
        }
    }
}

/// The number that `s` writes, where it is one of 64 bits.
pub fn parse_i64(s: &str) -> (r: Option<i64>)
    ensures
        r == i64_value(s@),
{
    let x = chars_of(s);
    let n: usize = x.len();
    let signed = n > 0 && (x[0] == '+' || x[0] == '-');
    let from: usize = if signed {
        1
    } else {
        0
    };
    let ghost digits = after_sign(s@);
    assert(digits == s@.skip(from as int));
    if from == n {
        return None;
    }
    let mut value: u64 = 0;
    let mut i: usize = from;
    assert(digits.take(0).len() == 0);
    while i < n
        invariant
            n == x.len(),
            x@ == s@,
            from <= i <= n,
            digits == s@.skip(from as int),
            digits == after_sign(s@),
            value == digits_value(digits.take(i - from)),
            value <= 0x8000_0000_0000_0000,
            forall|j: int| 0 <= j < i - from ==> #[trigger] is_digit(digits[j]),
        decreases n - i,
    {
        assert(digits[i - from] == x[i as int]);
        if !('0' <= x[i] && x[i] <= '9') {
            assert(!is_digit(digits[i - from]));
            return None;
        }
        let d: u64 = x[i] as u64 - '0' as u64;
        proof {
            assert(digits.take(i - from + 1).drop_last() == digits.take(i - from));
            assert(digits_value(digits.take(i - from + 1)) == 10 * value + d);
            if value > 922337203685477580 || 10 * value + d > 0x8000_0000_0000_0000 {
                if is_digits(digits) {
                    lemma_prefix_value(digits, i - from + 1);
                }
            }
        }
        if value > 922337203685477580 {
            return None;
        }
        value = 10 * value + d;
        if value > 0x8000_0000_0000_0000 {
            return None;
        }
        i = i + 1;
    }
    assert(digits.take(n - from) == digits);
    assert(is_digits(digits));
    if x[0] == '-' {
        if value == 0x8000_0000_0000_0000 {
            Some(i64::MIN)
        } else {
            Some(-(value as i64))
        }
    } else if value == 0x8000_0000_0000_0000 {
        None
    } else {
        Some(value as i64)
    }
}

fn digit_text(d: u64) -> (r: &'static str)
    requires
        d < 10,
    ensures
        r@ == seq![digit_char(d as int)],
{
    proof {
        reveal_strlit("0");
        reveal_strlit("1");
        reveal_strlit("2");
        reveal_strlit("3");
        reveal_strlit("4");
        reveal_strlit("5");
        reveal_strlit("6");
        reveal_strlit("7");
        reveal_strlit("8");
        reveal_strlit("9");
    }
    if d == 0 {
        "0"
    } else if d == 1 {
        "1"
    } else if d == 2 {
        "2"
    } else if d == 3 {
        "3"
    } else if d == 4 {
        "4"
    } else if d == 5 {
        "5"
    } else if d == 6 {
        "6"
    } else if d == 7 {
        "7"
    } else if d == 8 {
        "8"
    } else {
        "9"
    }
}

/// `n` in decimal notation.
pub fn decimal_text(n: u64) -> (r: String)
    ensures
        r@ == decimal(n as nat),
    decreases n,
{
    let mut r = if n < 10 {
        String::new()
    } else {
        decimal_text(n / 10)
    };
    r.append(digit_text(n % 10));
    assert(r@ =~= decimal(n as nat));
    r
}

/// `n` in decimal notation, with at least two digits.
pub fn two_digit_text(n: u64) -> (r: String)
    ensures
        r@ == two_digits(n as nat),
{
    let mut r = String::new();
    if n < 10 {
        r.append(digit_text(0));
    }
    r.append(decimal_text(n).as_str());
    assert(r@ =~= two_digits(n as nat));
    r
}

/// `n` in decimal notation, with a minus sign where it is negative.
pub fn i64_text(n: i64) -> (r: String)
    ensures
        r@ == signed_decimal(n as int),
{
    if n < 0 {
        let size: u64 = if n == i64::MIN {
            0x8000_0000_0000_0000
        } else {
            (-n) as u64
        };
        let mut r = "-".to_owned();
        proof {
            reveal_strlit("-");
        }
        r.append(decimal_text(size).as_str());
        assert(r@ =~= signed_decimal(n as int));
        r
    } else {
        decimal_text(n as u64)
    }
}

/// The decimal notation of a number is a run of digits that stands for it.
pub proof fn decimal_stands_for_its_number(n: nat)
    ensures
        is_digits(decimal(n)),
        digits_value(decimal(n)) == n,
    decreases n,
{
    let d = digit_char((n % 10) as int);
    assert(is_digit(d) && d as u32 - '0' as u32 == n % 10);
    if n < 10 {
        assert(digits_value(decimal(n).drop_last()) == 0);
    } else {
        decimal_stands_for_its_number(n / 10);
        assert(decimal(n).drop_last() == decimal(n / 10));
        assert forall|i: int| 0 <= i < decimal(n).len() implies #[trigger] is_digit(
            decimal(n)[i],
        ) by {
            if i < decimal(n / 10).len() {
                assert(is_digit(decimal(n / 10)[i]));
            }
        }
    }
}

/// Reading what was written gives the number back.
pub proof fn written_number_reads_back(n: i64)
    ensures
        i64_value(signed_decimal(n as int)) == Some(n),
{
    let s = signed_decimal(n as int);
    if n < 0 {
        decimal_stands_for_its_number((-n) as nat);
        assert(after_sign(s) == decimal((-n) as nat));
    } else {
        decimal_stands_for_its_number(n as nat);
        assert(is_digit(s[0]));
        assert(after_sign(s) == s);
    }
}

/// A run of digits is worth ten times what it is worth without its last digit, and that digit.
pub proof fn digits_are_worth_their_places(s: Seq<char>, c: char)
    requires
        '0' <= c <= '9',
    ensures
        digits_value(Seq::empty()) == 0,
        digits_value(s.push(c)) == 10 * digits_value(s) + (c as u32 - 48),
{
    assert(s.push(c).drop_last() == s);
}

/// A number is written with the digits 0 to 9 alone, and starts with 0 only where it is zero. A
/// negative number is written as its opposite after a minus sign.
pub proof fn numbers_are_written_without_leading_zeros(n: nat)
    ensures
        decimal(n).len() > 0,
        forall|i: int| 0 <= i < decimal(n).len() ==> '0' <= #[trigger] decimal(n)[i] <= '9',
        digits_value(decimal(n)) == n,
        n > 0 ==> decimal(n)[0] != '0',
        n < 10 ==> decimal(n).len() == 1,
        signed_decimal(n as int) == decimal(n),
        n > 0 ==> signed_decimal(-(n as int)) == seq!['-'] + decimal(n),
    decreases n,
{
    decimal_stands_for_its_number(n);
    assert forall|i: int| 0 <= i < decimal(n).len() implies '0' <= #[trigger] decimal(n)[i]
        <= '9' by {
        assert(is_digit(decimal(n)[i]));
    }
    if n >= 10 {
        numbers_are_written_without_leading_zeros(n / 10);
        assert(decimal(n)[0] == decimal(n / 10)[0]);
    }
}

/// Numbers below a hundred get two digits, that of the tens and that of the ones; larger ones are
/// written as usual.
pub proof fn two_digits_are_tens_and_ones(n: nat)
    ensures
        n < 100 ==> two_digits(n) == seq![(48 + n / 10) as char, (48 + n % 10) as char],
        n >= 10 ==> two_digits(n) == decimal(n),
{
    assert('0' as u32 == 48);
    if n < 10 {
        assert(n / 10 == 0 && n % 10 == n);
        assert(48int as char == '0');
        assert(two_digits(n) =~= seq![(48 + n / 10) as char, (48 + n % 10) as char]);
    } else if n < 100 {
        assert(n / 10 < 10);
        assert(decimal(n / 10) == seq![digit_char((n / 10) as int)]);
        assert(two_digits(n) =~= seq![(48 + n / 10) as char, (48 + n % 10) as char]);
    }
}

/// Digits are read as the number they are worth, with or without a plus sign, and as its opposite
/// after a minus sign, where that is a number of 64 bits; otherwise nothing is read.
pub proof fn digits_are_read_with_their_sign(digits: Seq<char>)
    requires
        digits.len() > 0,
        forall|i: int| 0 <= i < digits.len() ==> '0' <= #[trigger] digits[i] <= '9',
    ensures
        i64_value(digits) == (if digits_value(digits) <= 9223372036854775807 {
            Some(digits_value(digits) as i64)
        } else {
            None
        }),
        i64_value(seq!['+'] + digits) == i64_value(digits),
        i64_value(seq!['-'] + digits) == (if digits_value(digits) <= 9223372036854775808 {
            Some((-digits_value(digits)) as i64)
        } else {
            None
        }),
{
    assert forall|i: int| 0 <= i < digits.len() implies #[trigger] is_digit(digits[i]) by {
        assert('0' <= digits[i] <= '9');
    }
    lemma_prefix_value(digits, 0);
    assert('0' <= digits[0] <= '9');
    assert(after_sign(digits) == digits);
    let plus = seq!['+'] + digits;
    let minus = seq!['-'] + digits;
    assert(plus.drop_first() == digits);
    assert(minus.drop_first() == digits);
    assert(after_sign(plus) == digits);
    assert(after_sign(minus) == digits);
}

/// Nothing is read of a text that is empty, is a sign alone, or holds anything but digits, save a
/// sign at its start.
pub proof fn nothing_else_is_a_number(s: Seq<char>, i: int)
    requires
        s.len() == 0 || (s.len() == 1 && !('0' <= s[0] <= '9')) || (0 <= i < s.len() && !('0'
            <= s[i] <= '9') && (i > 0 || (s[0] != '+' && s[0] != '-'))),
    ensures
        i64_value(s) is None,
{
    let digits = after_sign(s);
    if s.len() > 0 && 0 <= i < s.len() {
        if s[0] == '+' || s[0] == '-' {
            if i > 0 {
                assert(digits[i - 1] == s[i]);
                assert(!is_digit(digits[i - 1]));
            }
        } else {
            assert(!is_digit(digits[i]));
        }
    }
    if s.len() == 1 && !('0' <= s[0] <= '9') && !(s[0] == '+' || s[0] == '-') {
        assert(!is_digit(digits[0]));
    }
}

} // verus!
