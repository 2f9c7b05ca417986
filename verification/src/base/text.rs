//! Numbers in text: how they are printed and which texts are numbers.
use vstd::prelude::*;

verus! {

/// The digit for `d`, hexadecimal in upper case.
pub open spec fn digit_char(d: int) -> char {
    if d == 0 {
        '0'
    } else if d == 1 {
        '1'
    } else if d == 2 {
        '2'
    } else if d == 3 {
        '3'
    } else if d == 4 {
        '4'
    } else if d == 5 {
        '5'
    } else if d == 6 {
        '6'
    } else if d == 7 {
        '7'
    } else if d == 8 {
        '8'
    } else if d == 9 {
        '9'
    } else if d == 10 {
        'A'
    } else if d == 11 {
        'B'
    } else if d == 12 {
        'C'
    } else if d == 13 {
        'D'
    } else if d == 14 {
        'E'
    } else {
        'F'
    }
}

/// `n` in decimal, without leading zeros.
pub open spec fn decimal(n: nat) -> Seq<char>
    decreases n,
{
    if n < 10 {
        seq![digit_char(n as int)]
    } else {
        decimal(n / 10).push(digit_char((n % 10) as int))
    }
}

/// `n` in hexadecimal, in upper case, with leading zeros up to `width` digits.
pub open spec fn hex(n: nat, width: nat) -> Seq<char>
    decreases n, width,
{
    if n == 0 && width == 0 {
        Seq::empty()
    } else {
        hex(
            n / 16,
            if width == 0 {
                0
            } else {
                (width - 1) as nat
            },
        ).push(digit_char((n % 16) as int))
    }
}

/// Whether `n` has no more than `width` hexadecimal digits.
pub open spec fn hex_fits(n: nat, width: nat) -> bool
    decreases width,
{
    if width == 0 {
        n == 0
    } else {
        hex_fits(n / 16, (width - 1) as nat)
    }
}

/// Whether `c` is a decimal digit.
pub open spec fn is_digit(c: char) -> bool {
    '0' <= c && c <= '9'
}

/// Whether all characters are decimal digits.
pub open spec fn all_digits(s: Seq<char>) -> bool {
    forall|i: int| 0 <= i < s.len() ==> is_digit(#[trigger] s[i])
}

/// The number that decimal digits stand for.
pub open spec fn digits_value(s: Seq<char>) -> nat
    decreases s.len(),
{
    if s.len() == 0 {
        0
    } else {
        10 * digits_value(s.drop_last()) + (s.last() as nat - '0' as nat) as nat
    }
}

/// A text without its leading plus sign, if it has one.
pub open spec fn without_plus(s: Seq<char>) -> Seq<char> {
    if s.len() > 0 && s[0] == '+' {
        s.skip(1)
    } else {
        s
    }
}

/// The number that a text stands for: decimal digits, at least one, perhaps behind a plus
/// sign, and not above `max`.
pub open spec fn unsigned_value(s: Seq<char>, max: nat) -> Option<nat> {
    let digits = without_plus(s);
    if digits.len() > 0 && all_digits(digits) && digits_value(digits) <= max {
        Some(digits_value(digits))
    } else {
        None
    }
}

/// The number that a text stands for: decimal digits, at least one, perhaps behind a plus
/// or a minus sign, within the range of 64-bit numbers.
pub open spec fn signed_value(s: Seq<char>) -> Option<int> {
    if s.len() > 0 && s[0] == '-' {
        let digits = s.skip(1);
        if digits.len() > 0 && all_digits(digits) && -digits_value(digits) >= i64::MIN {
            Some(-digits_value(digits))
        } else {
            None
        }
    } else {
        match unsigned_value(s, i64::MAX as nat) {
            Some(v) => Some(v as int),
            None => None,
        }
    }
}

/// The characters of a text.
pub fn chars_of(s: &str) -> (r: Vec<char>)
    ensures
        r@ == s@,
{
    let mut r: Vec<char> = Vec::new();
    for c in it: s.chars()
        invariant
            it.seq() == s@,
            r@ == s@.take(it.index() as int),
    {
        r.push(c);
        assert(r@ =~= s@.take(it.index() + 1));
    }
    assert(s@.take(s@.len() as int) =~= s@);
    r
}

/// Whether two texts are the same.
pub fn same_text(a: &str, b: &str) -> (r: bool)
    ensures
        r == (a@ == b@),
{
    let x = String::from_str(a);
    let y = String::from_str(b);
    x == y
}

/// The digit for `d` as a text.
fn digit_text(d: u64) -> (r: &'static str)
    requires
        d < 16,
    ensures
        r@ == seq![digit_char(d as int)],
{
    proof {
        reveal_strlit("0");
        reveal_strlit("1");
        reveal_strlit("2");
        reveal_strlit("3");
        reveal_strlit("4");
        reveal_strlit("5");
        reveal_strlit("6");
        reveal_strlit("7");
        reveal_strlit("8");
        reveal_strlit("9");
        reveal_strlit("A");
        reveal_strlit("B");
        reveal_strlit("C");
        reveal_strlit("D");
        reveal_strlit("E");
        reveal_strlit("F");
    }
    let r = match d {
        0 => "0",
        1 => "1",
        2 => "2",
        3 => "3",
        4 => "4",
        5 => "5",
        6 => "6",
        7 => "7",
        8 => "8",
        9 => "9",
        10 => "A",
        11 => "B",
        12 => "C",
        13 => "D",
        14 => "E",
        _ => "F",
    };
    assert(r@ =~= seq![digit_char(d as int)]);
    r
}

/// Prints `n` in decimal.
pub fn decimal_text(n: u64) -> (r: String)
    ensures
        r@ == decimal(n as nat),
    decreases n,
{
    if n < 10 {
        String::from_str(digit_text(n))
    } else {
        let mut r = decimal_text(n / 10);
        r.append(digit_text(n % 10));
        assert(r@ =~= decimal(n as nat));
        r
    }
}

/// Prints `n` in hexadecimal, with leading zeros up to `width` digits.
pub fn hex_text(n: u64, width: u32) -> (r: String)
    ensures
        r@ == hex(n as nat, width as nat),
    decreases n, width,
{
    if n == 0 && width == 0 {
        String::new()
    } else {
        let rest: u32 = if width == 0 {
            0
        } else {
            width - 1
        };
        let mut r = hex_text(n / 16, rest);
        r.append(digit_text(n % 16));
        assert(r@ =~= hex(n as nat, width as nat));
        r
    }
}

/// More digits make no smaller number.
proof fn lemma_digits_value_grow(s: Seq<char>, n: int)
    requires
        0 <= n <= s.len(),
        all_digits(s),
    ensures
        digits_value(s.take(n)) <= digits_value(s),
    decreases s.len() - n,
{
    if n < s.len() {
        lemma_digits_value_grow(s, n + 1);
        assert(s.take(n + 1).drop_last() =~= s.take(n));
        assert(is_digit(s[n]));
        assert(s.take(n + 1).last() == s[n]);
    } else {
        assert(s.take(n) =~= s);
    }
}

/// The number that the digits from `from` on stand for, unless it is above `max`.
fn parse_digits(s: &Vec<char>, from: usize, max: u64) -> (r: Option<u64>)
    requires
        from <= s@.len(),
    ensures
        ({
            let digits = s@.skip(from as int);
            match r {
                Some(v) => digits.len() > 0 && all_digits(digits) && digits_value(digits) == v && v
                    <= max,
                None => !(digits.len() > 0 && all_digits(digits) && digits_value(digits) <= max),
            }
        }),
{
    let ghost digits = s@.skip(from as int);
    if from == s.len() {
        return None;
    }
    let mut value: u64 = 0;
    let mut i = from;
    assert(digits.take(0).len() == 0);
    while i < s.len()
        invariant
            from <= i <= s@.len(),
            digits == s@.skip(from as int),
            value <= max,
            all_digits(digits.take(i - from)),
            value == digits_value(digits.take(i - from)),
        decreases s@.len() - i,
    {
        let c = s[i];
        let ghost n = i - from;
        assert(digits[n] == c);
        assert(digits.take(n + 1).drop_last() =~= digits.take(n));
        assert(digits.take(n + 1).last() == c);
        if !('0' <= c && c <= '9') {
            assert(!is_digit(digits[n]));
            return None;
        }
        let next = value as u128 * 10 + (c as u32 - '0' as u32) as u128;
        assert forall|k: int| 0 <= k < n + 1 implies is_digit(#[trigger] digits.take(n + 1)[k]) by {
            if k < n {
                assert(digits.take(n + 1)[k] == digits.take(n)[k]);
            }
        }
        if next > max as u128 {
            proof {
                if all_digits(digits) {
                    lemma_digits_value_grow(digits, n + 1);
                }
            }
            return None;
        }
        value = next as u64;
        i += 1;
    }
    assert(digits.take(i - from) =~= digits);
    Some(value)
}

/// Parses an unsigned number that is not above `max`.
pub fn parse_unsigned(s: &str, max: u64) -> (r: Option<u64>)
    ensures
        match r {
            Some(v) => unsigned_value(s@, max as nat) == Some(v as nat),
            None => unsigned_value(s@, max as nat) is None,
        },
{
    let chars = chars_of(s);
    if chars.len() > 0 && chars[0] == '+' {
        parse_digits(&chars, 1, max)
    } else {
        assert(chars@.skip(0) =~= chars@);
        parse_digits(&chars, 0, max)
    }
}

/// Parses a signed 64-bit number.
pub fn parse_signed(s: &str) -> (r: Option<i64>)
    ensures
        match r {
            Some(v) => signed_value(s@) == Some(v as int),
            None => signed_value(s@) is None,
        },
{
    let chars = chars_of(s);
    if chars.len() > 0 && chars[0] == '-' {
        match parse_digits(&chars, 1, 9223372036854775808) {
            Some(v) => {
                if v == 9223372036854775808 {
                    Some(i64::MIN)
                } else {
                    Some(-(v as i64))
                }
            },
            None => None,
        }
    } else {
        match parse_unsigned(s, 9223372036854775807) {
            Some(v) => Some(v as i64),
            None => None,
        }
    }
}

/// A printed number consists of digits and reads as that number.
pub proof fn decimal_round_trip(n: nat)
    ensures
        decimal(n).len() > 0,
        all_digits(decimal(n)),
        digits_value(decimal(n)) == n,
        forall|max: nat|
            #![trigger unsigned_value(decimal(n), max)]
            unsigned_value(decimal(n), max) == if n <= max {
                Some(n)
            } else {
                None
            },
    decreases n,
{
    let s = decimal(n);
    if n < 10 {
        assert(s.drop_last().len() == 0);
        assert(digits_value(s.drop_last()) == 0);
    } else {
        decimal_round_trip(n / 10);
        let front = decimal(n / 10);
        assert(s.drop_last() =~= front);
        assert forall|i: int| 0 <= i < s.len() implies is_digit(#[trigger] s[i]) by {
            if i < front.len() {
                assert(s[i] == front[i]);
            }
        }
    }
    assert(is_digit(s[0]));
    assert(without_plus(s) == s);
}

/// A hexadecimal print has as many digits as were asked for, where the number fits.
pub proof fn hex_len(n: nat, width: nat)
    requires
        hex_fits(n, width),
    ensures
        hex(n, width).len() == width,
    decreases width,
{
    if width > 0 {
        hex_len(n / 16, (width - 1) as nat);
    }
}

/// Different numbers are printed differently in hexadecimal.
pub proof fn hex_is_injective(a: nat, b: nat, width: nat)
    requires
        hex(a, width) == hex(b, width),
    ensures
        a == b,
    decreases a + b, width,
{
    if !(a == 0 && width == 0) && !(b == 0 && width == 0) {
        let rest: nat = if width == 0 {
            0
        } else {
            (width - 1) as nat
        };
        assert(hex(a, width).last() == digit_char((a % 16) as int));
        assert(hex(b, width).last() == digit_char((b % 16) as int));
        assert(hex(a, width).drop_last() =~= hex(a / 16, rest));
        assert(hex(b, width).drop_last() =~= hex(b / 16, rest));
        if a + b > 0 || width > 0 {
            hex_is_injective(a / 16, b / 16, rest);
        }
    } else {
        assert(hex(a, width).len() == hex(b, width).len());
    }
}

/// The digits are those of ASCII, above nine in upper case.
pub proof fn digits_are_ascii(d: int)
    requires
        0 <= d < 16,
    ensures
        digit_char(d) as int == if d < 10 {
            48 + d
        } else {
            55 + d
        },
{
}

/// A hexadecimal print consists of digits and upper-case letters up to `F`, and read to the
/// base sixteen it is the number.
pub proof fn hex_reads_back(n: nat, width: nat)
    ensures
        forall|i: int|
            0 <= i < hex(n, width).len() ==> ('0' <= #[trigger] hex(n, width)[i] && hex(
                n,
                width,
            )[i] <= '9') || ('A' <= hex(n, width)[i] && hex(n, width)[i] <= 'F'),
        hex(n, width).fold_left(
            0int,
            |v: int, c: char|
                16 * v + if c <= '9' {
                    c as int - 48
                } else {
                    c as int - 55
                },
        ) == n,
        hex(n, width).len() >= width,
        hex(n, width).len() > width && width > 0 ==> hex(n, width)[0] != '0',
    decreases n, width,
{
    let read = |v: int, c: char|
        16 * v + if c <= '9' {
            c as int - 48
        } else {
            c as int - 55
        };
    if n == 0 && width == 0 {
        reveal_with_fuel(Seq::fold_left, 1);
    } else {
        let rest: nat = if width == 0 {
            0
        } else {
            (width - 1) as nat
        };
        hex_reads_back(n / 16, rest);
        let front = hex(n / 16, rest);
        let all = hex(n, width);
        assert(all.drop_last() =~= front);
        digits_are_ascii((n % 16) as int);
        reveal_with_fuel(Seq::fold_left, 2);
        assert(all.fold_left(0int, read) == read(front.fold_left(0int, read), all.last()));
        assert forall|i: int| 0 <= i < all.len() implies ('0' <= #[trigger] all[i] && all[i] <= '9')
            || ('A' <= all[i] && all[i] <= 'F') by {
            if i < front.len() {
                assert(all[i] == front[i]);
            }
        }
        lemma_hex_leads(n, width);
    }
}

/// A hexadecimal print that is longer than asked for does not begin with a zero.
proof fn lemma_hex_leads(n: nat, width: nat)
    ensures
        hex(n, width).len() > width ==> n > 0 && hex(n, width)[0] != '0',
        hex(n, width).len() >= width,
    decreases n, width,
{
    if !(n == 0 && width == 0) {
        let rest: nat = if width == 0 {
            0
        } else {
            (width - 1) as nat
        };
        lemma_hex_leads(n / 16, rest);
        let front = hex(n / 16, rest);
        let all = hex(n, width);
        if all.len() > width {
            if front.len() > 0 {
                assert(all[0] == front[0]);
            } else {
                digits_are_ascii((n % 16) as int);
            }
        }
    }
}

/// A number has no more than `width` hexadecimal digits exactly if it is below the power of
/// sixteen.
pub proof fn fitting_is_below_the_power(n: nat, width: nat)
    ensures
        hex_fits(n, width) <==> n < vstd::arithmetic::power::pow(16, width),
    decreases width,
{
    if width == 0 {
        vstd::arithmetic::power::lemma_pow0(16);
    } else {
        let below = vstd::arithmetic::power::pow(16, (width - 1) as nat);
        fitting_is_below_the_power(n / 16, (width - 1) as nat);
        reveal(vstd::arithmetic::power::pow);
        assert(vstd::arithmetic::power::pow(16, width) == 16 * below);
    }
}

/// Decimal digits are read to the base ten.
pub proof fn digits_are_read_to_the_base_ten(s: Seq<char>)
    requires
        forall|i: int| 0 <= i < s.len() ==> '0' <= #[trigger] s[i] && s[i] <= '9',
    ensures
        digits_value(s) == s.fold_left(0int, |v: int, c: char| 10 * v + (c as int - 48)),
    decreases s.len(),
{
    let read = |v: int, c: char| 10 * v + (c as int - 48);
    reveal_with_fuel(Seq::fold_left, 2);
    if s.len() > 0 {
        let front = s.drop_last();
        assert forall|i: int| 0 <= i < front.len() implies '0' <= #[trigger] front[i] && front[i]
            <= '9' by {
            assert(front[i] == s[i]);
        }
        digits_are_read_to_the_base_ten(front);
        assert(s.last() == s[s.len() - 1]);
        assert(s.fold_left(0int, read) == read(front.fold_left(0int, read), s.last()));
    }
}

/// A printed number has no leading zeros.
pub proof fn decimals_have_no_leading_zeros(n: nat)
    ensures
        decimal(n).len() > 0,
        n > 0 ==> decimal(n)[0] != '0',
        n == 0 ==> decimal(n) == seq!['0'],
    decreases n,
{
    if n >= 10 {
        decimals_have_no_leading_zeros(n / 10);
    }
}

/// A printed number may be read with a sign: a plus changes nothing, and a minus is only for
/// signed numbers, where it makes the number negative.  Numbers beyond the range are none.
pub proof fn signs_are_read(n: nat, max: nat)
    ensures
        unsigned_value(seq!['+'] + decimal(n), max) == unsigned_value(decimal(n), max),
        unsigned_value(seq!['-'] + decimal(n), max) is None,
        signed_value(decimal(n)) == if n <= 0x7fff_ffff_ffff_ffff {
            Some(n as int)
        } else {
            None
        },
        signed_value(seq!['+'] + decimal(n)) == signed_value(decimal(n)),
        signed_value(seq!['-'] + decimal(n)) == if n <= 0x8000_0000_0000_0000 {
            Some(-(n as int))
        } else {
            None
        },
{
    decimal_round_trip(n);
    let s = decimal(n);
    assert(is_digit(s[0]));
    assert((seq!['+'] + s).skip(1) =~= s);
    assert((seq!['-'] + s).skip(1) =~= s);
    assert(!is_digit((seq!['-'] + s)[0]));
    assert(unsigned_value(s, max) == unsigned_value(s, max));
    assert(unsigned_value(s, 0x7fff_ffff_ffff_ffff) == if n <= 0x7fff_ffff_ffff_ffff {
        Some(n)
    } else {
        None
    });
}

/// A text that has no digits, or anything but digits behind its sign, is no number.
pub proof fn only_digits_make_numbers(s: Seq<char>, max: nat, i: int)
    requires
        s.len() == 0 || (0 <= i < s.len() && !('0' <= s[i] && s[i] <= '9') && (i > 0 || (s[0] != '+'
            && s[0] != '-') || s.len() == 1)),
    ensures
        unsigned_value(s, max) is None,
        signed_value(s) is None,
{
    if s.len() > 0 {
        if i > 0 {
            assert(s.skip(1)[i - 1] == s[i]);
        }
        assert(!is_digit(s[i]));
    }
}

} // verus!
