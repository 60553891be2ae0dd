//! Numbers as text: reading and writing decimal and octal digits.

use vstd::prelude::*;
use crate::text::{append_chars, slice_of};

verus! {

/// Whether `c` is one of the ten decimal digits.
pub open spec fn is_digit(c: char) -> bool {
    '0' <= c <= '9'
}

/// The number that the digit `c` stands for.
pub open spec fn digit_value(c: char) -> nat {
    (c as u32 - '0' as u32) as nat
}

/// Whether `s` is made of decimal digits and of nothing else.
pub open spec fn all_digits(s: Seq<char>) -> bool {
    forall|i: int| 0 <= i < s.len() ==> is_digit(#[trigger] s[i])
}

/// The number that the decimal digits of `s` write.
pub open spec fn decimal_value(s: Seq<char>) -> nat
    decreases s.len(),
{
    if s.len() == 0 {
        0
    } else {
        decimal_value(s.drop_last()) * 10 + digit_value(s.last())
    }
}

/// Reading more digits never gives a smaller number.
pub proof fn lemma_decimal_value_grows(s: Seq<char>, n: int)
    requires
        0 <= n <= s.len(),
    ensures
        decimal_value(s.take(n)) <= decimal_value(s),
    decreases s.len() - n,
{
    if n < s.len() {
        lemma_decimal_value_grows(s, n + 1);
        assert(s.take(n + 1).drop_last() == s.take(n));
    } else {
        assert(s.take(n) == s);
    }
}

/// What a text of digits reads as: the number it writes, if it is not empty,
/// holds digits only, and the number is at most `max`.
pub open spec fn read_decimal(s: Seq<char>, max: nat) -> Option<nat> {
    if s.len() > 0 && all_digits(s) && decimal_value(s) <= max {
        Some(decimal_value(s))
    } else {
        None
    }
}

/// Reads the text of `v` as an unsigned decimal number.
pub fn parse_u64(v: &Vec<char>) -> (r: Option<u64>)
    ensures
        match r {
            Some(n) => read_decimal(v@, u64::MAX as nat) == Some(n as nat),
            None => read_decimal(v@, u64::MAX as nat) is None,
        },
{
    if v.len() == 0 {
        return None;
    }
    let mut n: u64 = 0;
    let mut i: usize = 0;
    while i < v.len()
        invariant
            i <= v.len(),
            all_digits(v@.take(i as int)),
            n == decimal_value(v@.take(i as int)),
        decreases v.len() - i,
    {
        let c = v[i];
        proof {
            assert(v@.take(i + 1).drop_last() == v@.take(i as int));
            assert(v@.take(i + 1).last() == c);
        }
        if !('0' <= c && c <= '9') {
            proof {
                assert(!is_digit(v@[i as int]));
            }
            return None;
        }
        let d: u64 = (c as u32 - '0' as u32) as u64;
        if n > (u64::MAX - d) / 10 {
            proof {
                assert(n * 10 + d > u64::MAX);
                lemma_decimal_value_grows(v@, i + 1);
            }
            return None;
        }
        n = n * 10 + d;
        proof {
            assert forall|k: int| 0 <= k < i + 1 implies is_digit(
                #[trigger] v@.take(i + 1)[k],
            ) by {
                if k < i {
                    assert(v@.take(i as int)[k] == v@.take(i + 1)[k]);
                }
            }
        }
        i += 1;
    }
    proof {
        assert(v@.take(v.len() as int) == v@);
    }
    Some(n)
}

/// What a text reads as a signed number within `min..=max`: an optional `-`,
/// then digits.
pub open spec fn read_signed(s: Seq<char>, min: int, max: int) -> Option<int> {
    if s.len() > 0 && s[0] == '-' {
        match read_decimal(s.skip(1), (-min) as nat) {
            Some(n) => Some(-(n as int)),
            None => None,
        }
    } else {
        match read_decimal(s, max as nat) {
            Some(n) => Some(n as int),
            None => None,
        }
    }
}

/// Reads the text of `v` as a signed decimal number.
pub fn parse_i32(v: &Vec<char>) -> (r: Option<i32>)
    ensures
        match r {
            Some(n) => read_signed(v@, i32::MIN as int, i32::MAX as int) == Some(n as int),
            None => read_signed(v@, i32::MIN as int, i32::MAX as int) is None,
        },
{
    if v.len() > 0 && v[0] == '-' {
        let rest = slice_of(v, 1, v.len());
        proof {
            assert(rest@ == v@.skip(1));
        }
        match parse_u64(&rest) {
            Some(n) => {
                if n <= 2147483648 {
                    let m: i64 = -(n as i64);
                    Some(m as i32)
                } else {
                    None
                }
            },
            None => None,
        }
    } else {
        match parse_u64(v) {
            Some(n) => {
                if n <= 2147483647 {
                    Some(n as i32)
                } else {
                    None
                }
            },
            None => None,
        }
    }
}

/// The character that writes the digit `d`.
pub open spec fn digit_char(d: nat) -> char {
    if d == 0 {
        '0'
    } else if d == 1 {
        '1'
    } else if d == 2 {
        '2'
    } else if d == 3 {
        '3'
    } else if d == 4 {
        '4'
    } else if d == 5 {
        '5'
    } else if d == 6 {
        '6'
    } else if d == 7 {
        '7'
    } else if d == 8 {
        '8'
    } else {
        '9'
    }
}

/// Executable form of [`digit_char`].
pub fn digit_of(d: u8) -> (c: char)
    requires
        d < 10,
    ensures
        c == digit_char(d as nat),
{
    if d == 0 {
        '0'
    } else if d == 1 {
        '1'
    } else if d == 2 {
        '2'
    } else if d == 3 {
        '3'
    } else if d == 4 {
        '4'
    } else if d == 5 {
        '5'
    } else if d == 6 {
        '6'
    } else if d == 7 {
        '7'
    } else if d == 8 {
        '8'
    } else {
        '9'
    }
}

/// The character that writes a digit is a digit and stands for it.
pub proof fn lemma_digit_char(d: nat)
    requires
        d < 10,
    ensures
        is_digit(digit_char(d)),
        digit_value(digit_char(d)) == d,
{
    assert('0' as u32 == 48 && '1' as u32 == 49 && '2' as u32 == 50 && '3' as u32 == 51 && '4'
        as u32 == 52);
    assert('5' as u32 == 53 && '6' as u32 == 54 && '7' as u32 == 55 && '8' as u32 == 56 && '9'
        as u32 == 57);
}

/// The decimal digits that write `n`, without leading zeros.
pub open spec fn decimal(n: nat) -> Seq<char>
    decreases n,
{
    if n < 10 {
        seq![digit_char(n)]
    } else {
        decimal(n / 10).push(digit_char(n % 10))
    }
}

/// The decimal digits that write `n`.
pub fn decimal_chars(n: u64) -> (r: Vec<char>)
    ensures
        r@ == decimal(n as nat),
    decreases n,
{
    if n < 10 {
        let mut r: Vec<char> = Vec::new();
        r.push(digit_of(n as u8));
        r
    } else {
        let mut r = decimal_chars(n / 10);
        r.push(digit_of((n % 10) as u8));
        r
    }
}

/// What is written is read back: the digits that write `n` are digits, and
/// they write `n`.
pub proof fn lemma_decimal_round_trip(n: nat)
    ensures
        decimal(n).len() > 0,
        all_digits(decimal(n)),
        decimal_value(decimal(n)) == n,
        forall|max: nat| n <= max ==> #[trigger] read_decimal(decimal(n), max) == Some(n),
    decreases n,
{
    if n >= 10 {
        lemma_decimal_round_trip(n / 10);
        lemma_digit_char(n % 10);
        let head = decimal(n / 10);
        let all = head.push(digit_char(n % 10));
        assert(all.drop_last() == head);
        assert forall|i: int| 0 <= i < all.len() implies is_digit(#[trigger] all[i]) by {
            if i < head.len() {
                assert(all[i] == head[i]);
            }
        }
        assert(decimal_value(all) == decimal_value(head) * 10 + digit_value(all.last()));
    } else {
        lemma_digit_char(n);
        let all = seq![digit_char(n)];
        assert(all.drop_last().len() == 0);
        assert(decimal_value(all.drop_last()) == 0);
        assert(decimal_value(all) == decimal_value(all.drop_last()) * 10 + digit_value(
            all.last(),
        ));
    }
}

/// `s` with as many `fill` characters put before it as it lacks to `width`.
pub open spec fn pad_start(s: Seq<char>, width: nat, fill: char) -> Seq<char> {
    if s.len() >= width {
        s
    } else {
        Seq::new((width - s.len()) as nat, |i: int| fill) + s
    }
}

/// The text of `v`, filled at its start to `width` characters.
pub fn pad_start_chars(v: &Vec<char>, width: usize, fill: char) -> (r: Vec<char>)
    ensures
        r@ == pad_start(v@, width as nat, fill),
{
    let mut r: Vec<char> = Vec::new();
    if v.len() < width {
        let n = width - v.len();
        let mut i: usize = 0;
        while i < n
            invariant
                i <= n,
                r@ == Seq::new(i as nat, |k: int| fill),
            decreases n - i,
        {
            r.push(fill);
            proof {
                assert(r@ =~= Seq::new((i + 1) as nat, |k: int| fill));
            }
            i += 1;
        }
    }
    let ghost before = r@;
    append_chars(&mut r, v);
    proof {
        if v.len() >= width {
            assert(r@ =~= v@);
        }
    }
    r
}

/// Whether `c` is one of the eight octal digits.
pub open spec fn is_octal_digit(c: char) -> bool {
    '0' <= c <= '7'
}

/// The number that the octal digits of `s` write.
pub open spec fn octal_value(s: Seq<char>) -> nat
    decreases s.len(),
{
    if s.len() == 0 {
        0
    } else {
        octal_value(s.drop_last()) * 8 + digit_value(s.last())
    }
}

/// What a text of one to four octal digits reads as.
pub open spec fn read_octal(s: Seq<char>) -> Option<nat> {
    if 1 <= s.len() <= 4 && (forall|i: int| 0 <= i < s.len() ==> is_octal_digit(#[trigger] s[i])) {
        Some(octal_value(s))
    } else {
        None
    }
}

/// Reads the text of `v` as an octal number of at most four digits.
pub fn parse_octal(v: &Vec<char>) -> (r: Option<u32>)
    ensures
        match r {
            Some(n) => read_octal(v@) == Some(n as nat) && n < 4096,
            None => read_octal(v@) is None,
        },
{
    if v.len() == 0 || v.len() > 4 {
        return None;
    }
    let mut n: u32 = 0;
    let mut i: usize = 0;
    let mut bound: u32 = 1;
    while i < v.len()
        invariant
            i <= v.len(),
            v.len() <= 4,
            forall|k: int| 0 <= k < i ==> is_octal_digit(#[trigger] v@[k]),
            n == octal_value(v@.take(i as int)),
            n < bound,
            bound <= 4096,
            (i == 0 ==> bound == 1) && (i == 1 ==> bound == 8) && (i == 2 ==> bound == 64) && (i
                == 3 ==> bound == 512) && (i == 4 ==> bound == 4096),
        decreases v.len() - i,
    {
        let c = v[i];
        proof {
            assert(v@.take(i + 1).drop_last() == v@.take(i as int));
            assert(v@.take(i + 1).last() == c);
        }
        if !('0' <= c && c <= '7') {
            return None;
        }
        let d: u32 = c as u32 - '0' as u32;
        n = n * 8 + d;
        bound = bound * 8;
        i += 1;
    }
    proof {
        assert(v@.take(v.len() as int) == v@);
    }
    Some(n)
}

} // verus!
