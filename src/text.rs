//! The text forms that JSON submissions use for binary and numeric fields:
//! `0x`-prefixed hex for bytes, quoted decimal for 64-bit integers.

use vstd::prelude::*;
use vstd::string::StrSliceExecFns;

verus! {

/// The value of a hex digit, of either case.
pub open spec fn hex_digit_value(c: char) -> Option<u8> {
    if '0' <= c && c <= '9' {
        Some((c as u32 - 48) as u8)
    } else if 'a' <= c && c <= 'f' {
        Some((c as u32 - 87) as u8)
    } else if 'A' <= c && c <= 'F' {
        Some((c as u32 - 55) as u8)
    } else {
        None
    }
}

/// `s` is `0x` followed by an even number of hex digits.
pub open spec fn is_hex_text(s: Seq<char>) -> bool {
    &&& s.len() >= 2
    &&& s[0] == '0' && s[1] == 'x'
    &&& s.len() % 2 == 0
    &&& forall|i: int| 2 <= i < s.len() ==> (#[trigger] hex_digit_value(s[i])) is Some
}

/// `b` is what the hex text `s` spells, two digits a byte, high digit first.
pub open spec fn hex_spells(s: Seq<char>, b: Seq<u8>) -> bool {
    &&& s.len() == 2 + 2 * b.len()
    &&& forall|i: int|
        0 <= i < b.len() ==> #[trigger] b[i] as int == 16 * (hex_digit_value(s[2 + 2 * i])->Some_0 as int)
            + hex_digit_value(s[3 + 2 * i])->Some_0 as int
}

fn digit_of(c: char) -> (r: Option<u8>)
    ensures
        r == hex_digit_value(c),
{
    if '0' <= c && c <= '9' {
        Some((c as u32 - 48) as u8)
    } else if 'a' <= c && c <= 'f' {
        Some((c as u32 - 87) as u8)
    } else if 'A' <= c && c <= 'F' {
        Some((c as u32 - 55) as u8)
    } else {
        None
    }
}

/// Reads `0x`-prefixed hex text as bytes.
pub fn parse_hex(s: &str) -> (r: Option<Vec<u8>>)
    ensures
        r is Some <==> is_hex_text(s@),
        r matches Some(b) ==> hex_spells(s@, b@),
{
    let n = s.unicode_len();
    if n < 2 || n % 2 != 0 || s.get_char(0) != '0' || s.get_char(1) != 'x' {
        return None;
    }
    let count = (n - 2) / 2;
    let mut out: Vec<u8> = Vec::new();
    let mut i: usize = 0;
    while i < count
        invariant
            n == s@.len(),
            n >= 2,
            n % 2 == 0,
            count * 2 + 2 == n,
            i <= count,
            out@.len() == i,
            forall|j: int| 2 <= j < 2 + 2 * i ==> (#[trigger] hex_digit_value(s@[j])) is Some,
            forall|j: int|
                0 <= j < i ==> #[trigger] out@[j] as int == 16 * (hex_digit_value(s@[2 + 2 * j])->Some_0 as int)
                    + hex_digit_value(s@[3 + 2 * j])->Some_0 as int,
        decreases count - i,
    {
        let hi = match digit_of(s.get_char(2 + 2 * i)) {
            Some(d) => d,
            None => return None,
        };
        let lo = match digit_of(s.get_char(3 + 2 * i)) {
            Some(d) => d,
            None => return None,
        };
        out.push(16 * hi + lo);
        i = i + 1;
    }
    Some(out)
}

/// All characters are decimal digits.
pub open spec fn all_digits(s: Seq<char>) -> bool {
    forall|i: int| 0 <= i < s.len() ==> '0' <= #[trigger] s[i] && s[i] <= '9'
}

/// The value of decimal digits, most significant first.
pub open spec fn digits_value(s: Seq<char>) -> nat
    decreases s.len(),
{
    if s.len() == 0 {
        0
    } else {
        digits_value(s.drop_last()) * 10 + (s.last() as nat - 48) as nat
    }
}

proof fn lemma_digits_grow(s: Seq<char>, i: int)
    requires
        all_digits(s),
        0 <= i <= s.len(),
    ensures
        digits_value(s.take(i)) <= digits_value(s),
    decreases s.len() - i,
{
    if i < s.len() {
        lemma_digits_grow(s, i + 1);
        assert(s.take(i + 1).drop_last() =~= s.take(i));
    } else {
        assert(s.take(i) =~= s);
    }
}

/// Reads decimal digits as a `u64`: one or more digits, no more than fits.
pub fn parse_digits(s: &str) -> (r: Option<u64>)
    ensures
        r == (if s@.len() > 0 && all_digits(s@) && digits_value(s@) <= u64::MAX {
            Some(digits_value(s@) as u64)
        } else {
            None::<u64>
        }),
{
    let n = s.unicode_len();
    if n == 0 {
        return None;
    }
    let mut acc: u64 = 0;
    let mut i: usize = 0;
    while i < n
        invariant
            n == s@.len(),
            i <= n,
            all_digits(s@.take(i as int)),
            acc as nat == digits_value(s@.take(i as int)),
        decreases n - i,
    {
        let c = s.get_char(i);
        if !('0' <= c && c <= '9') {
            assert(!all_digits(s@));
            return None;
        }
        let d = (c as u32 - 48) as u64;
        assert(s@.take(i + 1).drop_last() =~= s@.take(i as int));
        assert(all_digits(s@.take(i + 1)));
        if acc > (u64::MAX - d) / 10 {
            proof {
                assert(digits_value(s@.take(i + 1)) > u64::MAX) by (nonlinear_arith)
                    requires
                        acc > (u64::MAX - d) / 10,
                        digits_value(s@.take(i + 1)) == acc * 10 + d,
                ;
                if all_digits(s@) {
                    lemma_digits_grow(s@, i + 1);
                }
            }
            return None;
        }
        assert(acc * 10 + d <= u64::MAX) by (nonlinear_arith)
            requires
                acc <= (u64::MAX - d) / 10,
                d <= 9,
        ;
        acc = acc * 10 + d;
        i = i + 1;
    }
    assert(s@.take(n as int) =~= s@);
    Some(acc)
}

/// The digits of a decimal number, after an optional leading `+`.
pub open spec fn unsigned_digits(s: Seq<char>) -> Seq<char> {
    if s.len() > 0 && s[0] == '+' {
        s.drop_first()
    } else {
        s
    }
}

/// Reads a decimal `u64` as std's `str::parse` does: an optional `+`, then
/// one or more digits, no more than fits.
pub fn parse_u64(s: &str) -> (r: Option<u64>)
    ensures
        r == (if unsigned_digits(s@).len() > 0 && all_digits(unsigned_digits(s@)) && digits_value(
            unsigned_digits(s@),
        ) <= u64::MAX {
            Some(digits_value(unsigned_digits(s@)) as u64)
        } else {
            None::<u64>
        }),
{
    let n = s.unicode_len();
    if n > 0 && s.get_char(0) == '+' {
        let rest = s.substring_char(1, n);
        assert(rest@ =~= s@.drop_first());
        parse_digits(rest)
    } else {
        parse_digits(s)
    }
}

} // verus!
