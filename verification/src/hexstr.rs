//! Hexadecimal strings: digit values, lowercase hex rendering of bytes,
//! hashlock well-formedness and case-insensitive comparison of hex strings.

use vstd::prelude::*;
use vstd::string::StrSliceExecFns;

verus! {

/// Whether `c` is an ASCII hexadecimal digit (either case).
pub open spec fn is_hex_digit(c: char) -> bool {
    (48 <= c as u32 && c as u32 <= 57)  // '0' ..= '9'
    || (97 <= c as u32 && c as u32 <= 102)  // 'a' ..= 'f'
    || (65 <= c as u32 && c as u32 <= 70)  // 'A' ..= 'F'
}

/// The numeric value of a hex digit, the same for both cases.
pub open spec fn hex_val(c: char) -> int
    recommends
        is_hex_digit(c),
{
    if 48 <= c as u32 && c as u32 <= 57 {
        c as u32 - 48
    } else if 97 <= c as u32 && c as u32 <= 102 {
        c as u32 - 87
    } else {
        c as u32 - 55
    }
}

/// The lowercase hex digit for a value below 16.
pub open spec fn hex_digit_char(n: int) -> char
    recommends
        0 <= n < 16,
{
    if n == 0 {
        '0'
    } else if n == 1 {
        '1'
    } else if n == 2 {
        '2'
    } else if n == 3 {
        '3'
    } else if n == 4 {
        '4'
    } else if n == 5 {
        '5'
    } else if n == 6 {
        '6'
    } else if n == 7 {
        '7'
    } else if n == 8 {
        '8'
    } else if n == 9 {
        '9'
    } else if n == 10 {
        'a'
    } else if n == 11 {
        'b'
    } else if n == 12 {
        'c'
    } else if n == 13 {
        'd'
    } else if n == 14 {
        'e'
    } else {
        'f'
    }
}

/// The lowercase hex rendering of a byte sequence: two digits per byte,
/// high nibble first.
pub open spec fn hex_chars_of(bytes: Seq<u8>) -> Seq<char>
    decreases bytes.len(),
{
    if bytes.len() == 0 {
        Seq::empty()
    } else {
        seq![hex_digit_char(bytes[0] as int / 16), hex_digit_char(bytes[0] as int % 16)]
            + hex_chars_of(
            bytes.drop_first(),
        )
    }
}

pub proof fn lemma_hex_chars_of_len(bytes: Seq<u8>)
    ensures
        hex_chars_of(bytes).len() == 2 * bytes.len(),
    decreases bytes.len(),
{
    if bytes.len() > 0 {
        lemma_hex_chars_of_len(bytes.drop_first());
    }
}

proof fn lemma_hex_digit_char_is_hex(n: int)
    requires
        0 <= n < 16,
    ensures
        is_hex_digit(hex_digit_char(n)),
        hex_val(hex_digit_char(n)) == n,
{
}

/// Every character of a hex rendering is a hex digit.
pub proof fn lemma_hex_chars_of_digits(bytes: Seq<u8>)
    ensures
        forall|i: int|
            0 <= i < hex_chars_of(bytes).len() ==> is_hex_digit(#[trigger] hex_chars_of(bytes)[i]),
    decreases bytes.len(),
{
    if bytes.len() > 0 {
        lemma_hex_chars_of_len(bytes.drop_first());
        lemma_hex_chars_of_digits(bytes.drop_first());
        lemma_hex_digit_char_is_hex(bytes[0] as int / 16);
        lemma_hex_digit_char_is_hex(bytes[0] as int % 16);
        assert forall|i: int| 0 <= i < hex_chars_of(bytes).len() implies is_hex_digit(
            #[trigger] hex_chars_of(bytes)[i],
        ) by {
            if i >= 2 {
                assert(hex_chars_of(bytes)[i] == hex_chars_of(bytes.drop_first())[i - 2]);
            }
        }
    }
}

/// A well-formed hashlock: exactly 64 hex characters.
pub open spec fn valid_hashlock(s: Seq<char>) -> bool {
    s.len() == 64 && forall|i: int| 0 <= i < s.len() ==> is_hex_digit(#[trigger] s[i])
}

/// Two hex strings are equal without regard to case: same length, all
/// characters hex digits, and equal digit values throughout.
pub open spec fn hex_eq_ci(a: Seq<char>, b: Seq<char>) -> bool {
    a.len() == b.len() && forall|i: int|
        0 <= i < a.len() ==> is_hex_digit(#[trigger] a[i]) && is_hex_digit(#[trigger] b[i])
            && hex_val(a[i]) == hex_val(b[i])
}

/// The value of a hex digit, or `None` for any other character.
pub fn hex_digit_value(c: char) -> (r: Option<u8>)
    ensures
        match r {
            Some(v) => is_hex_digit(c) && v as int == hex_val(c),
            None => !is_hex_digit(c),
        },
{
    let u = c as u32;
    if 48 <= u && u <= 57 {
        Some((u - 48) as u8)
    } else if 97 <= u && u <= 102 {
        Some((u - 87) as u8)
    } else if 65 <= u && u <= 70 {
        Some((u - 55) as u8)
    } else {
        None
    }
}

/// Decides `valid_hashlock`.
pub fn check_hashlock(s: &str) -> (r: bool)
    ensures
        r == valid_hashlock(s@),
{
    let n = s.unicode_len();
    if n != 64 {
        return false;
    }
    let mut i: usize = 0;
    while i < 64
        invariant
            0 <= i <= 64,
            s@.len() == 64,
            forall|j: int| 0 <= j < i ==> is_hex_digit(#[trigger] s@[j]),
        decreases 64 - i,
    {
        let c = s.get_char(i);
        if hex_digit_value(c).is_none() {
            return false;
        }
        i += 1;
    }
    true
}

/// Decides `hex_eq_ci`.
pub fn hex_str_eq_ci(a: &str, b: &str) -> (r: bool)
    ensures
        r == hex_eq_ci(a@, b@),
{
    let an = a.unicode_len();
    let bn = b.unicode_len();
    if an != bn {
        return false;
    }
    let mut i: usize = 0;
    while i < an
        invariant
            0 <= i <= an,
            an == a@.len(),
            an == b@.len(),
            forall|j: int| 0 <= j < i ==> is_hex_digit(#[trigger] a@[j]),
            forall|j: int| 0 <= j < i ==> is_hex_digit(#[trigger] b@[j]),
            forall|j: int| 0 <= j < i ==> hex_val(#[trigger] a@[j]) == hex_val(b@[j]),
        decreases an - i,
    {
        let ca = a.get_char(i);
        let cb = b.get_char(i);
        let av = hex_digit_value(ca);
        let bv = hex_digit_value(cb);
        if av.is_none() || bv.is_none() {
            proof {
                assert(!(is_hex_digit(a@[i as int]) && is_hex_digit(b@[i as int])));
            }
            return false;
        }
        let x = av.unwrap();
        let y = bv.unwrap();
        if x != y {
            proof {
                assert(hex_val(a@[i as int]) != hex_val(b@[i as int]));
            }
            return false;
        }
        proof {
            assert(is_hex_digit(a@[i as int]));
            assert(is_hex_digit(b@[i as int]));
            assert(hex_val(a@[i as int]) == hex_val(b@[i as int]));
        }
        i += 1;
    }
    true
}

} // verus!
