//! Hexadecimal digits and digit pairs, as ASCII bytes.
use vstd::prelude::*;

verus! {

/// Whether `b` is the ASCII code of a hexadecimal digit (either case).
pub open spec fn is_hex_digit(b: u8) -> bool {
    (0x30 <= b <= 0x39) || (0x41 <= b <= 0x46) || (0x61 <= b <= 0x66)
}

/// The value of a hexadecimal digit; meaningful only where `is_hex_digit(b)`.
pub open spec fn digit_value(b: u8) -> nat {
    if 0x30 <= b <= 0x39 {
        (b - 0x30) as nat
    } else if 0x41 <= b <= 0x46 {
        (b - 0x41 + 10) as nat
    } else {
        (b - 0x61 + 10) as nat
    }
}

/// Whether every byte of `t` is a hexadecimal digit.
pub open spec fn all_hex_digits(t: Seq<u8>) -> bool {
    forall|i: int| 0 <= i < t.len() ==> #[trigger] is_hex_digit(t[i])
}

/// The byte written by the digit pair `hi`, `lo`.
pub open spec fn pair_value(hi: u8, lo: u8) -> u8 {
    (digit_value(hi) * 16 + digit_value(lo)) as u8
}

/// The bytes written by `t` read as consecutive digit pairs.
pub open spec fn pairs_value(t: Seq<u8>) -> Seq<u8> {
    Seq::new(t.len() / 2, |k: int| pair_value(t[2 * k], t[2 * k + 1]))
}

/// The upper-case ASCII digit for a value below sixteen.
pub open spec fn digit_char(v: nat) -> u8 {
    if v < 10 {
        (0x30 + v) as u8
    } else {
        (0x41 + v - 10) as u8
    }
}

/// `raw` written as upper-case digit pairs, high digit first.
pub open spec fn encode_pairs(raw: Seq<u8>) -> Seq<u8> {
    Seq::new(
        2 * raw.len(),
        |j: int|
            if j % 2 == 0 {
                digit_char((raw[j / 2] / 16) as nat)
            } else {
                digit_char((raw[j / 2] % 16) as nat)
            },
    )
}

/// The value of the hexadecimal digit `b`, or `None` where `b` is no such digit.
pub fn hex_digit(b: u8) -> (r: Option<u8>)
    ensures
        r is Some <==> is_hex_digit(b),
        r matches Some(v) ==> v as nat == digit_value(b) && v < 16,
{
    if 0x30 <= b && b <= 0x39 {
        Some(b - 0x30)
    } else if 0x41 <= b && b <= 0x46 {
        Some(b - 0x41 + 10)
    } else if 0x61 <= b && b <= 0x66 {
        Some(b - 0x61 + 10)
    } else {
        None
    }
}

/// Decodes `line[start..]` as digit pairs, or `None` where a byte there is no digit.
pub fn decode_pairs(line: &[u8], start: usize) -> (r: Option<Vec<u8>>)
    requires
        start <= line@.len(),
        (line@.len() - start) % 2 == 0,
    ensures
        r is Some <==> all_hex_digits(line@.subrange(start as int, line@.len() as int)),
        r matches Some(raw) ==> raw@ == pairs_value(line@.subrange(start as int, line@.len() as int)),
{
    let ghost t = line@.subrange(start as int, line@.len() as int);
    let n: usize = (line.len() - start) / 2;
    let mut raw: Vec<u8> = Vec::new();
    let mut k: usize = 0;
    assert(2 * n == t.len());
    while k < n
        invariant
            t == line@.subrange(start as int, line@.len() as int),
            start <= line@.len(),
            t.len() == line.len() - start,
            n == t.len() / 2,
            2 * n == t.len(),
            k <= n,
            forall|i: int| 0 <= i < 2 * k ==> #[trigger] is_hex_digit(t[i]),
            raw@ == pairs_value(t).take(k as int),
        decreases n - k,
    {
        let hi = hex_digit(line[start + 2 * k]);
        let lo = hex_digit(line[start + 2 * k + 1]);
        match (hi, lo) {
            (Some(h), Some(l)) => {
                raw.push(h * 16 + l);
                proof {
                    assert(t[2 * k as int] == line@[start + 2 * k]);
                    assert(t[2 * k + 1] == line@[start + 2 * k + 1]);
                    assert(raw@ =~= pairs_value(t).take(k + 1));
                }
                k = k + 1;
            },
            _ => {
                proof {
                    if hi is None {
                        assert(!is_hex_digit(t[2 * k as int]));
                    } else {
                        assert(!is_hex_digit(t[2 * k + 1]));
                    }
                }
                return None;
            },
        }
    }
    proof {
        assert(raw@ =~= pairs_value(t));
    }
    Some(raw)
}

} // verus!
