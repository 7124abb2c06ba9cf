//! Byte-pair hexadecimal decoding shared by the formatters that treat a
//! digest as a sequence of bytes (two hexadecimal characters per byte).

use vstd::prelude::*;

verus! {

/// True when `b` is an ASCII hexadecimal digit (either case).
pub open spec fn is_hex_digit(b: u8) -> bool {
    (48 <= b <= 57) || (65 <= b <= 70) || (97 <= b <= 102)
}

/// Numeric value of an ASCII hexadecimal digit.
pub open spec fn hex_digit_value(b: u8) -> u8
    recommends
        is_hex_digit(b),
{
    if 48 <= b <= 57 {
        (b - 48) as u8
    } else if 65 <= b <= 70 {
        (b - 55) as u8
    } else if 97 <= b <= 102 {
        (b - 87) as u8
    } else {
        0
    }
}

/// The byte denoted by the two hexadecimal digits `hi` and `lo`.
pub open spec fn pair_value(hi: u8, lo: u8) -> u8
    recommends
        is_hex_digit(hi),
        is_hex_digit(lo),
{
    (hex_digit_value(hi) * 16 + hex_digit_value(lo)) as u8
}

/// True when every byte of `s` is an ASCII hexadecimal digit.
pub open spec fn all_hex(s: Seq<u8>) -> bool {
    forall|i: int| 0 <= i < s.len() ==> is_hex_digit(s[i])
}

/// True when `s` splits exactly into two-character hexadecimal chunks,
/// each denoting one byte: even length, all hexadecimal digits.
pub open spec fn decodes_as_hex(s: Seq<u8>) -> bool {
    s.len() % 2 == 0 && all_hex(s)
}

/// The byte sequence denoted by the consecutive two-character chunks of `s`.
pub open spec fn hex_bytes(s: Seq<u8>) -> Seq<u8>
    recommends
        decodes_as_hex(s),
    decreases s.len(),
{
    if s.len() < 2 {
        Seq::empty()
    } else {
        seq![pair_value(s[0], s[1])] + hex_bytes(s.skip(2))
    }
}

/// `hex_bytes` distributes over concatenation at a chunk boundary.
pub proof fn lemma_hex_bytes_append(a: Seq<u8>, b: Seq<u8>)
    requires
        a.len() % 2 == 0,
    ensures
        hex_bytes(a + b) == hex_bytes(a) + hex_bytes(b),
    decreases a.len(),
{
    if a.len() == 0 {
        assert(a + b =~= b);
        assert(hex_bytes(a) + hex_bytes(b) =~= hex_bytes(b));
    } else {
        lemma_hex_bytes_append(a.skip(2), b);
        assert((a + b).skip(2) =~= a.skip(2) + b);
        assert(hex_bytes(a + b) =~= hex_bytes(a) + hex_bytes(b));
    }
}

/// Parses one ASCII hexadecimal digit.
pub fn parse_hex_digit(b: u8) -> (r: Option<u8>)
    ensures
        r is Some <==> is_hex_digit(b),
        r is Some ==> r->0 == hex_digit_value(b) && r->0 < 16,
{
    if 48 <= b && b <= 57 {
        Some(b - 48)
    } else if 65 <= b && b <= 70 {
        Some(b - 55)
    } else if 97 <= b && b <= 102 {
        Some(b - 87)
    } else {
        None
    }
}

/// Decodes `s` as two-character hexadecimal chunks into the bytes they
/// denote; fails exactly when `s` is not so decomposable.
pub fn parse_hex_pairs(s: &Vec<u8>) -> (r: Option<Vec<u8>>)
    ensures
        r is Some <==> decodes_as_hex(s@),
        r matches Some(v) ==> v@ == hex_bytes(s@),
{
    let n = s.len();
    if n % 2 != 0 {
        return None;
    }
    let mut out: Vec<u8> = Vec::new();
    let mut i: usize = 0;
    while i < n
        invariant
            n == s@.len(),
            n % 2 == 0,
            i % 2 == 0,
            i <= n,
            forall|j: int| 0 <= j < i ==> is_hex_digit(s@[j]),
            out@ == hex_bytes(s@.take(i as int)),
        decreases n - i,
    {
        let hi = parse_hex_digit(s[i]);
        let lo = parse_hex_digit(s[i + 1]);
        match (hi, lo) {
            (Some(a), Some(b)) => {
                proof {
                    let c = s@.subrange(i as int, i + 2);
                    lemma_hex_bytes_append(s@.take(i as int), c);
                    assert(s@.take(i + 2) =~= s@.take(i as int) + c);
                    assert(c.skip(2) =~= Seq::<u8>::empty());
                    assert(hex_bytes(c.skip(2)) =~= Seq::<u8>::empty());
                    assert(hex_bytes(c) =~= seq![pair_value(s@[i as int], s@[i as int + 1])]);
                }
                out.push(a * 16 + b);
                i = i + 2;
            }
            _ => {
                return None;
            }
        }
    }
    proof {
        assert(s@.take(n as int) =~= s@);
    }
    Some(out)
}

} // verus!
