//! Hexadecimal text.
use crate::text::{concat2, decimal, decimal_text};
use vstd::prelude::*;
use vstd::string::*;

verus! {

/// The value of a hexadecimal digit, of either case.
pub open spec fn nibble(b: u8) -> Option<u8> {
    if 0x30 <= b <= 0x39 {
        Some((b - 0x30) as u8)
    } else if 0x61 <= b <= 0x66 {
        Some((b - 0x61 + 10) as u8)
    } else if 0x41 <= b <= 0x46 {
        Some((b - 0x41 + 10) as u8)
    } else {
        None
    }
}

/// The value of a hexadecimal digit, of either case.
pub fn hex_nibble(b: u8) -> (r: Option<u8>)
    ensures
        r == nibble(b),
        r is Some ==> r->0 < 16,
{
    if 0x30 <= b && b <= 0x39 {
        Some(b - 0x30)
    } else if 0x61 <= b && b <= 0x66 {
        Some(b - 0x61 + 10)
    } else if 0x41 <= b && b <= 0x46 {
        Some(b - 0x41 + 10)
    } else {
        None
    }
}

/// The lower-case digit of a value below 16.
pub open spec fn hex_digit(v: u8) -> char {
    if v < 10 {
        (0x30 + v) as char
    } else {
        (0x61 + v - 10) as char
    }
}

/// Two lower-case digits for each byte.
pub open spec fn hex_text(bytes: Seq<u8>) -> Seq<char>
    decreases bytes.len(),
{
    if bytes.len() == 0 {
        Seq::empty()
    } else {
        hex_text(bytes.drop_last()).push(hex_digit(bytes.last() / 16)).push(
            hex_digit(bytes.last() % 16),
        )
    }
}

fn digit_of(v: u8) -> (r: char)
    requires
        v < 16,
    ensures
        r == hex_digit(v),
{
    if v < 10 {
        (0x30 + v) as char
    } else {
        (0x61 + (v - 10)) as char
    }
}

/// Two lower-case digits for each of the bytes.
pub fn bytes_to_hex(bytes: &[u8; 32]) -> (r: String)
    ensures
        r@ == hex_text(bytes@),
{
    let mut out = String::new();
    let mut i: usize = 0;
    assert(bytes@.take(0) =~= Seq::<u8>::empty());
    while i < 32
        invariant
            i <= 32,
            out@ == hex_text(bytes@.take(i as int)),
        decreases 32 - i,
    {
        let b: u8 = bytes[i];
        out.push(digit_of(b / 16));
        out.push(digit_of(b % 16));
        assert(bytes@.take(i + 1).drop_last() =~= bytes@.take(i as int));
        i = i + 1;
    }
    assert(bytes@.take(32) =~= bytes@);
    out
}

/// The byte of each pair of digits; `None` where one of them is no digit.
pub open spec fn pairs_value(digits: Seq<u8>) -> Option<Seq<u8>>
    decreases digits.len(),
{
    if digits.len() < 2 {
        Some(Seq::empty())
    } else {
        let n = digits.len() as int;
        match (
            pairs_value(digits.take(n - 2)),
            nibble(digits[n - 2]),
            nibble(digits[n - 1]),
        ) {
            (Some(front), Some(hi), Some(lo)) => Some(front.push((16 * hi + lo) as u8)),
            _ => None,
        }
    }
}

/// The 32 bytes that 64 digits stand for.
pub open spec fn hash_of(s: Seq<u8>) -> Option<Seq<u8>> {
    if s.len() == 64 {
        pairs_value(s)
    } else {
        None
    }
}

proof fn lemma_pairs_prefix(digits: Seq<u8>, k: int)
    requires
        0 <= k,
        2 * k <= digits.len(),
        digits.len() % 2 == 0,
        pairs_value(digits.take(2 * k)) is None,
    ensures
        pairs_value(digits) is None,
    decreases digits.len() - 2 * k,
{
    if 2 * k == digits.len() {
        assert(digits.take(2 * k) =~= digits);
    } else {
        assert(digits.take(2 * (k + 1)).take(2 * k) =~= digits.take(2 * k));
        lemma_pairs_prefix(digits, k + 1);
    }
}

/// The 32 bytes that 64 hexadecimal digits stand for.
pub fn hex_to_bytes32(s: &str) -> (r: Option<[u8; 32]>)
    ensures
        match r {
            Some(bytes) => hash_of(s.spec_bytes()) == Some(bytes@),
            None => hash_of(s.spec_bytes()) is None,
        },
{
    let b = s.as_bytes();
    if b.len() != 64 {
        return None;
    }
    let mut out: [u8; 32] = [0u8; 32];
    let mut i: usize = 0;
    assert(b@.take(0) =~= Seq::<u8>::empty());
    assert(out@.take(0) =~= Seq::<u8>::empty());
    while i < 32
        invariant
            i <= 32,
            b@.len() == 64,
            b@ == s.spec_bytes(),
            pairs_value(b@.take(2 * i)) == Some(out@.take(i as int)),
        decreases 32 - i,
    {
        let ghost front = b@.take(2 * (i + 1));
        assert(front.take(2 * i) =~= b@.take(2 * i));
        match (hex_nibble(b[2 * i]), hex_nibble(b[2 * i + 1])) {
            (Some(hi), Some(lo)) => {
                let ghost before = out@;
                out[i] = 16 * hi + lo;
                assert(out@.take(i + 1) =~= before.take(i as int).push((16 * hi + lo) as u8));
            },
            _ => {
                assert(pairs_value(front) is None);
                proof {
                    lemma_pairs_prefix(b@, i + 1);
                }
                return None;
            },
        }
        i = i + 1;
    }
    assert(b@.take(64) =~= b@);
    assert(out@.take(32) =~= out@);
    Some(out)
}

/// The value of a pair as an unsigned number in base 16 is read: two digits, or a plus sign and
/// one digit.
pub open spec fn pair_value(a: u8, b: u8) -> Option<u8> {
    match (nibble(a), nibble(b)) {
        (Some(hi), Some(lo)) => Some((16 * hi + lo) as u8),
        (None, Some(lo)) => if a == 0x2b {
            Some(lo)
        } else {
            None
        },
        _ => None,
    }
}

/// The bytes of an even number of digits, read two by two.
pub open spec fn decoded(digits: Seq<u8>) -> Option<Seq<u8>>
    decreases digits.len(),
{
    if digits.len() < 2 {
        Some(Seq::empty())
    } else {
        let n = digits.len() as int;
        match (decoded(digits.take(n - 2)), pair_value(digits[n - 2], digits[n - 1])) {
            (Some(front), Some(v)) => Some(front.push(v)),
            _ => None,
        }
    }
}

proof fn lemma_decoded_prefix(digits: Seq<u8>, k: int)
    requires
        0 <= k,
        2 * k <= digits.len(),
        digits.len() % 2 == 0,
        decoded(digits.take(2 * k)) is None,
    ensures
        decoded(digits) is None,
    decreases digits.len() - 2 * k,
{
    if 2 * k == digits.len() {
        assert(digits.take(2 * k) =~= digits);
    } else {
        assert(digits.take(2 * (k + 1)).take(2 * k) =~= digits.take(2 * k));
        lemma_decoded_prefix(digits, k + 1);
    }
}

/// The bytes that a hexadecimal text stands for. A text of odd length is refused, and so is one
/// with a pair that is no number.
pub fn hex_decode(s: &str) -> (r: Result<Vec<u8>, String>)
    ensures
        match r {
            Ok(bytes) => s.spec_bytes().len() % 2 == 0 && decoded(s.spec_bytes()) == Some(bytes@),
            Err(e) => if s.spec_bytes().len() % 2 == 1 {
                e@ == "odd hex length: "@ + decimal(s.spec_bytes().len())
            } else {
                decoded(s.spec_bytes()) is None && e@ == "invalid digit found in string"@
            },
        },
{
    let b = s.as_bytes();
    if b.len() % 2 != 0 {
        let n = decimal_text(b.len() as u64);
        return Err(concat2("odd hex length: ", n.as_str()));
    }
    let mut out: Vec<u8> = Vec::new();
    let mut i: usize = 0;
    let half: usize = b.len() / 2;
    assert(b@.take(0) =~= Seq::<u8>::empty());
    while i < half
        invariant
            i <= half,
            half * 2 == b.len(),
            b@ == s.spec_bytes(),
            decoded(b@.take(2 * i)) == Some(out@),
        decreases half - i,
    {
        let ghost front = b@.take(2 * (i + 1));
        assert(front.take(2 * i) =~= b@.take(2 * i));
        let a: u8 = b[2 * i];
        match (hex_nibble(a), hex_nibble(b[2 * i + 1])) {
            (Some(hi), Some(lo)) => {
                out.push(16 * hi + lo);
            },
            (None, Some(lo)) if a == 0x2b => {
                out.push(lo);
            },
            _ => {
                assert(decoded(front) is None);
                proof {
                    lemma_decoded_prefix(b@, i + 1);
                }
                return Err("invalid digit found in string".to_owned());
            },
        }
        i = i + 1;
    }
    assert(b@.take(2 * half) =~= b@);
    Ok(out)
}

// ---------------------------------------------------------------------------
// Laws
// ---------------------------------------------------------------------------

/// The text of the digits as bytes.
pub open spec fn ascii_bytes(s: Seq<char>) -> Seq<u8> {
    s.map_values(|c: char| c as u8)
}

/// Reading gives back the bytes that a hexadecimal text was written from.
pub proof fn law_hex_round_trip(bytes: Seq<u8>)
    ensures
        pairs_value(ascii_bytes(hex_text(bytes))) == Some(bytes),
        decoded(ascii_bytes(hex_text(bytes))) == Some(bytes),
        hex_text(bytes).len() == 2 * bytes.len(),
    decreases bytes.len(),
{
    if bytes.len() > 0 {
        let front = bytes.drop_last();
        law_hex_round_trip(front);
        let t = ascii_bytes(hex_text(bytes));
        let n = t.len() as int;
        assert(t.take(n - 2) =~= ascii_bytes(hex_text(front)));
        let b = bytes.last();
        assert(nibble(t[n - 2]) == Some((b / 16) as u8));
        assert(nibble(t[n - 1]) == Some((b % 16) as u8));
        assert(front.push(b) =~= bytes);
    } else {
        assert(bytes =~= Seq::<u8>::empty());
    }
}

} // verus!
