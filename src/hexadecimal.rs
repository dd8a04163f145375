use vstd::prelude::*;
use crate::error::Error;

verus! {

/// The lowercase hex digit for a value below 16, as an ASCII byte.
pub open spec fn hex_digit(n: u8) -> u8 {
    if n < 10 {
        (48 + n) as u8
    } else {
        (87 + n) as u8
    }
}

/// The lowercase hex text of a byte string, two digits per byte, high
/// nibble first, as ASCII bytes.
pub open spec fn hex_text(b: Seq<u8>) -> Seq<u8> {
    Seq::new(
        2 * b.len(),
        |i: int|
            if i % 2 == 0 {
                hex_digit(b[i / 2] / 16)
            } else {
                hex_digit(b[i / 2] % 16)
            },
    )
}

/// The value of one hex digit of either case.
pub open spec fn hex_value(c: u8) -> Option<u8> {
    if 48 <= c <= 57 {
        Some((c - 48) as u8)
    } else if 97 <= c <= 102 {
        Some((c - 87) as u8)
    } else if 65 <= c <= 70 {
        Some((c - 55) as u8)
    } else {
        None
    }
}

/// The bytes that hex text stands for: it must have an even length and
/// only hex digits.
pub open spec fn unhex(s: Seq<u8>) -> Option<Seq<u8>> {
    if s.len() % 2 == 0 && forall|i: int| 0 <= i < s.len() ==> (#[trigger] hex_value(s[i])) is Some {
        Some(
            Seq::new(
                s.len() / 2,
                |i: int|
                    (hex_value(s[2 * i])->0 * 16 + hex_value(s[2 * i + 1])->0) as u8,
            ),
        )
    } else {
        None
    }
}

proof fn lemma_digit_value(n: u8)
    requires
        n < 16,
    ensures
        hex_value(hex_digit(n)) == Some(n),
{
}

/// Hex text reads back as the bytes it was made from.
pub proof fn lemma_unhex_hex(x: Seq<u8>)
    ensures
        unhex(hex_text(x)) == Some(x),
{
    let h = hex_text(x);
    assert forall|i: int| 0 <= i < h.len() implies (#[trigger] hex_value(h[i])) is Some by {
        let j = i / 2;
        assert(0 <= j < x.len());
        if i % 2 == 0 {
            lemma_digit_value(x[j] / 16);
        } else {
            lemma_digit_value(x[j] % 16);
        }
    }
    let y = unhex(h)->0;
    assert forall|i: int| 0 <= i < x.len() implies #[trigger] y[i] == x[i] by {
        assert((2 * i) / 2 == i && (2 * i) % 2 == 0);
        assert((2 * i + 1) / 2 == i && (2 * i + 1) % 2 == 1);
        let b = x[i];
        lemma_digit_value(b / 16);
        lemma_digit_value(b % 16);
        assert(h[2 * i] == hex_digit(b / 16));
        assert(h[2 * i + 1] == hex_digit(b % 16));
        assert((b / 16) as int * 16 + (b % 16) as int == b as int);
    }
    assert(y =~= x);
}

/// Relies on `hex::encode`: two lowercase digits per byte, high nibble first.
#[verifier::external_body]
fn hex_encode(b: &[u8]) -> (r: Vec<u8>)
    ensures
        r@ == hex_text(b@),
{
    hex::encode(b).into_bytes()
}

/// Relies on `hex::decode`: it fails on an odd length or on a byte that is
/// not a hex digit of either case, and otherwise gives one byte per pair.
#[verifier::external_body]
fn hex_decode(s: &[u8]) -> (r: Option<Vec<u8>>)
    ensures
        match r {
            Some(v) => unhex(s@) == Some(v@),
            None => unhex(s@) is None,
        },
{
    hex::decode(s).ok()
}

/// The lowercase hex text of `b`, as ASCII bytes.
pub fn to_hex(b: &[u8]) -> (r: Vec<u8>)
    ensures
        r@ == hex_text(b@),
{
    hex_encode(b)
}

/// The bytes that the hex text `s` stands for; text of odd length or with a
/// byte that is not a hex digit is refused with `SerializationError`.
pub fn from_hex(s: &[u8]) -> (r: Result<Vec<u8>, Error>)
    ensures
        match r {
            Ok(v) => unhex(s@) == Some(v@),
            Err(e) => e == Error::SerializationError && unhex(s@) is None,
        },
{
    match hex_decode(s) {
        Some(v) => Ok(v),
        None => Err(Error::SerializationError),
    }
}

} // verus!
