//! Checksums of downloaded artifacts: SHA-256 digests, written as 64
//! hexadecimal digits.

use sha2::Digest;
use vstd::prelude::*;
use vstd::string::*;

verus! {

/// The SHA-256 digest of `bytes`: what `sha2::Sha256::digest` returns for
/// them.
pub uninterp spec fn sha256_of(bytes: Seq<u8>) -> Seq<u8>;

/// Calls `sha2::Sha256::digest` and copies the digest into a vector.
#[verifier::external_body]
pub(crate) fn sha256(bytes: &[u8]) -> (r: Vec<u8>)
    ensures
        r@ == sha256_of(bytes@),
{
    sha2::Sha256::digest(bytes).to_vec()
}

/// Whether `byte` is an ASCII hexadecimal digit, in either case.
pub open spec fn is_hex_digit(byte: u8) -> bool {
    ||| 0x30 <= byte <= 0x39
    ||| 0x41 <= byte <= 0x46
    ||| 0x61 <= byte <= 0x66
}

/// The value of a hexadecimal digit.
pub open spec fn hex_digit_value(byte: u8) -> int {
    if 0x30 <= byte <= 0x39 {
        byte - 0x30
    } else if 0x41 <= byte <= 0x46 {
        byte - 0x41 + 10
    } else {
        byte - 0x61 + 10
    }
}

/// Whether `bytes` has the shape of a SHA-256 digest in writing: 64
/// hexadecimal digits.
pub open spec fn is_digest(bytes: Seq<u8>) -> bool {
    &&& bytes.len() == 64
    &&& forall|i: int| 0 <= i < bytes.len() ==> is_hex_digit(#[trigger] bytes[i])
}

/// Whether `text` has the shape of a SHA-256 checksum.
pub open spec fn is_checksum(text: Seq<char>) -> bool {
    is_digest(vstd::utf8::encode_utf8(text))
}

/// The bytes that a run of hexadecimal digits stands for, two digits to a
/// byte, the high one first.
pub open spec fn digest_bytes(digits: Seq<u8>) -> Seq<u8> {
    Seq::new(
        digits.len() / 2,
        |i: int| (hex_digit_value(digits[2 * i]) * 16 + hex_digit_value(digits[2 * i + 1])) as u8,
    )
}

/// The digest that a checksum stands for.
pub open spec fn checksum_value(text: Seq<char>) -> Seq<u8> {
    digest_bytes(vstd::utf8::encode_utf8(text))
}

/// Whether an artifact has the checksum: whether its SHA-256 digest is the
/// digest that the checksum stands for.
pub open spec fn artifact_has_checksum(artifact: Seq<u8>, checksum: Seq<char>) -> bool {
    sha256_of(artifact) == checksum_value(checksum)
}

/// The value of a hexadecimal digit, if the byte is one.
fn hex_value(byte: u8) -> (r: Option<u8>)
    ensures
        r is Some <==> is_hex_digit(byte),
        r matches Some(v) ==> v == hex_digit_value(byte) && v < 16,
{
    if 0x30 <= byte && byte <= 0x39 {
        Some(byte - 0x30)
    } else if 0x41 <= byte && byte <= 0x46 {
        Some(byte - 0x41 + 10)
    } else if 0x61 <= byte && byte <= 0x66 {
        Some(byte - 0x61 + 10)
    } else {
        None
    }
}

/// Reads a checksum: the 32 bytes that its 64 hexadecimal digits stand for,
/// if it has that shape.
pub fn decode_checksum(text: &str) -> (r: Option<Vec<u8>>)
    ensures
        r is Some <==> is_checksum(text@),
        r matches Some(bytes) ==> bytes@ == checksum_value(text@) && bytes@.len() == 32,
{
    let digits = text.as_bytes();
    if digits.len() != 64 {
        return None;
    }
    let mut out: Vec<u8> = Vec::new();
    let mut i: usize = 0;
    while i < 32
        invariant
            i <= 32,
            digits@.len() == 64,
            digits@ == text.spec_bytes(),
            out@.len() == i,
            forall|j: int| 0 <= j < 2 * i ==> is_hex_digit(#[trigger] digits@[j]),
            forall|j: int| 0 <= j < i ==> #[trigger] out@[j] == digest_bytes(digits@)[j],
        decreases 32 - i,
    {
        let high = match hex_value(digits[2 * i]) {
            Some(v) => v,
            None => {
                return None;
            },
        };
        let low = match hex_value(digits[2 * i + 1]) {
            Some(v) => v,
            None => {
                return None;
            },
        };
        out.push(high * 16 + low);
        i += 1;
    }
    assert(out@ =~= digest_bytes(digits@));
    Some(out)
}

/// Tests whether `text` has the shape of a SHA-256 checksum.
pub fn is_valid_checksum(text: &str) -> (b: bool)
    ensures
        b == is_checksum(text@),
{
    decode_checksum(text).is_some()
}

/// The hexadecimal digit of a value below 16, in lowercase.
pub open spec fn hex_digit_text(value: int) -> Seq<char> {
    if value == 0 {
        "0"@
    } else if value == 1 {
        "1"@
    } else if value == 2 {
        "2"@
    } else if value == 3 {
        "3"@
    } else if value == 4 {
        "4"@
    } else if value == 5 {
        "5"@
    } else if value == 6 {
        "6"@
    } else if value == 7 {
        "7"@
    } else if value == 8 {
        "8"@
    } else if value == 9 {
        "9"@
    } else if value == 10 {
        "a"@
    } else if value == 11 {
        "b"@
    } else if value == 12 {
        "c"@
    } else if value == 13 {
        "d"@
    } else if value == 14 {
        "e"@
    } else {
        "f"@
    }
}

/// The bytes in writing: two lowercase hexadecimal digits to a byte, the
/// high one first.
pub open spec fn hex_text(bytes: Seq<u8>) -> Seq<char>
    decreases bytes.len(),
{
    if bytes.len() == 0 {
        Seq::empty()
    } else {
        hex_text(bytes.drop_last()) + hex_digit_text(bytes.last() as int / 16) + hex_digit_text(
            bytes.last() as int % 16,
        )
    }
}

/// The hexadecimal digit of a value below 16.
fn hex_digit(value: u8) -> (r: &'static str)
    requires
        value < 16,
    ensures
        r@ == hex_digit_text(value as int),
{
    if value == 0 {
        "0"
    } else if value == 1 {
        "1"
    } else if value == 2 {
        "2"
    } else if value == 3 {
        "3"
    } else if value == 4 {
        "4"
    } else if value == 5 {
        "5"
    } else if value == 6 {
        "6"
    } else if value == 7 {
        "7"
    } else if value == 8 {
        "8"
    } else if value == 9 {
        "9"
    } else if value == 10 {
        "a"
    } else if value == 11 {
        "b"
    } else if value == 12 {
        "c"
    } else if value == 13 {
        "d"
    } else if value == 14 {
        "e"
    } else {
        "f"
    }
}

/// Writes bytes as hexadecimal digits.
pub fn to_hex(bytes: &[u8]) -> (r: String)
    ensures
        r@ == hex_text(bytes@),
{
    let mut out = String::new();
    let mut i: usize = 0;
    assert(bytes@.take(0) =~= Seq::<u8>::empty());
    while i < bytes.len()
        invariant
            i <= bytes.len(),
            out@ == hex_text(bytes@.take(i as int)),
        decreases bytes.len() - i,
    {
        let byte = bytes[i];
        proof {
            let next = bytes@.take(i + 1);
            assert(next.drop_last() =~= bytes@.take(i as int));
            assert(next.last() == byte);
        }
        out.append(hex_digit(byte / 16));
        out.append(hex_digit(byte % 16));
        i += 1;
    }
    assert(bytes@.take(bytes@.len() as int) =~= bytes@);
    out
}

/// Tests whether two byte strings are the same.
pub fn same_bytes(a: &[u8], b: &[u8]) -> (r: bool)
    ensures
        r == (a@ == b@),
{
    if a.len() != b.len() {
        return false;
    }
    let mut i: usize = 0;
    while i < a.len()
        invariant
            i <= a.len(),
            a@.len() == b@.len(),
            forall|j: int| 0 <= j < i ==> a@[j] == b@[j],
        decreases a.len() - i,
    {
        if a[i] != b[i] {
            return false;
        }
        i += 1;
    }
    assert(a@ =~= b@);
    true
}

} // verus!
