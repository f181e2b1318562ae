use ed25519_dalek::{Signature, Verifier, VerifyingKey};
use vstd::prelude::*;
use vstd::string::StringSliceAdditionalSpecFns;

verus! {

/// Length in bytes of an Ed25519 public key.
pub const PUBLIC_KEY_LENGTH: usize = 32;

/// Length in bytes of an Ed25519 signature.
pub const SIGNATURE_LENGTH: usize = 64;

/// Value of a hexadecimal digit, either case; `-1` for any other character.
pub open spec fn hex_digit_value(c: char) -> int {
    let v = c as u32 as int;
    if 48 <= v <= 57 {
        v - 48
    } else if 97 <= v <= 102 {
        v - 87
    } else if 65 <= v <= 70 {
        v - 55
    } else {
        -1
    }
}

/// An even number of hexadecimal digits.
pub open spec fn is_hex(s: Seq<char>) -> bool {
    &&& s.len() % 2 == 0
    &&& forall|i: int| 0 <= i < s.len() ==> hex_digit_value(#[trigger] s[i]) >= 0
}

/// The bytes that pairs of hexadecimal digits stand for, high digit first.
pub open spec fn hex_bytes(s: Seq<char>) -> Seq<u8> {
    Seq::new(
        s.len() / 2,
        |i: int| (16 * hex_digit_value(s[2 * i]) + hex_digit_value(s[2 * i + 1])) as u8,
    )
}

/// Relies on hex::decode: it fails on an odd length or on a character that
/// is not a hexadecimal digit, and otherwise turns each pair of digits into
/// one byte.
#[verifier::external_body]
fn decode_hex(s: &str) -> (r: Option<Vec<u8>>)
    ensures
        r is Some <==> is_hex(s@),
        r matches Some(b) ==> b@ == hex_bytes(s@),
{
    hex::decode(s).ok()
}

/// Whether `signature` is a valid Ed25519 signature of `message` under the
/// public key `key`, all three as bytes.
pub uninterp spec fn ed25519_accepts(key: Seq<u8>, message: Seq<u8>, signature: Seq<u8>) -> bool;

/// Relies on ed25519_dalek's `VerifyingKey::try_from(&[u8])` (which fails on
/// any length but 32, and on bytes that are no curve point), ed25519's
/// `Signature::try_from(&[u8])` (which succeeds exactly on 64 bytes) and
/// `Verifier::verify`: whether the signature checks, a failed conversion
/// counting as no.
#[verifier::external_body]
fn ed25519_verify(key: &Vec<u8>, message: &Vec<u8>, signature: &Vec<u8>) -> (r: bool)
    ensures
        r == ed25519_accepts(key@, message@, signature@),
        key.len() != PUBLIC_KEY_LENGTH ==> !r,
        signature.len() != SIGNATURE_LENGTH ==> !r,
{
    let Ok(k) = VerifyingKey::try_from(key.as_slice()) else {
        return false;
    };
    let Ok(s) = Signature::try_from(signature.as_slice()) else {
        return false;
    };
    k.verify(message.as_slice(), &s).is_ok()
}

/// The bytes of `a` followed by those of `b`.
pub fn concat_bytes(a: &[u8], b: &[u8]) -> (r: Vec<u8>)
    ensures
        r@ == a@ + b@,
{
    let mut r: Vec<u8> = Vec::new();
    let mut i: usize = 0;
    while i < a.len()
        invariant
            i <= a.len(),
            r@ == a@.take(i as int),
        decreases a.len() - i,
    {
        r.push(a[i]);
        i = i + 1;
        assert(r@ =~= a@.take(i as int));
    }
    assert(a@.take(a.len() as int) =~= a@);
    let mut j: usize = 0;
    while j < b.len()
        invariant
            j <= b.len(),
            r@ == a@ + b@.take(j as int),
        decreases b.len() - j,
    {
        r.push(b[j]);
        j = j + 1;
        assert(r@ =~= a@ + b@.take(j as int));
    }
    assert(b@.take(b.len() as int) =~= b@);
    r
}

/// Checks a request signature: `public_key` and `signature` are hexadecimal,
/// and the signed message is `timestamp` followed by `body`. Any malformed
/// input gives `false`.
pub fn verify_discord_signature(public_key: &str, signature: &str, timestamp: &str, body: &str) -> (r:
    bool)
    ensures
        r == (is_hex(public_key@) && is_hex(signature@) && ed25519_accepts(
            hex_bytes(public_key@),
            timestamp.spec_bytes() + body.spec_bytes(),
            hex_bytes(signature@),
        )),
        hex_bytes(public_key@).len() != PUBLIC_KEY_LENGTH ==> !r,
        hex_bytes(signature@).len() != SIGNATURE_LENGTH ==> !r,
{
    let key_bytes = match decode_hex(public_key) {
        Some(b) => b,
        None => return false,
    };
    let signature_bytes = match decode_hex(signature) {
        Some(b) => b,
        None => return false,
    };
    let message = concat_bytes(timestamp.as_bytes(), body.as_bytes());
    ed25519_verify(&key_bytes, &message, &signature_bytes)
}

} // verus!
