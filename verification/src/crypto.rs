//! The keyed hash behind message signatures: HMAC-SHA-256, hex-encoded.
use vstd::prelude::*;
use crate::text::spec_digit_char;
use hmac::Mac;

verus! {

/// What HMAC-SHA-256 returns for a key and a message, both given as
/// character strings and hashed over their UTF-8 bytes. A function of its
/// arguments alone: the same pair gives the same digest on every machine.
pub uninterp spec fn hmac_sha256(key: Seq<char>, data: Seq<char>) -> Seq<u8>;

/// Relies on `hmac::Hmac<sha2::Sha256>`: one digest of 32 bytes, a function
/// of the key and the data alone. `Hmac` accepts a key of any length, so the
/// construction cannot fail.
#[verifier::external_body]
fn hmac_sha256_digest(key: &str, data: &str) -> (r: Vec<u8>)
    ensures
        r@ == hmac_sha256(key@, data@),
        r@.len() == 32,
{
    let mut mac = <hmac::Hmac<sha2::Sha256> as Mac>::new_from_slice(key.as_bytes())
        .expect("HMAC accepts any key length");
    mac.update(data.as_bytes());
    mac.finalize().into_bytes().to_vec()
}

/// Lowercase hexadecimal rendering of a byte string, two digits per byte,
/// high digit first.
pub open spec fn spec_hex(bs: Seq<u8>) -> Seq<char>
    decreases bs.len(),
{
    if bs.len() == 0 {
        Seq::empty()
    } else {
        seq![
            spec_digit_char((bs.first() / 16) as nat),
            spec_digit_char((bs.first() % 16) as nat),
        ] + spec_hex(bs.drop_first())
    }
}

/// Relies on `hex::encode`: lowercase hex, two digits per byte, high digit
/// first, bytes in order.
#[verifier::external_body]
fn hex_encode(b: &Vec<u8>) -> (r: String)
    ensures
        r@ == spec_hex(b@),
{
    hex::encode(b.as_slice())
}

/// The signature frame of a wire message: empty when no key is configured,
/// else the hex form of the keyed hash over the four JSON parts concatenated
/// in wire order.
pub open spec fn spec_signature(
    key: Seq<char>,
    header: Seq<char>,
    parent: Seq<char>,
    metadata: Seq<char>,
    content: Seq<char>,
) -> Seq<char> {
    if key.len() == 0 {
        Seq::empty()
    } else {
        spec_hex(hmac_sha256(key, header + parent + metadata + content))
    }
}

/// Hex doubles the length: two digits for every byte.
pub proof fn lemma_spec_hex_len(bs: Seq<u8>)
    ensures
        spec_hex(bs).len() == 2 * bs.len(),
    decreases bs.len(),
{
    if bs.len() > 0 {
        lemma_spec_hex_len(bs.drop_first());
    }
}

/// Computes the signature frame for the four serialized message parts: the
/// empty string exactly when no key is configured, else the 64-character
/// hex form of the 32-byte digest.
pub fn compute_signature(
    key: &str,
    header: &str,
    parent: &str,
    metadata: &str,
    content: &str,
) -> (r: String)
    ensures
        r@ == spec_signature(key@, header@, parent@, metadata@, content@),
        r@.len() == (if key@.len() == 0 {
            0int
        } else {
            64int
        }),
{
    if key.is_empty() {
        let r = String::new();
        return r;
    }
    let mut data = String::new();
    data.append(header);
    data.append(parent);
    data.append(metadata);
    data.append(content);
    let digest = hmac_sha256_digest(key, data.as_str());
    proof {
        lemma_spec_hex_len(digest@);
    }
    hex_encode(&digest)
}

} // verus!
