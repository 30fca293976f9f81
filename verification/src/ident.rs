//! Identifiers: UUIDs, MD5 digests, and the random values that calls are told apart by.
use vstd::arithmetic::power::pow;
use vstd::prelude::*;
use crate::text;
use crate::text::Text;

verus! {

/// The sixteen octets of a UUID, most significant first.
pub open spec fn uuid_octets(id: u128) -> Seq<u8> {
    Seq::new(16, |i: int| ((id as int / pow(256, (15 - i) as nat)) % 256) as u8)
}

/// Two lower-case hexadecimal digits for each octet.
pub open spec fn hex_octets(octets: Seq<u8>) -> Text {
    Seq::new(
        2 * octets.len(),
        |i: int|
            text::digit_char(
                if i % 2 == 0 {
                    octets[i / 2] as nat / 16
                } else {
                    octets[i / 2] as nat % 16
                },
            ),
    )
}

/// The hyphenated form of a UUID: 8, 4, 4, 4 and 12 hexadecimal digits.
#[verifier::opaque]
pub open spec fn uuid_text(id: u128) -> Text {
    let h = hex_octets(uuid_octets(id));
    h.subrange(0, 8) + "-"@ + h.subrange(8, 12) + "-"@ + h.subrange(12, 16) + "-"@ + h.subrange(
        16,
        20,
    ) + "-"@ + h.subrange(20, 32)
}

/// Whether a UUID is a random one: version 4, with the variant of RFC 9562.
pub open spec fn is_random_uuid(id: u128) -> bool {
    (id >> 76) & 0xf == 4 && (id >> 62) & 3 == 2
}

/// A random UUID.
pub(crate) proof fn lemma_some_random_uuid() -> (id: u128)
    ensures
        is_random_uuid(id),
{
    let id = 0x4000_8000_0000_0000_0000u128;
    assert((0x4000_8000_0000_0000_0000u128 >> 76) & 0xf == 4 && (0x4000_8000_0000_0000_0000u128
        >> 62) & 3 == 2) by (bit_vector);
    id
}

/// `uuid::Uuid::new_v4`: a random UUID, as the number that its octets spell. It panics if the
/// operating system has no random numbers to give.
#[verifier::external_body]
pub(crate) fn new_v4() -> (id: u128)
    ensures
        is_random_uuid(id),
{
    uuid::Uuid::new_v4().as_u128()
}

/// `uuid::Uuid`'s `Display`: the hyphenated lower-case form.
#[verifier::external_body]
pub(crate) fn format_uuid(id: u128) -> (s: String)
    ensures
        s@ == uuid_text(id),
{
    uuid::Uuid::from_u128(id).to_string()
}

/// `uuid::Uuid::as_bytes`: the octets, most significant first.
#[verifier::external_body]
fn uuid_bytes(id: u128) -> (r: [u8; 16])
    ensures
        r@ == uuid_octets(id),
{
    *uuid::Uuid::from_u128(id).as_bytes()
}

/// The MD5 digest of `data`.
pub uninterp spec fn md5_digest(data: Seq<u8>) -> Seq<u8>;

/// `md5::compute`: the MD5 digest of a byte string.
#[verifier::external_body]
fn md5_compute(data: &[u8]) -> (r: [u8; 16])
    ensures
        r@ == md5_digest(data@),
{
    md5::compute(data).0
}

/// `md5::Digest`'s `LowerHex`: two lower-case hexadecimal digits for each octet.
#[verifier::external_body]
fn digest_hex(digest: [u8; 16]) -> (s: String)
    ensures
        s@ == hex_octets(digest@),
{
    format!("{:x}", md5::Digest(digest))
}

/// The MD5 digest of a byte string, in hexadecimal.
pub open spec fn md5_hex(data: Seq<u8>) -> Text {
    hex_octets(md5_digest(data))
}

/// The MD5 digest of a text's UTF-8 encoding, in hexadecimal.
pub open spec fn md5_text(s: Text) -> Text {
    md5_hex(vstd::utf8::encode_utf8(s))
}

/// The MD5 digest of a text, in hexadecimal.
pub fn md5_of_text(s: &str) -> (r: String)
    ensures
        r@ == md5_text(s@),
{
    digest_hex(md5_compute(s.as_bytes()))
}

/// The client nonce made from a UUID.
pub open spec fn cnonce_of(id: u128) -> Text {
    md5_hex(uuid_octets(id))
}

/// The client nonce made from a UUID.
pub fn make_cnonce(id: u128) -> (r: String)
    ensures
        r@ == cnonce_of(id),
{
    let bytes: [u8; 16] = uuid_bytes(id);
    digest_hex(md5_compute(&bytes))
}

/// A fresh client nonce.
pub fn fresh_cnonce() -> (r: String)
    ensures
        exists|id: u128| #[trigger] is_random_uuid(id) && r@ == cnonce_of(id),
{
    let id: u128 = new_v4();
    make_cnonce(id)
}

/// The RTP synchronisation source made from a UUID: the first four octets of its digest.
pub open spec fn ssrc_of(id: u128) -> int {
    let d = md5_digest(uuid_octets(id));
    d[0] * 0x1000000 + d[1] * 0x10000 + d[2] * 0x100 + d[3]
}

/// The RTP synchronisation source made from a UUID.
pub fn make_ssrc(id: u128) -> (r: u32)
    ensures
        r == ssrc_of(id),
{
    let bytes: [u8; 16] = uuid_bytes(id);
    let d: [u8; 16] = md5_compute(&bytes);
    d[0] as u32 * 0x1000000 + d[1] as u32 * 0x10000 + d[2] as u32 * 0x100 + d[3] as u32
}

/// A fresh RTP synchronisation source.
pub fn fresh_ssrc() -> (r: u32)
    ensures
        exists|id: u128| #[trigger] is_random_uuid(id) && r == ssrc_of(id),
{
    let id: u128 = new_v4();
    make_ssrc(id)
}

} // verus!
