//! Signatures: HMAC-SHA256, written as lowercase hexadecimal.

use vstd::prelude::*;
use vstd::utf8::encode_utf8;

verus! {

/// The HMAC-SHA256 tag of `data` under `key`.
pub uninterp spec fn hmac_sha256(key: Seq<u8>, data: Seq<u8>) -> Seq<u8>;

/// `hmac::Hmac::<sha2::Sha256>` keyed with `key` (`new_from_slice`, which accepts keys of
/// any length), fed `data` (`update`) and finalized (`finalize`): the 32-byte tag. The tag
/// itself is only named (`hmac_sha256`), not described.
#[verifier::external_body]
pub(crate) fn hmac_sha256_digest(key: &[u8], data: &[u8]) -> (r: Vec<u8>)
    ensures
        r@ == hmac_sha256(key@, data@),
        r@.len() == 32,
{
    let mut mac = <hmac::Hmac<sha2::Sha256> as hmac::Mac>::new_from_slice(key).expect("HMAC-SHA256 accepts any key size");
    hmac::Mac::update(&mut mac, data);
    hmac::Mac::finalize(mac).into_bytes().to_vec()
}

/// The lowercase hexadecimal digit of a value below sixteen.
pub open spec fn hex_digit(n: int) -> char {
    if n < 10 {
        ((n + '0' as int) as char)
    } else {
        ((n - 10 + 'a' as int) as char)
    }
}

/// The bytes as lowercase hexadecimal, two digits per byte, high half first.
pub open spec fn hex_text(bytes: Seq<u8>) -> Seq<char>
    decreases bytes.len(),
{
    if bytes.len() == 0 {
        Seq::empty()
    } else {
        hex_text(bytes.drop_last()) + seq![hex_digit(bytes.last() as int / 16), hex_digit(bytes.last() as int % 16)]
    }
}

/// `hex::encode`: the bytes as lowercase hexadecimal, two digits per byte, high half first
/// (the crate maps each half through `0123456789abcdef`).
#[verifier::external_body]
pub(crate) fn hex_encode(bytes: &[u8]) -> (r: String)
    ensures
        r@ == hex_text(bytes@),
{
    hex::encode(bytes)
}

/// Why a signature cannot be made.
#[derive(Clone, Copy, Debug, PartialEq, Eq, Structural)]
pub enum CryptoError {
    /// The secret is empty.
    EmptySecret,
}

impl CryptoError {
    /// The error message.
    pub fn message(&self) -> (r: &'static str)
        ensures
            r@ == "HMAC secret must not be empty"@,
    {
        "HMAC secret must not be empty"
    }
}

/// The signature of `data` with `secret`: its HMAC-SHA256 tag (keyed with the UTF-8 bytes of
/// the secret, over the UTF-8 bytes of the data) in lowercase hexadecimal.
pub open spec fn signature(data: Seq<char>, secret: Seq<char>) -> Seq<char> {
    hex_text(hmac_sha256(encode_utf8(secret), encode_utf8(data)))
}

/// Signs `data` with `secret`; an empty secret is refused.
pub fn hmac_sign(data: &str, secret: &str) -> (r: Result<String, CryptoError>)
    ensures
        secret@.len() == 0 ==> r == Err::<String, CryptoError>(CryptoError::EmptySecret),
        secret@.len() != 0 ==> (r matches Ok(s) && s@ == signature(data@, secret@)),
{
    if crate::text::chars_of(secret).len() == 0 {
        return Err(CryptoError::EmptySecret);
    }
    let tag = hmac_sha256_digest(secret.as_bytes(), data.as_bytes());
    Ok(hex_encode(&tag))
}

} // verus!
