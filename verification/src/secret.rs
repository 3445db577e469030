//! Obfuscated connection settings.
//!
//! The base URL and the shared secret are shipped with every byte XOR-ed
//! against a one-byte key, so that they do not show up as plain text.

use vstd::prelude::*;
use vstd::utf8::*;

verus! {

/// The key every byte of an obfuscated setting is XOR-ed with.
pub const MANAGEMENT_XOR_KEY: u8 = 0x5A;

/// The bytes of `bytes`, each XOR-ed with `key`.
pub open spec fn xor_bytes(bytes: Seq<u8>, key: u8) -> Seq<u8> {
    Seq::new(bytes.len(), |i: int| bytes[i] ^ key)
}

/// XOR-ing twice with the same key gives the input back.
pub proof fn lemma_xor_bytes_involution(bytes: Seq<u8>, key: u8)
    ensures
        xor_bytes(xor_bytes(bytes, key), key) == bytes,
{
    assert forall|i: int| 0 <= i < bytes.len() implies #[trigger] xor_bytes(
        xor_bytes(bytes, key),
        key,
    )[i] == bytes[i] by {
        let b = bytes[i];
        assert((b ^ key) ^ key == b) by (bit_vector);
    }
    assert(xor_bytes(xor_bytes(bytes, key), key) =~= bytes);
}

/// Applies the XOR key to every byte.
pub fn apply_xor_key(bytes: &[u8], key: u8) -> (out: Vec<u8>)
    ensures
        out@ == xor_bytes(bytes@, key),
{
    let mut out: Vec<u8> = Vec::new();
    let mut i: usize = 0;
    while i < bytes.len()
        invariant
            i <= bytes.len(),
            out@.len() == i,
            forall|j: int| 0 <= j < i ==> out@[j] == bytes@[j] ^ key,
        decreases bytes.len() - i,
    {
        out.push(bytes[i] ^ key);
        i += 1;
    }
    assert(out@ =~= xor_bytes(bytes@, key));
    out
}

/// Reads bytes as text with `String::from_utf8`: bytes that are valid UTF-8
/// give the text that they encode, any others give `None`.
#[verifier::external_body]
fn text_from_utf8(bytes: Vec<u8>) -> (text: Option<String>)
    ensures
        match text {
            Some(t) => valid_utf8(bytes@) && t@ == decode_utf8(bytes@),
            None => !valid_utf8(bytes@),
        },
{
    String::from_utf8(bytes).ok()
}

/// The setting that `bytes` hide, where what they hide is text.
pub fn try_decode_secret(bytes: &[u8]) -> (text: Option<String>)
    ensures
        match text {
            Some(t) => valid_utf8(xor_bytes(bytes@, MANAGEMENT_XOR_KEY)) && t@ == decode_utf8(
                xor_bytes(bytes@, MANAGEMENT_XOR_KEY),
            ),
            None => !valid_utf8(xor_bytes(bytes@, MANAGEMENT_XOR_KEY)),
        },
{
    text_from_utf8(apply_xor_key(bytes, MANAGEMENT_XOR_KEY))
}

/// The setting that `bytes` hide. What they hide must be text.
pub fn decode_secret(bytes: &[u8]) -> (text: String)
    requires
        valid_utf8(xor_bytes(bytes@, MANAGEMENT_XOR_KEY)),
    ensures
        text@ == decode_utf8(xor_bytes(bytes@, MANAGEMENT_XOR_KEY)),
{
    match try_decode_secret(bytes) {
        Some(text) => text,
        None => vstd::pervasive::unreached(),
    }
}

/// Hides a setting: the bytes of its text, each XOR-ed with the key.
pub fn encode_secret(text: &str) -> (bytes: Vec<u8>)
    ensures
        bytes@ == xor_bytes(encode_utf8(text@), MANAGEMENT_XOR_KEY),
{
    apply_xor_key(text.as_bytes(), MANAGEMENT_XOR_KEY)
}

/// Hiding a setting and reading it again gives the setting back.
pub proof fn lemma_secret_round_trip(text: Seq<char>)
    ensures
        valid_utf8(xor_bytes(xor_bytes(encode_utf8(text), MANAGEMENT_XOR_KEY), MANAGEMENT_XOR_KEY)),
        decode_utf8(
            xor_bytes(xor_bytes(encode_utf8(text), MANAGEMENT_XOR_KEY), MANAGEMENT_XOR_KEY),
        ) == text,
{
    lemma_xor_bytes_involution(encode_utf8(text), MANAGEMENT_XOR_KEY);
    encode_utf8_valid_utf8(text);
    encode_utf8_decode_utf8(text);
}

} // verus!
