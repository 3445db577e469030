//! The identity of a device: the SHA-256 digest of its hardware
//! fingerprint, in hexadecimal, computed once and kept in the settings.

use sha2::Digest;
use vstd::prelude::*;
use vstd::string::*;
use vstd::utf8::*;

use crate::client::error::{SyncError, SyncErrorKind};
use crate::client::settings::{SETTINGS_DEVICE_ID, Settings};
use crate::decimal::digit_char;
use crate::text::{is_blank, is_blank_text};
use crate::text_map::row_of;

verus! {

/// The SHA-256 digest of `data`, as the `sha2` crate computes it.
pub uninterp spec fn sha256_digest(data: Seq<u8>) -> Seq<u8>;

/// The lower-case hexadecimal digit for `n`.
pub open spec fn hex_digit(n: int) -> char {
    if n < 10 {
        digit_char(n)
    } else if n == 10 {
        'a'
    } else if n == 11 {
        'b'
    } else if n == 12 {
        'c'
    } else if n == 13 {
        'd'
    } else if n == 14 {
        'e'
    } else {
        'f'
    }
}

/// `bytes` in lower-case hexadecimal: two digits for each byte, the high
/// half first.
pub open spec fn hex_lower(bytes: Seq<u8>) -> Seq<char> {
    Seq::new(
        2 * bytes.len(),
        |i: int|
            hex_digit(
                if i % 2 == 0 {
                    bytes[i / 2] as int / 16
                } else {
                    bytes[i / 2] as int % 16
                },
            ),
    )
}

/// The device id that belongs to a hardware fingerprint.
pub open spec fn device_id_text(fingerprint: Seq<char>) -> Seq<char> {
    hex_lower(sha256_digest(encode_utf8(fingerprint)))
}

/// Hashes `data` with the `sha2` crate: `Sha256::digest`. The digest is the
/// one named by `sha256_digest`, and it is 32 bytes long.
#[verifier::external_body]
fn sha256(data: &[u8]) -> (digest: Vec<u8>)
    ensures
        digest@ == sha256_digest(data@),
        digest@.len() == 32,
{
    sha2::Sha256::digest(data).to_vec()
}

/// Writes bytes in hexadecimal with the `hex` crate: `ToHex::encode_hex`,
/// which gives two lower-case digits for each byte, the high half first.
#[verifier::external_body]
fn hex_encode(bytes: &[u8]) -> (text: String)
    ensures
        text@ == hex_lower(bytes@),
{
    hex::ToHex::encode_hex::<String>(&bytes)
}

/// Bytes in hexadecimal are never blank, unless there are none.
pub proof fn lemma_hex_is_not_blank(bytes: Seq<u8>)
    requires
        bytes.len() > 0,
    ensures
        !is_blank_text(hex_lower(bytes)),
{
    let first = hex_lower(bytes)[0];
    assert(first == hex_digit(bytes[0] as int / 16));
    assert(!crate::text::is_space(first));
}

/// The device id that belongs to a hardware fingerprint: 64 hexadecimal
/// digits.
pub fn derive_device_id(fingerprint: &str) -> (id: String)
    ensures
        id@ == device_id_text(fingerprint@),
        id@.len() == 64,
        !is_blank_text(id@),
{
    let digest = sha256(fingerprint.as_bytes());
    proof {
        lemma_hex_is_not_blank(digest@);
    }
    hex_encode(digest.as_slice())
}

/// The device id that the settings hold, where they hold one that is not
/// blank.
pub open spec fn stored_id(settings: Map<Seq<char>, Seq<char>>) -> Option<Seq<char>> {
    match row_of(settings, SETTINGS_DEVICE_ID@) {
        Some(id) => if is_blank_text(id) {
            None
        } else {
            Some(id)
        },
        None => None,
    }
}

/// The device id that the settings hold, where they hold one that is not
/// blank.
pub fn stored_device_id(db: &Settings) -> (id: Option<String>)
    ensures
        crate::text::text_of(id) == stored_id(db@),
{
    match db.get_setting(SETTINGS_DEVICE_ID) {
        Some(existing) => if is_blank(existing.as_str()) {
            None
        } else {
            Some(existing)
        },
        None => None,
    }
}

/// The id of this device. The id in the settings is used where there is one
/// that is not blank, and nothing changes. Else the id is derived from the
/// hardware fingerprint and kept in the settings; where the fingerprint
/// could not be read, `fingerprint` holds the reason, and the round fails
/// with it. An id that was given out is the id that the settings hold from
/// then on, whatever the fingerprint is later.
pub fn get_or_create_device_id(db: &mut Settings, fingerprint: Result<String, String>) -> (r:
    Result<String, SyncError>)
    ensures
        match stored_id(old(db)@) {
            Some(existing) => final(db)@ == old(db)@ && (r matches Ok(id) && id@ == existing),
            None => match fingerprint {
                Ok(raw) => final(db)@ == old(db)@.insert(
                    SETTINGS_DEVICE_ID@,
                    device_id_text(raw@),
                ) && (r matches Ok(id) && id@ == device_id_text(raw@)),
                Err(reason) => final(db)@ == old(db)@ && (r matches Err(e) && e.is(
                    SyncErrorKind::HardwareFingerprint,
                    "Failed to read hardware fingerprint: "@ + reason@,
                )),
            },
        },
        r matches Ok(id) ==> stored_id(final(db)@) == Some(id@),
{
    if let Some(existing) = stored_device_id(db) {
        return Ok(existing);
    }
    match fingerprint {
        Ok(raw) => {
            let hashed = derive_device_id(raw.as_str());
            db.set_setting(SETTINGS_DEVICE_ID, hashed.as_str());
            Ok(hashed)
        },
        Err(reason) => Err(
            SyncError::new(
                SyncErrorKind::HardwareFingerprint,
                "Failed to read hardware fingerprint: ",
                reason.as_str(),
            ),
        ),
    }
}

} // verus!
