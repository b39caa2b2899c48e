//! Key handles: a queue key in base64, which the `base64` crate writes and reads.

use base64::Engine;
use vstd::prelude::*;

verus! {

/// `base64::DecodeError`: why a text is not base64.
#[verifier::external_type_specification]
#[verifier::external_body]
pub struct ExDecodeError(base64::DecodeError);

/// The text that the standard base64 engine writes for `bytes`.
pub uninterp spec fn base64_text(bytes: Seq<u8>) -> Seq<char>;

/// The bytes that the standard base64 engine reads from `text`, if it reads any.
pub uninterp spec fn base64_bytes(text: Seq<char>) -> Option<Seq<u8>>;

/// Whether the length that base64 needs for `len` bytes, with padding, fits in a `usize`.
pub open spec fn base64_fits(len: nat) -> bool {
    len / 3 * 4 + 4 <= usize::MAX
}

/// Calls `encode` of `base64::engine::general_purpose::STANDARD`, which panics where the
/// length of its output does not fit in a `usize`. The contract names the result and says
/// what the crate's documentation shows: the same engine decodes the text to the bytes.
#[verifier::external_body]
pub(crate) fn base64_encode(bytes: &[u8]) -> (text: String)
    requires
        base64_fits(bytes@.len()),
    ensures
        text@ == base64_text(bytes@),
        base64_bytes(text@) == Some(bytes@),
{
    base64::engine::general_purpose::STANDARD.encode(bytes)
}

/// Calls `decode` of `base64::engine::general_purpose::STANDARD`. The contract only names
/// the result.
#[verifier::external_body]
pub(crate) fn base64_decode(text: &str) -> (r: Result<Vec<u8>, base64::DecodeError>)
    ensures
        match r {
            Ok(bytes) => base64_bytes(text@) == Some(bytes@),
            Err(_) => base64_bytes(text@).is_none(),
        },
{
    base64::engine::general_purpose::STANDARD.decode(text)
}

/// The handle of a queue key, by which a worker names the job that it completes. There is
/// none for a key so long that its base64 does not fit in memory.
pub fn key_handle(queue_key: &[u8]) -> (handle: Option<String>)
    ensures
        match handle {
            Some(h) => base64_fits(queue_key@.len()) && h@ == base64_text(queue_key@)
                && base64_bytes(h@) == Some(queue_key@),
            None => !base64_fits(queue_key@.len()),
        },
{
    if queue_key.len() / 3 <= (usize::MAX - 4) / 4 {
        Some(base64_encode(queue_key))
    } else {
        None
    }
}

/// The queue key that a handle stands for, if it is base64.
pub fn handle_key(handle: &str) -> (queue_key: Option<Vec<u8>>)
    ensures
        match queue_key {
            Some(k) => base64_bytes(handle@) == Some(k@),
            None => base64_bytes(handle@).is_none(),
        },
{
    match base64_decode(handle) {
        Ok(k) => Some(k),
        Err(_) => None,
    }
}

} // verus!
