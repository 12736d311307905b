//! The envelope that answers a transaction request.

use base64::Engine;
use vstd::prelude::*;

verus! {

/// The standard padded base64 text of `bytes`.
pub uninterp spec fn base64_standard(bytes: Seq<u8>) -> Seq<char>;

/// Relies on base64's `general_purpose::STANDARD.encode`: the result is the
/// padded standard encoding, four characters for each started group of three
/// bytes (`encoded_len`), which panics only when that length overflows.
#[verifier::external_body]
fn encode_base64(bytes: &Vec<u8>) -> (r: String)
    requires
        bytes@.len() <= usize::MAX / 2,
    ensures
        r@ == base64_standard(bytes@),
        r@.len() == 4 * ((bytes@.len() + 2) / 3),
{
    base64::engine::general_purpose::STANDARD.encode(bytes)
}

/// What a business function returns on success: a serialized transaction,
/// carried as an opaque blob, and an optional message for the user.
pub struct ActionTransaction {
    pub transaction: Vec<u8>,
    pub message: Option<String>,
}

/// The wire form of a transaction result.
pub struct ActionTransactionResponse {
    pub transaction: String,
    pub message: Option<String>,
}

pub open spec fn message_view(m: Option<String>) -> Option<Seq<char>> {
    match m {
        Some(s) => Some(s@),
        None => None,
    }
}

/// Wraps a business function's result for the wire: on success the
/// transaction is base64-encoded and the message kept; a failure passes
/// through unchanged.
pub fn wrap_transaction<E>(result: Result<ActionTransaction, E>) -> (r: Result<
    ActionTransactionResponse,
    E,
>)
    requires
        result matches Ok(t) ==> t.transaction@.len() <= usize::MAX / 2,
    ensures
        match result {
            Ok(t) => r matches Ok(w) && w.transaction@ == base64_standard(t.transaction@)
                && w.transaction@.len() == 4 * ((t.transaction@.len() + 2) / 3) && message_view(
                w.message,
            ) == message_view(t.message),
            Err(e) => r matches Err(f) && f == e,
        },
{
    match result {
        Ok(t) => {
            let transaction = encode_base64(&t.transaction);
            Ok(ActionTransactionResponse { transaction, message: t.message })
        },
        Err(e) => Err(e),
    }
}

} // verus!
