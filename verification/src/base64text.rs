//! Base64 text, read and written by `cosmwasm_std::Binary`.

use crate::error::ContractError;
use vstd::prelude::*;

verus! {

/// Names the bytes that `cosmwasm_std::Binary::from_base64` reads from
/// `text`, and `None` where it takes `text` for no base64 at all.
pub uninterp spec fn base64_decoded(text: Seq<char>) -> Option<Seq<u8>>;

/// Names the base64 text that `cosmwasm_std::Binary::to_base64` writes for
/// `data`.
pub uninterp spec fn base64_encoded(data: Seq<u8>) -> Seq<char>;

/// `cosmwasm_std::StdError`, the error of `Binary::from_base64`. It is
/// passed on unread.
#[verifier::external_type_specification]
#[verifier::external_body]
pub struct ExStdError(cosmwasm_std::StdError);

/// `cosmwasm_std::Binary::from_base64`: the bytes that the text spells in
/// the standard alphabet, with or without padding, or an error. The same
/// text always gives the same answer.
#[verifier::external_body]
fn binary_from_base64(text: &str) -> (decoded: Result<Vec<u8>, cosmwasm_std::StdError>)
    ensures
        decoded is Ok <==> base64_decoded(text@) is Some,
        decoded matches Ok(bytes) ==> base64_decoded(text@) == Some(bytes@),
{
    match cosmwasm_std::Binary::from_base64(text) {
        Ok(binary) => Ok(binary.0),
        Err(e) => Err(e),
    }
}

/// `cosmwasm_std::Binary::to_base64`: the bytes in base64, in the standard
/// alphabet and with padding.
#[verifier::external_body]
fn binary_to_base64(data: &[u8]) -> (text: String)
    ensures
        text@ == base64_encoded(data@),
{
    cosmwasm_std::Binary::from(data).to_base64()
}

/// Writes bytes in base64.
pub fn encode_base64(data: &[u8]) -> (text: String)
    ensures
        text@ == base64_encoded(data@),
{
    binary_to_base64(data)
}

/// Decodes base64 text. Text that is no base64 is malformed.
pub fn decode_base64(text: &str) -> (decoded: Result<Vec<u8>, ContractError>)
    ensures
        decoded is Ok <==> base64_decoded(text@) is Some,
        decoded matches Ok(bytes) ==> base64_decoded(text@) == Some(bytes@),
        decoded matches Err(e) ==> e == ContractError::MalformedInput,
{
    match binary_from_base64(text) {
        Ok(bytes) => Ok(bytes),
        Err(_) => Err(ContractError::MalformedInput),
    }
}

} // verus!
