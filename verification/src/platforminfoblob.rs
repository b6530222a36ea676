//! The two binary structures that an attestation report carries: the
//! platform info blob and the quote body.
#![allow(non_camel_case_types)]

use crate::bigendian::{be_value, lemma_be_value_four, lemma_be_value_two};
use crate::error::ContractError;
use crate::hash::{sha256, sha256_digest, SHA256_SIZE};
use crate::hexcode::{
    hex_decode, hex_decoded, hex_digit_value, is_hex_text, lemma_hex_text_is_ascii,
};
use crate::intelstructs::ClaimStruct;
use vstd::prelude::*;
use vstd::slice::slice_subrange;
use vstd::string::StringSliceAdditionalSpecFns;
use vstd::utf8::encode_utf8;

verus! {

/// Length of a platform security version number: the 16 bytes of that of
/// the CPU, followed by the two bytes of that of the quoting enclave.
pub const PSVN_SIZE: usize = 18;

/// Length of the security version number of the platform services driver.
pub const PSDA_SVN_SIZE: usize = 4;

/// Length of the security version number of the platform services enclave.
pub const ISVSVN_SIZE: usize = 2;

/// Length of a platform info blob without its header.
pub const SGX_PLATFORM_INFO_SIZE: usize = 101;

/// Length of the header in front of a platform info blob.
pub const PLATFORM_INFO_HEADER_SIZE: usize = 4;

/// Length of a platform info blob with its header.
pub const PLATFORM_INFO_BLOB_SIZE: usize = 105;

/// Length of a platform info blob with its header, written in hexadecimal.
pub const PLATFORM_INFO_HEX_SIZE: usize = 210;

/// Length of a quote body.
pub const QUOTE_BODY_LENGTH: usize = 432;

/// Where the identity of the enclave starts in a quote body. It is 32 bytes
/// long.
pub const MRENCLAVE_OFFSET: usize = 112;

/// Where the identity of the enclave's signer starts in a quote body. It is
/// 32 bytes long.
pub const MRSIGNER_OFFSET: usize = 176;

/// Where the payload that the enclave chose starts in a quote body.
pub const PAYLOAD_OFFSET: usize = 368;

/// Length of the payload in a quote body. Only its first half carries data.
pub const PAYLOAD_SIZE: usize = 64;

/// Length of the digest that the payload of a quote body starts with.
pub const PAYLOAD_HASH_SIZE: usize = 32;

/// Bit of `sgx_epid_group_flags`: the group of the quoting enclave is revoked.
pub const QE_EPID_GROUP_REVOKED: u8 = 0x01;

/// Bit of `sgx_epid_group_flags`: a rekey of the group is available.
pub const PERF_REKEY_FOR_QE_EPID_GROUP_AVAILABLE: u8 = 0x02;

/// Bit of `sgx_epid_group_flags`: the group of the quoting enclave is out of
/// date.
pub const QE_EPID_GROUP_OUT_OF_DATE: u8 = 0x04;

/// Bit of `sgx_tcb_evaluation_flags`: the CPU's version is out of date.
pub const QUOTE_CPUSVN_OUT_OF_DATE: u16 = 0x0001;

/// Bit of `sgx_tcb_evaluation_flags`: the quoting enclave is out of date.
pub const QUOTE_ISVSVN_QE_OUT_OF_DATE: u16 = 0x0002;

/// Bit of `sgx_tcb_evaluation_flags`: the provisioning enclave is out of date.
pub const QUOTE_ISVSVN_PCE_OUT_OF_DATE: u16 = 0x0004;

/// Bit of `sgx_tcb_evaluation_flags`: the platform needs to be configured.
pub const PLATFORM_CONFIGURATION_NEEDED: u16 = 0x0008;

/// Bit of `pse_evaluation_flags`: the platform services enclave is out of
/// date.
pub const PSE_ISVSVN_OUT_OF_DATE: u16 = 0x0001;

/// Bit of `pse_evaluation_flags`: the group of the platform services
/// hardware is revoked.
pub const EPID_GROUP_ID_BY_PS_HW_GID_REVOKED: u16 = 0x0002;

/// Bit of `pse_evaluation_flags`: the version in the security info of the
/// platform services hardware is out of date.
pub const SVN_FROM_PS_HW_SEC_INFO_OUT_OF_DATE: u16 = 0x0004;

/// Bit of `pse_evaluation_flags`: the signature revocation list of the
/// platform services hardware is out of date.
pub const SIGRL_VER_FROM_PS_HW_SIG_RLVER_OUT_OF_DATE: u16 = 0x0008;

/// Bit of `pse_evaluation_flags`: the private key revocation list of the
/// platform services hardware is out of date.
pub const PRIVRL_VER_FROM_PS_HW_PRV_KEY_RLVER_OUT_OF_DATE: u16 = 0x0010;

/// A platform security version number.
pub type tcb_psvn_t = [u8; PSVN_SIZE];

/// A security version number of the platform services driver.
pub type psda_svn_t = [u8; PSDA_SVN_SIZE];

/// A security version number of the platform services enclave.
pub type pse_isvsvn_t = [u8; ISVSVN_SIZE];

/// A signature over the platform info: the two coordinates of a point.
#[derive(Copy, Clone, Debug, PartialEq, Eq)]
pub struct sgx_ec256_signature_t {
    pub gx: [u8; 32],
    pub gy: [u8; 32],
}

/// What a platform info blob says, field by field.
#[derive(Copy, Clone, Debug, PartialEq, Eq)]
pub struct platform_info_blob {
    pub sgx_epid_group_flags: u8,
    pub sgx_tcb_evaluation_flags: u16,
    pub pse_evaluation_flags: u16,
    pub latest_equivalent_tcb_psvn: tcb_psvn_t,
    pub latest_pse_isvsvn: pse_isvsvn_t,
    pub latest_psda_svn: psda_svn_t,
    pub xeid: u32,
    pub gid: u32,
    pub signature: sgx_ec256_signature_t,
}

impl platform_info_blob {
    /// True when the fields hold what the 101 bytes `body` say. The fields
    /// follow one another without gaps, in the order of the struct. The
    /// attestation service writes the numbers among them (the two words of
    /// evaluation flags and the two group identifiers) with the most
    /// significant byte first; the other fields are byte strings.
    pub open spec fn describes(self, body: Seq<u8>) -> bool {
        &&& body.len() == SGX_PLATFORM_INFO_SIZE
        &&& self.sgx_epid_group_flags == body[0]
        &&& self.sgx_tcb_evaluation_flags as nat == be_value(body.subrange(1, 3))
        &&& self.pse_evaluation_flags as nat == be_value(body.subrange(3, 5))
        &&& self.latest_equivalent_tcb_psvn@ == body.subrange(5, 23)
        &&& self.latest_pse_isvsvn@ == body.subrange(23, 25)
        &&& self.latest_psda_svn@ == body.subrange(25, 29)
        &&& self.xeid as nat == be_value(body.subrange(29, 33))
        &&& self.gid as nat == be_value(body.subrange(33, 37))
        &&& self.signature.gx@ == body.subrange(37, 69)
        &&& self.signature.gy@ == body.subrange(69, 101)
    }
}

/// The bytes of a platform info say one thing: two decodings of the same
/// bytes are the same.
pub proof fn lemma_describes_one_blob(
    first: platform_info_blob,
    second: platform_info_blob,
    body: Seq<u8>,
)
    requires
        first.describes(body),
        second.describes(body),
    ensures
        first == second,
{
    assert(first.latest_equivalent_tcb_psvn =~= second.latest_equivalent_tcb_psvn);
    assert(first.latest_pse_isvsvn =~= second.latest_pse_isvsvn);
    assert(first.latest_psda_svn =~= second.latest_psda_svn);
    assert(first.signature.gx =~= second.signature.gx);
    assert(first.signature.gy =~= second.signature.gy);
}

/// The 101 bytes of a blob that follow its header.
pub open spec fn without_header(blob: Seq<u8>) -> Seq<u8> {
    blob.subrange(PLATFORM_INFO_HEADER_SIZE as int, blob.len() as int)
}

/// Names what `char::is_alphanumeric` says of a character from U+0080 on:
/// whether Unicode lists it as a letter or as a number.
pub uninterp spec fn unicode_alphanumeric(c: char) -> bool;

/// True for the letters `A` to `Z` and `a` to `z` and the digits `0` to `9`.
pub open spec fn is_ascii_alphanumeric(c: char) -> bool {
    ||| 0x30 <= c as u32 <= 0x39
    ||| 0x41 <= c as u32 <= 0x5A
    ||| 0x61 <= c as u32 <= 0x7A
}

/// True when the character is a letter or a number. Below U+0080 these are
/// the letters and digits of ASCII; from there on they are what Unicode
/// lists as such.
pub open spec fn is_alphanumeric(c: char) -> bool {
    if (c as u32) < 0x80 {
        is_ascii_alphanumeric(c)
    } else {
        unicode_alphanumeric(c)
    }
}

/// `char::is_alphanumeric`: whether the character is a letter or a number.
/// Below U+0080 that is so of the letters and digits of ASCII and of no
/// other character.
#[verifier::external_body]
fn char_is_alphanumeric(c: char) -> (yes: bool)
    ensures
        yes == if (c as u32) < 0x80 {
            is_ascii_alphanumeric(c)
        } else {
            unicode_alphanumeric(c)
        },
{
    c.is_alphanumeric()
}

/// True when `text` may be the hexadecimal form of a platform info blob: it
/// is 210 characters long and holds only letters and numbers.
pub open spec fn input_ok(text: Seq<char>) -> bool {
    &&& text.len() == PLATFORM_INFO_HEX_SIZE
    &&& forall|i: int| 0 <= i < text.len() ==> is_alphanumeric(#[trigger] text[i])
}

/// Hexadecimal digits are letters and numbers: a text of 210 characters
/// whose UTF-8 form is hexadecimal digits may be the form of a blob.
pub proof fn lemma_hex_digits_are_input_ok(text: Seq<char>)
    requires
        is_hex_text(encode_utf8(text)),
    ensures
        encode_utf8(text).len() == text.len(),
        text.len() == PLATFORM_INFO_HEX_SIZE ==> input_ok(text),
        forall|i: int| 0 <= i < text.len() ==> is_alphanumeric(#[trigger] text[i]),
{
    lemma_hex_text_is_ascii(text);
    assert forall|i: int| 0 <= i < text.len() implies is_alphanumeric(#[trigger] text[i]) by {
        assert(hex_digit_value(encode_utf8(text)[i]) is Some);
    }
}

/// Tells whether a string is 210 characters long and holds only letters and
/// numbers.
pub fn input_is_ok(argv1: &str) -> (ok: bool)
    ensures
        ok == input_ok(argv1@),
{
    let mut count: usize = 0;
    for c in it: argv1.chars()
        invariant
            it.seq() == argv1@,
            count == it.index() <= PLATFORM_INFO_HEX_SIZE,
            forall|j: int| 0 <= j < it.index() ==> is_alphanumeric(#[trigger] argv1@[j]),
    {
        if count == PLATFORM_INFO_HEX_SIZE || !char_is_alphanumeric(c) {
            return false;
        }
        count += 1;
    }
    count == PLATFORM_INFO_HEX_SIZE
}

/// Copies `N` bytes of `src`, starting at `at`, into an array.
fn copy_bytes<const N: usize>(src: &[u8], at: usize) -> (out: [u8; N])
    requires
        at + N <= src@.len(),
    ensures
        out@ == src@.subrange(at as int, at + N),
{
    let mut out: [u8; N] = [0u8; N];
    let len: usize = src.len();
    let mut i: usize = 0;
    while i < N
        invariant
            i <= N,
            at + N <= len == src@.len(),
            forall|j: int| 0 <= j < i ==> out@[j] == src@[at + j],
        decreases N - i,
    {
        out[i] = src[at + i];
        i += 1;
    }
    out
}

/// Reads the two bytes at `at` as a number, most significant byte first.
fn read_be_u16(src: &[u8], at: usize) -> (value: u16)
    requires
        at + 2 <= src@.len(),
    ensures
        value as nat == be_value(src@.subrange(at as int, at + 2)),
{
    let high: u16 = src[at] as u16;
    let low: u16 = src[at + 1] as u16;
    proof {
        lemma_be_value_two(src@[at as int], src@[at + 1]);
        assert(src@.subrange(at as int, at + 2) =~= seq![src@[at as int], src@[at + 1]]);
    }
    high * 256 + low
}

/// Reads the four bytes at `at` as a number, most significant byte first.
fn read_be_u32(src: &[u8], at: usize) -> (value: u32)
    requires
        at + 4 <= src@.len(),
    ensures
        value as nat == be_value(src@.subrange(at as int, at + 4)),
{
    let b0: u32 = src[at] as u32;
    let b1: u32 = src[at + 1] as u32;
    let b2: u32 = src[at + 2] as u32;
    let b3: u32 = src[at + 3] as u32;
    proof {
        lemma_be_value_four(src@[at as int], src@[at + 1], src@[at + 2], src@[at + 3]);
        assert(src@.subrange(at as int, at + 4) =~= seq![
            src@[at as int],
            src@[at + 1],
            src@[at + 2],
            src@[at + 3],
        ]);
    }
    ((b0 * 256 + b1) * 256 + b2) * 256 + b3
}

/// Decodes a platform info blob from its 105 bytes: a header of four bytes,
/// which is dropped, and the 101 bytes of the fields. A blob of any other
/// length is malformed.
pub fn convert_platform_info_blob(blob: &[u8]) -> (result: Result<
    platform_info_blob,
    ContractError,
>)
    ensures
        result is Ok <==> blob@.len() == PLATFORM_INFO_BLOB_SIZE,
        result matches Ok(pib) ==> pib.describes(without_header(blob@)),
        result matches Err(e) ==> e == ContractError::MalformedInput,
{
    if blob.len() != PLATFORM_INFO_BLOB_SIZE {
        return Err(ContractError::MalformedInput);
    }
    let body: &[u8] = slice_subrange(blob, PLATFORM_INFO_HEADER_SIZE, PLATFORM_INFO_BLOB_SIZE);
    let pib = platform_info_blob {
        sgx_epid_group_flags: body[0],
        sgx_tcb_evaluation_flags: read_be_u16(body, 1),
        pse_evaluation_flags: read_be_u16(body, 3),
        latest_equivalent_tcb_psvn: copy_bytes::<18>(body, 5),
        latest_pse_isvsvn: copy_bytes::<2>(body, 23),
        latest_psda_svn: copy_bytes::<4>(body, 25),
        xeid: read_be_u32(body, 29),
        gid: read_be_u32(body, 33),
        signature: sgx_ec256_signature_t {
            gx: copy_bytes::<32>(body, 37),
            gy: copy_bytes::<32>(body, 69),
        },
    };
    Ok(pib)
}

/// Decodes a platform info blob from its hexadecimal form: 210 letters and
/// numbers that are hexadecimal digits. Any other string is malformed.
pub fn convert_platform_info_hex(blob_hex: &str) -> (result: Result<
    platform_info_blob,
    ContractError,
>)
    ensures
        result is Ok <==> input_ok(blob_hex@) && is_hex_text(blob_hex.spec_bytes()),
        result is Ok <==> blob_hex@.len() == PLATFORM_INFO_HEX_SIZE && is_hex_text(
            blob_hex.spec_bytes(),
        ),
        result is Ok ==> blob_hex.spec_bytes().len() == PLATFORM_INFO_HEX_SIZE,
        result matches Ok(pib) ==> pib.describes(
            without_header(hex_decoded(blob_hex.spec_bytes())),
        ),
        result matches Err(e) ==> e == ContractError::MalformedInput,
{
    proof {
        if is_hex_text(blob_hex.spec_bytes()) {
            lemma_hex_digits_are_input_ok(blob_hex@);
        }
    }
    if !input_is_ok(blob_hex) {
        return Err(ContractError::MalformedInput);
    }
    match hex_decode(blob_hex.as_bytes()) {
        Ok(from_hex) => convert_platform_info_blob(from_hex.as_slice()),
        Err(_) => Err(ContractError::MalformedInput),
    }
}

/// What a quote body says, as far as the ledger reads it.
#[derive(Copy, Clone, Debug, PartialEq, Eq)]
pub struct QuoteBody {
    /// The identity of the enclave.
    pub mr_enclave: [u8; 32],
    /// The identity of the enclave's signer.
    pub mr_signer: [u8; 32],
    /// The payload that the enclave chose.
    pub report_data: [u8; 64],
}

impl QuoteBody {
    /// True when the fields hold what the 432 bytes `quote_body` say at the
    /// places of the three fields.
    pub open spec fn describes(self, quote_body: Seq<u8>) -> bool {
        &&& quote_body.len() == QUOTE_BODY_LENGTH
        &&& self.mr_enclave@ == quote_body.subrange(MRENCLAVE_OFFSET as int, MRENCLAVE_OFFSET + 32)
        &&& self.mr_signer@ == quote_body.subrange(MRSIGNER_OFFSET as int, MRSIGNER_OFFSET + 32)
        &&& self.report_data@ == quote_body.subrange(
            PAYLOAD_OFFSET as int,
            PAYLOAD_OFFSET + PAYLOAD_SIZE,
        )
    }
}

/// Decodes a quote body from its 432 bytes. A quote body of any other
/// length is malformed.
pub fn decode_quote_body(quote_body: &[u8]) -> (result: Result<QuoteBody, ContractError>)
    ensures
        result is Ok <==> quote_body@.len() == QUOTE_BODY_LENGTH,
        result matches Ok(quote) ==> quote.describes(quote_body@),
        result matches Ok(quote) ==> quote.report_data@.subrange(0, PAYLOAD_HASH_SIZE as int)
            == payload_hash(quote_body@),
        result matches Err(e) ==> e == ContractError::MalformedInput,
{
    if quote_body.len() != QUOTE_BODY_LENGTH {
        return Err(ContractError::MalformedInput);
    }
    let quote = QuoteBody {
        mr_enclave: copy_bytes::<32>(quote_body, MRENCLAVE_OFFSET),
        mr_signer: copy_bytes::<32>(quote_body, MRSIGNER_OFFSET),
        report_data: copy_bytes::<64>(quote_body, PAYLOAD_OFFSET),
    };
    assert(quote.report_data@.subrange(0, PAYLOAD_HASH_SIZE as int) =~= payload_hash(quote_body@));
    Ok(quote)
}

/// The digest that a quote body of 432 bytes carries: the first 32 bytes of
/// its payload, which starts at offset 368.
pub open spec fn payload_hash(quote_body: Seq<u8>) -> Seq<u8> {
    quote_body.subrange(PAYLOAD_OFFSET as int, PAYLOAD_OFFSET + PAYLOAD_HASH_SIZE)
}

/// Extracts from a quote body the digest that its payload starts with. A
/// quote body is 432 bytes long; one of any other length is malformed.
pub fn get_payload_from_quote_body(quote_body: &[u8]) -> (result: Result<Vec<u8>, ContractError>)
    ensures
        result is Ok <==> quote_body@.len() == QUOTE_BODY_LENGTH,
        result matches Ok(payload) ==> payload@ == payload_hash(quote_body@),
        result matches Err(e) ==> e == ContractError::MalformedInput,
{
    if quote_body.len() != QUOTE_BODY_LENGTH {
        return Err(ContractError::MalformedInput);
    }
    let payload: &[u8] = slice_subrange(quote_body, PAYLOAD_OFFSET, PAYLOAD_OFFSET + PAYLOAD_SIZE);
    let hash: &[u8] = slice_subrange(payload, 0, PAYLOAD_HASH_SIZE);
    Ok(vstd::slice::slice_to_vec(hash))
}

/// The digest that an enclave puts into its quote for a claim: the SHA-256
/// digest of the claim's canonical form.
pub fn convert_claim_struct_to_payload(claim_struct: ClaimStruct) -> (payload: Vec<u8>)
    ensures
        payload@ == sha256_digest(claim_struct.canonical_bytes()),
        payload@.len() == SHA256_SIZE,
{
    let claim_json_bytes = claim_struct.canonicalize();
    sha256(claim_json_bytes.as_slice())
}

} // verus!
