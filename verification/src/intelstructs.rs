//! The attestation report as the attestation service words it, the claim
//! that a caller submits with it, and the public key that reports are held
//! against.

use crate::base64text::{base64_encoded, encode_base64};
use crate::bigendian::{
    be_bytes, be_value, lemma_be_bytes_len, lemma_be_bytes_spells, lemma_be_value_bound,
};
use crate::canonical::{
    decimal, joined_decimals, joined_strings, json_string, push_bytes, push_decimal,
    push_joined_decimals, push_json_string, push_text, strip_backslashes, without_backslashes,
    BACKSLASH, COMMA,
};
use num_bigint::BigUint;
use vstd::arithmetic::power::pow;
use vstd::prelude::*;
use vstd::string::StringSliceAdditionalSpecFns;
use vstd::utf8::encode_utf8;

verus! {

/// Length of the modulus of the attestation service's root key.
pub const INTEL_ROOT_MODULUS_SIZE: usize = 384;

/// The modulus of the attestation service's root key, most significant byte
/// first.
pub const INTEL_ROOT_MODULUS: [u8; 384] = [
    0x9F, 0x3C, 0x64, 0x7E, 0xB5, 0x77, 0x3C, 0xBB, 0x51, 0x2D, 0x27, 0x32,
    0xC0, 0xD7, 0x41, 0x5E, 0xBB, 0x55, 0xA0, 0xFA, 0x9E, 0xDE, 0x2E, 0x64,
    0x91, 0x99, 0xE6, 0x82, 0x1D, 0xB9, 0x10, 0xD5, 0x31, 0x77, 0x37, 0x09,
    0x77, 0x46, 0x6A, 0x6A, 0x5E, 0x47, 0x86, 0xCC, 0xD2, 0xDD, 0xEB, 0xD4,
    0x14, 0x9D, 0x6A, 0x2F, 0x63, 0x25, 0x52, 0x9D, 0xD1, 0x0C, 0xC9, 0x87,
    0x37, 0xB0, 0x77, 0x9C, 0x1A, 0x07, 0xE2, 0x9C, 0x47, 0xA1, 0xAE, 0x00,
    0x49, 0x48, 0x47, 0x6C, 0x48, 0x9F, 0x45, 0xA5, 0xA1, 0x5D, 0x7A, 0xC8,
    0xEC, 0xC6, 0xAC, 0xC6, 0x45, 0xAD, 0xB4, 0x3D, 0x87, 0x67, 0x9D, 0xF5,
    0x9C, 0x09, 0x3B, 0xC5, 0xA2, 0xE9, 0x69, 0x6C, 0x54, 0x78, 0x54, 0x1B,
    0x97, 0x9E, 0x75, 0x4B, 0x57, 0x39, 0x14, 0xBE, 0x55, 0xD3, 0x2F, 0xF4,
    0xC0, 0x9D, 0xDF, 0x27, 0x21, 0x99, 0x34, 0xCD, 0x99, 0x05, 0x27, 0xB3,
    0xF9, 0x2E, 0xD7, 0x8F, 0xBF, 0x29, 0x24, 0x6A, 0xBE, 0xCB, 0x71, 0x24,
    0x0E, 0xF3, 0x9C, 0x2D, 0x71, 0x07, 0xB4, 0x47, 0x54, 0x5A, 0x7F, 0xFB,
    0x10, 0xEB, 0x06, 0x0A, 0x68, 0xA9, 0x85, 0x80, 0x21, 0x9E, 0x36, 0x91,
    0x09, 0x52, 0x68, 0x38, 0x92, 0xD6, 0xA5, 0xE2, 0xA8, 0x08, 0x03, 0x19,
    0x3E, 0x40, 0x75, 0x31, 0x40, 0x4E, 0x36, 0xB3, 0x15, 0x62, 0x37, 0x99,
    0xAA, 0x82, 0x50, 0x74, 0x40, 0x97, 0x54, 0xA2, 0xDF, 0xE8, 0xF5, 0xAF,
    0xD5, 0xFE, 0x63, 0x1E, 0x1F, 0xC2, 0xAF, 0x38, 0x08, 0x90, 0x6F, 0x28,
    0xA7, 0x90, 0xD9, 0xDD, 0x9F, 0xE0, 0x60, 0x93, 0x9B, 0x12, 0x57, 0x90,
    0xC5, 0x80, 0x5D, 0x03, 0x7D, 0xF5, 0x6A, 0x99, 0x53, 0x1B, 0x96, 0xDE,
    0x69, 0xDE, 0x33, 0xED, 0x22, 0x6C, 0xC1, 0x20, 0x7D, 0x10, 0x42, 0xB5,
    0xC9, 0xAB, 0x7F, 0x40, 0x4F, 0xC7, 0x11, 0xC0, 0xFE, 0x47, 0x69, 0xFB,
    0x95, 0x78, 0xB1, 0xDC, 0x0E, 0xC4, 0x69, 0xEA, 0x1A, 0x25, 0xE0, 0xFF,
    0x99, 0x14, 0x88, 0x6E, 0xF2, 0x69, 0x9B, 0x23, 0x5B, 0xB4, 0x84, 0x7D,
    0xD6, 0xFF, 0x40, 0xB6, 0x06, 0xE6, 0x17, 0x07, 0x93, 0xC2, 0xFB, 0x98,
    0xB3, 0x14, 0x58, 0x7F, 0x9C, 0xFD, 0x25, 0x73, 0x62, 0xDF, 0xEA, 0xB1,
    0x0B, 0x3B, 0xD2, 0xD9, 0x76, 0x73, 0xA1, 0xA4, 0xBD, 0x44, 0xC4, 0x53,
    0xAA, 0xF4, 0x7F, 0xC1, 0xF2, 0xD3, 0xD0, 0xF3, 0x84, 0xF7, 0x4A, 0x06,
    0xF8, 0x9C, 0x08, 0x9F, 0x0D, 0xA6, 0xCD, 0xB7, 0xFC, 0xEE, 0xE8, 0xC9,
    0x82, 0x1A, 0x8E, 0x54, 0xF2, 0x5C, 0x04, 0x16, 0xD1, 0x8C, 0x46, 0x83,
    0x9A, 0x5F, 0x80, 0x12, 0xFB, 0xDD, 0x3D, 0xC7, 0x4D, 0x25, 0x62, 0x79,
    0xAD, 0xC2, 0xC0, 0xD5, 0x5A, 0xFF, 0x6F, 0x06, 0x22, 0x42, 0x5D, 0x1B,
];

/// The public exponent of the attestation service's root key, 65537, most
/// significant byte first.
pub const INTEL_ROOT_EXPONENT: [u8; 3] = [0x01, 0x00, 0x01];

/// The root key's modulus is not zero.
pub proof fn lemma_intel_root_modulus_is_not_zero()
    ensures
        be_value(INTEL_ROOT_MODULUS@) != 0,
{
}

/// The body of an attestation report, field by field, as the attestation
/// service sends it.
#[derive(Clone, Debug, PartialEq, Eq)]
pub struct ReportBody {
    pub id: String,
    pub timestamp: String,
    pub version: u64,
    /// The pseudonym of the platform. It is sent in base64.
    pub epid_pseudonym: Vec<u8>,
    pub advisory_url: String,
    pub advisory_ids: Vec<String>,
    pub isv_enclave_quote_status: String,
    /// The platform info blob, in hexadecimal.
    pub platform_info_blob: String,
    /// The quote body, in base64.
    pub isv_enclave_quote_body: String,
}

/// An attestation report: its body and the signature over it, in base64.
#[derive(Clone, Debug, PartialEq, Eq)]
pub struct IASReport {
    pub report: ReportBody,
    pub report_sig: String,
}

/// What a caller claims: an address and a message. The enclave has put the
/// digest of this claim into the payload of its quote.
#[derive(Clone, Debug, PartialEq, Eq)]
pub struct ClaimStruct {
    pub address: Vec<u8>,
    pub message: String,
}

/// A string of characters as a JSON string.
pub open spec fn json_text(text: Seq<char>) -> Seq<u8> {
    json_string(encode_utf8(text))
}

/// The bytes of each string, in UTF-8.
pub open spec fn utf8_of_each(items: Seq<String>) -> Seq<Seq<u8>> {
    items.map_values(|item: String| encode_utf8(item@))
}

/// Appends the JSON strings of the items, separated by commas.
fn push_joined_strings(out: &mut Vec<u8>, items: &Vec<String>)
    ensures
        final(out)@ == old(out)@ + joined_strings(utf8_of_each(items@)),
{
    let ghost all = utf8_of_each(items@);
    let mut i: usize = 0;
    while i < items.len()
        invariant
            i <= items.len(),
            all == utf8_of_each(items@),
            out@ == old(out)@ + joined_strings(all.take(i as int)),
        decreases items.len() - i,
    {
        if i > 0 {
            out.push(COMMA);
        }
        push_json_string(out, items[i].as_str().as_bytes());
        i += 1;
        assert(all.take(i as int).drop_last() =~= all.take(i - 1));
    }
    assert(all.take(all.len() as int) =~= all);
}

impl ClaimStruct {
    /// The claim as compact JSON: the address as a list of numbers, then the
    /// message as a string.
    pub open spec fn json(&self) -> Seq<u8> {
        "{\"address\":[".spec_bytes() + joined_decimals(self.address@)
            + "],\"message\":".spec_bytes() + json_text(self.message@)
            + "}".spec_bytes()
    }

    /// The canonical form of the claim: its JSON with every backslash
    /// deleted. This is the text that is hashed.
    pub open spec fn canonical_bytes(&self) -> Seq<u8> {
        without_backslashes(self.json())
    }

    /// Writes the claim as compact JSON.
    pub fn to_json(&self) -> (text: Vec<u8>)
        ensures
            text@ == self.json(),
    {
        let mut text: Vec<u8> = Vec::new();
        push_text(&mut text, "{\"address\":[");
        push_joined_decimals(&mut text, self.address.as_slice());
        push_text(&mut text, "],\"message\":");
        push_json_string(&mut text, self.message.as_str().as_bytes());
        push_text(&mut text, "}");
        text
    }

    /// Writes the canonical form of the claim.
    pub fn canonicalize(&self) -> (text: Vec<u8>)
        ensures
            text@ == self.canonical_bytes(),
    {
        let json = self.to_json();
        strip_backslashes(json.as_slice())
    }
}

/// The canonical form of a claim holds no backslash.
pub proof fn lemma_canonical_form_holds_no_backslash(claim: ClaimStruct)
    ensures
        forall|i: int|
            0 <= i < claim.canonical_bytes().len() ==> #[trigger] claim.canonical_bytes()[i]
                != BACKSLASH,
{
}

impl ReportBody {
    /// The body as the attestation service words it: compact JSON with the
    /// service's names for the fields, in the service's order.
    pub open spec fn wire_bytes(&self) -> Seq<u8> {
        "{\"id\":".spec_bytes() + json_text(self.id@)
            + ",\"timestamp\":".spec_bytes() + json_text(self.timestamp@)
            + ",\"version\":".spec_bytes() + decimal(self.version as nat)
            + ",\"epidPseudonym\":".spec_bytes() + json_text(base64_encoded(self.epid_pseudonym@))
            + ",\"advisoryURL\":".spec_bytes() + json_text(self.advisory_url@)
            + ",\"advisoryIDs\":[".spec_bytes() + joined_strings(utf8_of_each(self.advisory_ids@))
            + "],\"isvEnclaveQuoteStatus\":".spec_bytes()
            + json_text(self.isv_enclave_quote_status@)
            + ",\"platformInfoBlob\":".spec_bytes() + json_text(self.platform_info_blob@)
            + ",\"isvEnclaveQuoteBody\":".spec_bytes() + json_text(self.isv_enclave_quote_body@)
            + "}".spec_bytes()
    }

    /// Writes the body as the attestation service words it.
    pub fn to_wire_bytes(&self) -> (text: Vec<u8>)
        ensures
            text@ == self.wire_bytes(),
    {
        let mut text: Vec<u8> = Vec::new();
        push_text(&mut text, "{\"id\":");
        push_json_string(&mut text, self.id.as_str().as_bytes());
        push_text(&mut text, ",\"timestamp\":");
        push_json_string(&mut text, self.timestamp.as_str().as_bytes());
        push_text(&mut text, ",\"version\":");
        push_decimal(&mut text, self.version);
        push_text(&mut text, ",\"epidPseudonym\":");
        let pseudonym: String = encode_base64(self.epid_pseudonym.as_slice());
        push_json_string(&mut text, pseudonym.as_str().as_bytes());
        push_text(&mut text, ",\"advisoryURL\":");
        push_json_string(&mut text, self.advisory_url.as_str().as_bytes());
        push_text(&mut text, ",\"advisoryIDs\":[");
        push_joined_strings(&mut text, &self.advisory_ids);
        push_text(&mut text, "],\"isvEnclaveQuoteStatus\":");
        push_json_string(&mut text, self.isv_enclave_quote_status.as_str().as_bytes());
        push_text(&mut text, ",\"platformInfoBlob\":");
        push_json_string(&mut text, self.platform_info_blob.as_str().as_bytes());
        push_text(&mut text, ",\"isvEnclaveQuoteBody\":");
        push_json_string(&mut text, self.isv_enclave_quote_body.as_str().as_bytes());
        push_text(&mut text, "}");
        text
    }
}

impl IASReport {
    /// The report as the attestation service words it: the body and the
    /// signature, under the service's names for them.
    pub open spec fn wire_bytes(&self) -> Seq<u8> {
        "{\"report\":".spec_bytes() + self.report.wire_bytes()
            + ",\"reportsig\":".spec_bytes() + json_text(self.report_sig@)
            + "}".spec_bytes()
    }

    /// Writes the report as the attestation service words it.
    pub fn to_wire_bytes(&self) -> (text: Vec<u8>)
        ensures
            text@ == self.wire_bytes(),
    {
        let mut text: Vec<u8> = Vec::new();
        push_text(&mut text, "{\"report\":");
        let body: Vec<u8> = self.report.to_wire_bytes();
        push_bytes(&mut text, body.as_slice());
        push_text(&mut text, ",\"reportsig\":");
        push_json_string(&mut text, self.report_sig.as_str().as_bytes());
        push_text(&mut text, "}");
        text
    }
}

/// `base` to the power of `exponent`, reduced modulo `modulus`.
pub open spec fn mod_exp(base: nat, exponent: nat, modulus: nat) -> nat {
    (pow(base as int, exponent) % (modulus as int)) as nat
}

/// The digest that a signature holds under a public key: the signature to
/// the power of the exponent, modulo the modulus, written in as few bytes as
/// it takes. All three inputs are read most significant byte first.
pub open spec fn recovered_digest(signature: Seq<u8>, exponent: Seq<u8>, modulus: Seq<u8>) -> Seq<
    u8,
> {
    be_bytes(mod_exp(be_value(signature), be_value(exponent), be_value(modulus)))
}

/// The recovered digest spells the power, reduced: a number below the
/// modulus, written without leading zero bytes (zero itself as one zero
/// byte) and in no more bytes than the modulus has.
pub proof fn lemma_recovered_digest_is_reduced(
    signature: Seq<u8>,
    exponent: Seq<u8>,
    modulus: Seq<u8>,
)
    requires
        be_value(modulus) != 0,
    ensures
        be_value(recovered_digest(signature, exponent, modulus)) == mod_exp(
            be_value(signature),
            be_value(exponent),
            be_value(modulus),
        ),
        be_value(recovered_digest(signature, exponent, modulus)) < be_value(modulus),
        1 <= recovered_digest(signature, exponent, modulus).len() <= modulus.len(),
        recovered_digest(signature, exponent, modulus).len() > 1 ==> recovered_digest(
            signature,
            exponent,
            modulus,
        )[0] != 0,
{
    let m = be_value(modulus) as int;
    let power = pow(be_value(signature) as int, be_value(exponent));
    assert(0 <= power % m < m) by (nonlinear_arith)
        requires
            m > 0,
    ;
    let reduced = mod_exp(be_value(signature), be_value(exponent), be_value(modulus));
    lemma_be_bytes_spells(reduced);
    lemma_be_value_bound(modulus);
    lemma_be_bytes_len(reduced, modulus.len());
}

/// `num_bigint::BigUint::modpow`, on numbers that `BigUint::from_bytes_be`
/// reads and with a result that `BigUint::to_bytes_be` writes: the power of
/// the base, modulo the modulus, in as few bytes as it takes and at least
/// one. The outside function panics on a modulus of zero.
#[verifier::external_body]
fn biguint_modpow(base: &[u8], exponent: &[u8], modulus: &[u8]) -> (power: Vec<u8>)
    requires
        be_value(modulus@) != 0,
    ensures
        power@ == recovered_digest(base@, exponent@, modulus@),
{
    let b = BigUint::from_bytes_be(base);
    let e = BigUint::from_bytes_be(exponent);
    let m = BigUint::from_bytes_be(modulus);
    b.modpow(&e, &m).to_bytes_be()
}

/// Recovers the digest that an RSA signature was made over, given the
/// signer's public exponent and modulus. No padding is looked for or taken
/// off: the result is the bare power. The modulus must not be zero.
pub fn recover_signature_digest(signature: &[u8], exponent: &[u8], modulus: &[u8]) -> (digest: Vec<
    u8,
>)
    requires
        be_value(modulus@) != 0,
    ensures
        digest@ == recovered_digest(signature@, exponent@, modulus@),
{
    biguint_modpow(signature, exponent, modulus)
}

} // verus!
