use geid_rewards::base64text::{decode_base64, encode_base64};
use geid_rewards::contract::check_claim_against_quote;
use geid_rewards::error::ContractError;
use geid_rewards::intelstructs::ClaimStruct;
use geid_rewards::platforminfoblob::{
    convert_claim_struct_to_payload, decode_quote_body, get_payload_from_quote_body,
    MRENCLAVE_OFFSET, MRSIGNER_OFFSET, PAYLOAD_OFFSET, PAYLOAD_SIZE, QUOTE_BODY_LENGTH,
};

const IAS_RESPONSE: &str = r#"{"report":{"id":"200423264892184291776794534127952959503","timestamp":"2023-11-23T11:47:05.757595","version":4,"epidPseudonym":"+CUyIi74LPqS6M0NF7YrSxLqPdX3MKs6D6LIPqRG/ZEB4WmxZVvxAJwdwg/0m9cYnUUQguLnJotthX645lAogfJgO8Xg5/91lSegwyUKvHmKgtjOHX/YTbVe/wmgWiBdaL+KmarY0Je459Px/FqGLWLsAF7egPAJRd1Xn88Znrs=","advisoryURL":"https://security-center.intel.com","advisoryIDs":["INTEL-SA-00161","INTEL-SA-00219","INTEL-SA-00289","INTEL-SA-00334","INTEL-SA-00615"],"isvEnclaveQuoteStatus":"CONFIGURATION_AND_SW_HARDENING_NEEDED","platformInfoBlob":"150200650000080000141402040180070000000000000000000D00000C000000020000000000000CB07FA713992F17617F506072BA90D3794110D036E2293096E6BF758122D4E6BB68EE3F69B49BA232441025B331F3FA6E6AD1E70E5D8892E5F6565E5C9FCE9B2A24","isvEnclaveQuoteBody":"AgABALAMAAAPAA8AAAAAAFHK9aSLRQ1iSu/jKG0xSJQAAAAAAAAAAAAAAAAAAAAAFBQCBwGAAQAAAAAAAAAAAAAAAAAAAAAAAAAAAAAAAAAAAAAAAAAAAAAAAAAAAAAABQAAAAAAAAAHAAAAAAAAAOPC8qW4QNieBprK/8rbZRDvhmpz06nuVxAO1fhkbuS7AAAAAAAAAAAAAAAAAAAAAAAAAAAAAAAAAAAAAAAAAAAc8uUpEUEPvz8ZkFapjVh5WlWaLoAJM/f80T0EhGInHAAAAAAAAAAAAAAAAAAAAAAAAAAAAAAAAAAAAAAAAAAAAAAAAAAAAAAAAAAAAAAAAAAAAAAAAAAAAAAAAAAAAAAAAAAAAAAAAAAAAAAAAAAAAAAAAAAAAAAAAAAAAAAAAAAAAAAAAAAAAAAAAAAAAAAAAAAAAAAAAAAAAAAAAAAAAAAAAAAAAAAAAAAAAAAAAAAAAAAAAAAAAAAAAAAAAAC9zI5dTO9V43CN3I5/OaESDnWs8hiIOaCM/QJA3Uk5oQAAAAAAAAAAAAAAAAAAAAAAAAAAAAAAAAAAAAAAAAAA"},"reportsig":"VEd3XgpDOEeRzHpKDx61yBUr4t74Z/kQztmOFM4nkaF+muCZe2KoMd1men4R6fYJh4U1DHnrI0U/zym0N4g6olLBfQ1otxb67LV7N1ekSLQtaJw+iQxNfkrqzNSnle3eKi08GAWVIrMRFC0UooCMuUyZoIGXBsjLZ/Jq1dldus2LUBGM5KHhxhAUbbxAdrcc6NO211S3DRAAYkQYkoHMgLZwWm73TS9LLCT/8pFvkiTUXbHyHpVhnbGB9jnkMd6y22iFQrIiQ+LZKcHCuvD5I07oPQqCezCq/rMMCR/6WAcumapLScNm5zndIeWnN8KE+8EG698eCw3GTONiXoE4hw=="}"#;

fn sample_quote_body() -> Vec<u8> {
    let report: serde_json::Value = serde_json::from_str(IAS_RESPONSE).unwrap();
    let encoded = report["report"]["isvEnclaveQuoteBody"].as_str().unwrap();
    decode_base64(encoded).unwrap()
}

fn sample_claim() -> ClaimStruct {
    ClaimStruct {
        address: Vec::from([
            31, 3, 24, 28, 4, 10, 7, 8, 19, 25, 4, 12, 13, 22, 1, 12, 28, 24, 30, 9, 12, 8, 26, 7,
            5, 28, 26, 25, 6, 1, 24, 15,
        ]),
        message: "Hello world!".to_string(),
    }
}

#[test]
#[allow(non_snake_case)]
fn verify_isvQuoteBodyPayload() {
    let ias_response = IAS_RESPONSE;

    let report: serde_json::Value = serde_json::from_str(ias_response).unwrap();

    let quote_body_binary = report["report"]["isvEnclaveQuoteBody"].as_str().unwrap();
    let quote_body_slice = decode_base64(quote_body_binary).unwrap();

    // Lets make sure that the quote body is the correct length
    assert_eq!(quote_body_slice.len(), QUOTE_BODY_LENGTH);

    // Lets extract the MRENCLAVE
    let MRENCLAVE = &quote_body_slice[MRENCLAVE_OFFSET..MRENCLAVE_OFFSET + 32];

    let mrsigner = &quote_body_slice[MRSIGNER_OFFSET..MRSIGNER_OFFSET + 32];

    let payload = &quote_body_slice[PAYLOAD_OFFSET..PAYLOAD_OFFSET + PAYLOAD_SIZE];

    let claim = ClaimStruct {
        address: Vec::from([
            31, 3, 24, 28, 4, 10, 7, 8, 19, 25, 4, 12, 13, 22, 1, 12, 28, 24, 30, 9, 12, 8, 26, 7,
            5, 28, 26, 25, 6, 1, 24, 15,
        ]),
        message: "Hello world!".to_string(),
    };

    let claim_json_bytes = claim.canonicalize();

    println!("{:?}", claim_json_bytes);

    let sha256d_claim = convert_claim_struct_to_payload(claim);

    let payload_vec = Vec::from(payload);
    let spliced_vec = payload_vec.split_at(32).0;

    println!("Payload {:?} | Sha256'd Claim {:?}", spliced_vec, sha256d_claim);

    assert_eq!(spliced_vec, sha256d_claim);
    assert_eq!(get_payload_from_quote_body(&quote_body_slice).unwrap(), sha256d_claim);
    assert_eq!(MRENCLAVE.len(), 32);
    assert_eq!(mrsigner.len(), 32);
}

#[test]
fn payload_is_the_first_half_of_the_field_at_368() {
    let quote_body = sample_quote_body();
    let payload = get_payload_from_quote_body(&quote_body).unwrap();
    assert_eq!(payload, quote_body[368..400].to_vec());
    assert_eq!(payload, vec![189, 204, 142, 93, 76, 239, 85, 227, 112, 141, 220, 142, 127, 57, 161, 18, 14, 117, 172, 242, 24, 136, 57, 160, 140, 253, 2, 64, 221, 73, 57, 161]);
    assert_eq!(&quote_body[400..432], &[0u8; 32]);
}

#[test]
fn payload_of_a_counting_quote_body() {
    let quote_body: Vec<u8> = (0..432u32).map(|i| (i % 251) as u8).collect();
    let expected: Vec<u8> = (368..400u32).map(|i| (i % 251) as u8).collect();
    assert_eq!(get_payload_from_quote_body(&quote_body), Ok(expected));
}

#[test]
fn quote_body_fields_stand_at_their_offsets() {
    let quote_body: Vec<u8> = (0..432u32).map(|i| (i % 251) as u8).collect();
    let quote = decode_quote_body(&quote_body).unwrap();
    assert_eq!(quote.mr_enclave.to_vec(), quote_body[112..144].to_vec());
    assert_eq!(quote.mr_signer.to_vec(), quote_body[176..208].to_vec());
    assert_eq!(quote.report_data.to_vec(), quote_body[368..432].to_vec());
    assert_eq!(quote.mr_enclave[0], 112);
    assert_eq!(quote.mr_signer[0], 176);
    assert_eq!(quote.report_data[0], (368 % 251) as u8);
    assert_eq!(quote.report_data[63], (431 % 251) as u8);
}

#[test]
fn sample_quote_body_names_enclave_and_signer() {
    let quote = decode_quote_body(&sample_quote_body()).unwrap();
    assert_eq!(
        hex::encode(quote.mr_enclave),
        "e3c2f2a5b840d89e069acaffcadb6510ef866a73d3a9ee57100ed5f8646ee4bb"
    );
    assert_eq!(
        hex::encode(quote.mr_signer),
        "1cf2e52911410fbf3f199056a98d58795a559a2e800933f7fcd13d048462271c"
    );
    assert_eq!(
        Ok(quote.report_data[..32].to_vec()),
        get_payload_from_quote_body(&sample_quote_body())
    );
    assert_eq!(&quote.report_data[32..], &[0u8; 32]);
}

#[test]
fn quote_body_of_wrong_length_does_not_decode() {
    let quote_body = sample_quote_body();
    assert_eq!(decode_quote_body(&quote_body[..431]), Err(ContractError::MalformedInput));
    assert_eq!(decode_quote_body(&[]), Err(ContractError::MalformedInput));
}

#[test]
fn quote_body_of_wrong_length_is_malformed() {
    let quote_body = sample_quote_body();
    assert_eq!(get_payload_from_quote_body(&quote_body[..431]), Err(ContractError::MalformedInput));
    assert_eq!(get_payload_from_quote_body(&quote_body[..400]), Err(ContractError::MalformedInput));
    assert_eq!(get_payload_from_quote_body(&[]), Err(ContractError::MalformedInput));
    let mut longer = quote_body.clone();
    longer.push(0);
    assert_eq!(get_payload_from_quote_body(&longer), Err(ContractError::MalformedInput));
}

#[test]
fn sample_claim_hashes_to_the_sample_payload() {
    let digest = convert_claim_struct_to_payload(sample_claim());
    assert_eq!(digest.len(), 32);
    assert_eq!(digest, vec![189, 204, 142, 93, 76, 239, 85, 227, 112, 141, 220, 142, 127, 57, 161, 18, 14, 117, 172, 242, 24, 136, 57, 160, 140, 253, 2, 64, 221, 73, 57, 161]);
    assert_eq!(Ok(digest), get_payload_from_quote_body(&sample_quote_body()));
}

#[test]
fn another_claim_hashes_to_another_payload() {
    let mut claim = sample_claim();
    claim.message = "Hello world?".to_string();
    let digest = convert_claim_struct_to_payload(claim);
    assert_ne!(Ok(digest), get_payload_from_quote_body(&sample_quote_body()));
}

#[test]
fn claim_is_held_against_the_quote() {
    let quote_body = sample_quote_body();
    let digest = convert_claim_struct_to_payload(sample_claim());
    assert_eq!(check_claim_against_quote(&quote_body, &digest), Ok(()));
    let mut other = digest.clone();
    other[31] ^= 1;
    assert_eq!(check_claim_against_quote(&quote_body, &other), Err(ContractError::ClaimMismatch));
    assert_eq!(
        check_claim_against_quote(&quote_body, &digest[..31]),
        Err(ContractError::ClaimMismatch)
    );
    assert_eq!(
        check_claim_against_quote(&quote_body[..431], &digest),
        Err(ContractError::MalformedInput)
    );
}

#[test]
fn bytes_are_written_in_base64_with_padding() {
    assert_eq!(encode_base64(&[]), "");
    assert_eq!(encode_base64(&[1]), "AQ==");
    assert_eq!(encode_base64(&[1, 2]), "AQI=");
    assert_eq!(encode_base64(&[1, 2, 3]), "AQID");
    assert_eq!(encode_base64(&[0xfb, 0xff, 0xfe]), "+//+");
    let quote_body = sample_quote_body();
    assert_eq!(decode_base64(&encode_base64(&quote_body)), Ok(quote_body));
}

#[test]
fn base64_that_is_none_is_malformed() {
    assert_eq!(decode_base64("AQID"), Ok(vec![1, 2, 3]));
    assert_eq!(decode_base64("AQI="), Ok(vec![1, 2]));
    assert_eq!(decode_base64("AQI"), Ok(vec![1, 2]));
    assert_eq!(decode_base64(""), Ok(vec![]));
    assert_eq!(decode_base64("A?ID"), Err(ContractError::MalformedInput));
    assert_eq!(decode_base64("A"), Err(ContractError::MalformedInput));
}
