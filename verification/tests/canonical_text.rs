use geid_rewards::canonical::{
    push_decimal, push_escaped, push_joined_decimals, push_json_string, strip_backslashes,
};
use geid_rewards::hash::SHA256_SIZE;
use geid_rewards::intelstructs::{ClaimStruct, IASReport, ReportBody};
use geid_rewards::platforminfoblob::convert_claim_struct_to_payload;

const IAS_RESPONSE: &str = r#"{"report":{"id":"200423264892184291776794534127952959503","timestamp":"2023-11-23T11:47:05.757595","version":4,"epidPseudonym":"+CUyIi74LPqS6M0NF7YrSxLqPdX3MKs6D6LIPqRG/ZEB4WmxZVvxAJwdwg/0m9cYnUUQguLnJotthX645lAogfJgO8Xg5/91lSegwyUKvHmKgtjOHX/YTbVe/wmgWiBdaL+KmarY0Je459Px/FqGLWLsAF7egPAJRd1Xn88Znrs=","advisoryURL":"https://security-center.intel.com","advisoryIDs":["INTEL-SA-00161","INTEL-SA-00219","INTEL-SA-00289","INTEL-SA-00334","INTEL-SA-00615"],"isvEnclaveQuoteStatus":"CONFIGURATION_AND_SW_HARDENING_NEEDED","platformInfoBlob":"150200650000080000141402040180070000000000000000000D00000C000000020000000000000CB07FA713992F17617F506072BA90D3794110D036E2293096E6BF758122D4E6BB68EE3F69B49BA232441025B331F3FA6E6AD1E70E5D8892E5F6565E5C9FCE9B2A24","isvEnclaveQuoteBody":"AgABALAMAAAPAA8AAAAAAFHK9aSLRQ1iSu/jKG0xSJQAAAAAAAAAAAAAAAAAAAAAFBQCBwGAAQAAAAAAAAAAAAAAAAAAAAAAAAAAAAAAAAAAAAAAAAAAAAAAAAAAAAAABQAAAAAAAAAHAAAAAAAAAOPC8qW4QNieBprK/8rbZRDvhmpz06nuVxAO1fhkbuS7AAAAAAAAAAAAAAAAAAAAAAAAAAAAAAAAAAAAAAAAAAAc8uUpEUEPvz8ZkFapjVh5WlWaLoAJM/f80T0EhGInHAAAAAAAAAAAAAAAAAAAAAAAAAAAAAAAAAAAAAAAAAAAAAAAAAAAAAAAAAAAAAAAAAAAAAAAAAAAAAAAAAAAAAAAAAAAAAAAAAAAAAAAAAAAAAAAAAAAAAAAAAAAAAAAAAAAAAAAAAAAAAAAAAAAAAAAAAAAAAAAAAAAAAAAAAAAAAAAAAAAAAAAAAAAAAAAAAAAAAAAAAAAAAAAAAAAAAC9zI5dTO9V43CN3I5/OaESDnWs8hiIOaCM/QJA3Uk5oQAAAAAAAAAAAAAAAAAAAAAAAAAAAAAAAAAAAAAAAAAA"},"reportsig":"VEd3XgpDOEeRzHpKDx61yBUr4t74Z/kQztmOFM4nkaF+muCZe2KoMd1men4R6fYJh4U1DHnrI0U/zym0N4g6olLBfQ1otxb67LV7N1ekSLQtaJw+iQxNfkrqzNSnle3eKi08GAWVIrMRFC0UooCMuUyZoIGXBsjLZ/Jq1dldus2LUBGM5KHhxhAUbbxAdrcc6NO211S3DRAAYkQYkoHMgLZwWm73TS9LLCT/8pFvkiTUXbHyHpVhnbGB9jnkMd6y22iFQrIiQ+LZKcHCuvD5I07oPQqCezCq/rMMCR/6WAcumapLScNm5zndIeWnN8KE+8EG698eCw3GTONiXoE4hw=="}"#;

fn sample_report_body() -> ReportBody {
    ReportBody {
        id: "200423264892184291776794534127952959503".to_string(),
        timestamp: "2023-11-23T11:47:05.757595".to_string(),
        version: 4,
        epid_pseudonym: geid_rewards::base64text::decode_base64(
            "+CUyIi74LPqS6M0NF7YrSxLqPdX3MKs6D6LIPqRG/ZEB4WmxZVvxAJwdwg/0m9cYnUUQguLnJotthX645lAogfJgO8Xg5/91lSegwyUKvHmKgtjOHX/YTbVe/wmgWiBdaL+KmarY0Je459Px/FqGLWLsAF7egPAJRd1Xn88Znrs=",
        )
        .unwrap(),
        advisory_url: "https://security-center.intel.com".to_string(),
        advisory_ids: vec!["INTEL-SA-00161".to_string(), "INTEL-SA-00219".to_string(), "INTEL-SA-00289".to_string(), "INTEL-SA-00334".to_string(), "INTEL-SA-00615".to_string()],
        isv_enclave_quote_status: "CONFIGURATION_AND_SW_HARDENING_NEEDED".to_string(),
        platform_info_blob: "150200650000080000141402040180070000000000000000000D00000C000000020000000000000CB07FA713992F17617F506072BA90D3794110D036E2293096E6BF758122D4E6BB68EE3F69B49BA232441025B331F3FA6E6AD1E70E5D8892E5F6565E5C9FCE9B2A24".to_string(),
        isv_enclave_quote_body: "AgABALAMAAAPAA8AAAAAAFHK9aSLRQ1iSu/jKG0xSJQAAAAAAAAAAAAAAAAAAAAAFBQCBwGAAQAAAAAAAAAAAAAAAAAAAAAAAAAAAAAAAAAAAAAAAAAAAAAAAAAAAAAABQAAAAAAAAAHAAAAAAAAAOPC8qW4QNieBprK/8rbZRDvhmpz06nuVxAO1fhkbuS7AAAAAAAAAAAAAAAAAAAAAAAAAAAAAAAAAAAAAAAAAAAc8uUpEUEPvz8ZkFapjVh5WlWaLoAJM/f80T0EhGInHAAAAAAAAAAAAAAAAAAAAAAAAAAAAAAAAAAAAAAAAAAAAAAAAAAAAAAAAAAAAAAAAAAAAAAAAAAAAAAAAAAAAAAAAAAAAAAAAAAAAAAAAAAAAAAAAAAAAAAAAAAAAAAAAAAAAAAAAAAAAAAAAAAAAAAAAAAAAAAAAAAAAAAAAAAAAAAAAAAAAAAAAAAAAAAAAAAAAAAAAAAAAAAAAAAAAAC9zI5dTO9V43CN3I5/OaESDnWs8hiIOaCM/QJA3Uk5oQAAAAAAAAAAAAAAAAAAAAAAAAAAAAAAAAAAAAAAAAAA".to_string(),
    }
}

fn claim(address: &[u8], message: &str) -> ClaimStruct {
    ClaimStruct { address: address.to_vec(), message: message.to_string() }
}

/// The canonical form as a generic serializer and a text replacement give it.
fn reference_form(address: &[u8], message: &str) -> Vec<u8> {
    let mut fields = serde_json::Map::new();
    fields.insert(
        "address".to_string(),
        serde_json::Value::Array(address.iter().map(|b| serde_json::Value::from(*b)).collect()),
    );
    fields.insert("message".to_string(), serde_json::Value::String(message.to_string()));
    let text = serde_json::to_string(&serde_json::Value::Object(fields)).unwrap();
    text.replace("\\", "").into_bytes()
}

fn decimal(n: u64) -> String {
    let mut out = Vec::new();
    push_decimal(&mut out, n);
    String::from_utf8(out).unwrap()
}

fn json_string(text: &str) -> String {
    let mut out = Vec::new();
    push_json_string(&mut out, text.as_bytes());
    String::from_utf8(out).unwrap()
}

#[test]
fn sample_claim_in_canonical_form() {
    let sample = claim(
        &[
            31, 3, 24, 28, 4, 10, 7, 8, 19, 25, 4, 12, 13, 22, 1, 12, 28, 24, 30, 9, 12, 8, 26, 7,
            5, 28, 26, 25, 6, 1, 24, 15,
        ],
        "Hello world!",
    );
    let expected = "{\"address\":[31,3,24,28,4,10,7,8,19,25,4,12,13,22,1,12,28,24,30,9,12,8,26,7,5,28,26,25,6,1,24,15],\"message\":\"Hello world!\"}";
    assert_eq!(sample.canonicalize(), expected.as_bytes());
    assert_eq!(sample.to_json(), expected.as_bytes());
}

#[test]
fn empty_claim_in_canonical_form() {
    let empty = claim(&[], "");
    assert_eq!(empty.canonicalize(), "{\"address\":[],\"message\":\"\"}".as_bytes());
}

#[test]
fn canonical_form_agrees_with_a_generic_serializer() {
    let addresses: [&[u8]; 4] = [&[], &[0], &[255, 0, 9, 10, 99, 100], &[1, 2, 3]];
    let messages = [
        "",
        "Hello world!",
        "a \"quoted\" word",
        "back\\slash",
        "\\\\",
        "line\nfeed\rreturn\ttab",
        "\u{8}\u{c}",
        "\u{0}\u{1}\u{1f}\u{7f}",
        "caf\u{e9} \u{1f600} \u{4e2d}",
        "solidus / stays",
        "\\\"\\n",
    ];
    for address in addresses {
        for message in messages {
            assert_eq!(
                claim(address, message).canonicalize(),
                reference_form(address, message),
                "address {:?}, message {:?}",
                address,
                message
            );
        }
    }
}

#[test]
fn canonical_form_holds_no_backslash() {
    let text = claim(&[92], "a\\b\"c\nd\u{1}").canonicalize();
    assert!(!text.contains(&b'\\'));
    assert_eq!(text, "{\"address\":[92],\"message\":\"ab\"cndu0001\"}".as_bytes());
}

#[test]
fn json_keeps_its_backslashes() {
    let text = claim(&[92], "a\\b\"c\nd\u{1}").to_json();
    assert_eq!(
        text,
        "{\"address\":[92],\"message\":\"a\\\\b\\\"c\\nd\\u0001\"}".as_bytes()
    );
}

#[test]
fn digest_of_a_claim_is_that_of_its_canonical_form() {
    // SHA-256 of the empty claim's canonical form, {"address":[],"message":""}
    let digest = convert_claim_struct_to_payload(claim(&[], ""));
    assert_eq!(digest.len(), SHA256_SIZE);
    assert_eq!(hex::encode(digest), "30eea22d364ef7d2911131710ad1ecb1ce1b2f0e6a0cb7b4646837f51f0d0d5d");
}

#[test]
fn decimals_have_no_padding() {
    assert_eq!(decimal(0), "0");
    assert_eq!(decimal(7), "7");
    assert_eq!(decimal(10), "10");
    assert_eq!(decimal(255), "255");
    assert_eq!(decimal(1000), "1000");
    assert_eq!(decimal(u64::MAX), "18446744073709551615");
}

#[test]
fn decimals_are_joined_by_commas() {
    let mut out = b"x".to_vec();
    push_joined_decimals(&mut out, &[1, 20, 255, 0]);
    assert_eq!(out, b"x1,20,255,0");
    let mut none = Vec::new();
    push_joined_decimals(&mut none, &[]);
    assert!(none.is_empty());
}

#[test]
fn bytes_are_escaped_one_by_one() {
    let cases: [(u8, &str); 12] = [
        (b'"', "\\\""),
        (b'\\', "\\\\"),
        (8, "\\b"),
        (9, "\\t"),
        (10, "\\n"),
        (12, "\\f"),
        (13, "\\r"),
        (0, "\\u0000"),
        (11, "\\u000b"),
        (31, "\\u001f"),
        (b'/', "/"),
        (127, "\u{7f}"),
    ];
    for (byte, expected) in cases {
        let mut out = Vec::new();
        push_escaped(&mut out, byte);
        assert_eq!(out, expected.as_bytes(), "byte {}", byte);
    }
}

#[test]
fn strings_stand_between_quotation_marks() {
    assert_eq!(json_string(""), "\"\"");
    assert_eq!(json_string("abc"), "\"abc\"");
    assert_eq!(json_string("a\"b"), "\"a\\\"b\"");
    assert_eq!(
        json_string("tab\there"),
        serde_json::to_string(&serde_json::Value::String("tab\there".to_string())).unwrap()
    );
}

#[test]
fn stripping_backslashes() {
    assert_eq!(strip_backslashes(b"a\\b\\\\c"), b"abc");
    assert_eq!(strip_backslashes(b"\\"), b"");
    assert_eq!(strip_backslashes(b""), b"");
    assert_eq!(strip_backslashes(b"none"), b"none");
}

#[test]
fn report_body_is_worded_as_the_service_words_it() {
    let start = IAS_RESPONSE.find("{\"id\"").unwrap();
    let end = IAS_RESPONSE.find(",\"reportsig\"").unwrap();
    let sent = &IAS_RESPONSE[start..end];
    assert_eq!(String::from_utf8(sample_report_body().to_wire_bytes()).unwrap(), sent);
}

#[test]
fn report_is_worded_as_the_service_words_it() {
    let sent: serde_json::Value = serde_json::from_str(IAS_RESPONSE).unwrap();
    let report = IASReport {
        report: sample_report_body(),
        report_sig: sent["reportsig"].as_str().unwrap().to_string(),
    };
    assert_eq!(String::from_utf8(report.to_wire_bytes()).unwrap(), IAS_RESPONSE);
}

#[test]
fn report_body_agrees_with_a_generic_serializer() {
    let mut body = sample_report_body();
    body.id = "with \"quotes\" and \\ and \n".to_string();
    body.version = 18446744073709551615;
    body.advisory_ids = vec![];
    body.advisory_url = "caf\u{e9}".to_string();
    let text = String::from_utf8(body.to_wire_bytes()).unwrap();
    let parsed: serde_json::Value = serde_json::from_str(&text).unwrap();
    assert_eq!(parsed["id"].as_str().unwrap(), body.id);
    assert_eq!(parsed["version"].as_u64().unwrap(), body.version);
    assert_eq!(parsed["advisoryIDs"].as_array().unwrap().len(), 0);
    assert_eq!(parsed["advisoryURL"].as_str().unwrap(), body.advisory_url);
    assert_eq!(parsed["platformInfoBlob"].as_str().unwrap(), body.platform_info_blob);
    assert!(text.starts_with("{\"id\":\"with \\\"quotes\\\" and \\\\ and \\n\",\"timestamp\":"));
    assert!(text.contains(",\"advisoryIDs\":[],\"isvEnclaveQuoteStatus\":"));
}

#[test]
fn report_body_with_one_advisory() {
    let mut body = sample_report_body();
    body.advisory_ids = vec!["INTEL-SA-00161".to_string()];
    let text = String::from_utf8(body.to_wire_bytes()).unwrap();
    assert!(text.contains(",\"advisoryIDs\":[\"INTEL-SA-00161\"],"));
}
