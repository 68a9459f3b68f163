use relay_api::json_shape::json_generation;
use relay_api::media::{negotiate, BodyFormat, Rejection};
use relay_api::query::OrderBy;
use relay_api::response::{encode_response, error_body, join_with_commas, ErrorResponse, Response};
use relay_api::ssz_wire::SszError;
use relay_api::submission::{decode_ssz_body, Generation, SubmitBlockRequest};

fn bid_trace_bytes() -> Vec<u8> {
    let mut b = Vec::new();
    b.extend_from_slice(&7u64.to_le_bytes());
    b.extend_from_slice(&[1u8; 32]);
    b.extend_from_slice(&[2u8; 32]);
    b.extend_from_slice(&[3u8; 48]);
    b.extend_from_slice(&[4u8; 48]);
    b.extend_from_slice(&[5u8; 20]);
    b.extend_from_slice(&30_000_000u64.to_le_bytes());
    b.extend_from_slice(&21_000u64.to_le_bytes());
    b.extend_from_slice(&[6u8; 32]);
    b.extend_from_slice(&99u64.to_le_bytes());
    b.extend_from_slice(&2u64.to_le_bytes());
    assert_eq!(b.len(), 252);
    b
}

/// SSZ bytes of a payload: `level` 0 for Bellatrix, 1 for Capella, 2 for Deneb,
/// 3 for Electra.
fn payload_bytes(level: u8, extra: &[u8], txs: &[Vec<u8>]) -> Vec<u8> {
    let fixed = 32 + 20 + 32 + 32 + 256 + 32 + 8 * 4 + 4 + 32 + 32 + 4
        + if level >= 1 { 4 } else { 0 }
        + if level >= 2 { 16 } else { 0 }
        + if level >= 3 { 4 } else { 0 };
    let mut buf = Vec::new();
    let mut enc = ssz::SszEncoder::container(&mut buf, fixed);
    enc.append(&[10u8; 32]);
    enc.append(&[11u8; 20]);
    enc.append(&[12u8; 32]);
    enc.append(&[13u8; 32]);
    enc.append_parameterized(true, |b| b.extend_from_slice(&[14u8; 256]));
    enc.append(&[15u8; 32]);
    enc.append(&100u64);
    enc.append(&200u64);
    enc.append(&300u64);
    enc.append(&400u64);
    enc.append(&extra.to_vec());
    enc.append(&[16u8; 32]);
    enc.append(&[17u8; 32]);
    enc.append(&txs.to_vec());
    if level >= 1 {
        let withdrawals: Vec<(u64, u64, [u8; 20], u64)> = vec![(1, 2, [18u8; 20], 3), (4, 5, [19u8; 20], 6)];
        enc.append(&withdrawals);
    }
    if level >= 2 {
        enc.append(&500u64);
        enc.append(&600u64);
    }
    if level >= 3 {
        enc.append(&vec![0x21u8, 0x22, 0x23]);
    }
    enc.finalize();
    buf
}

fn request_bytes(payload: &[u8]) -> Vec<u8> {
    let mut buf = Vec::new();
    let mut enc = ssz::SszEncoder::container(&mut buf, 252 + 4 + 96);
    enc.append_parameterized(true, |b| b.extend_from_slice(&bid_trace_bytes()));
    enc.append(&payload.to_vec());
    enc.append_parameterized(true, |b| b.extend_from_slice(&[9u8; 96]));
    enc.finalize();
    buf
}

fn check_common(req: &SubmitBlockRequest) {
    assert_eq!(req.message.slot, 7);
    assert_eq!(req.message.parent_hash, vec![1u8; 32]);
    assert_eq!(req.message.proposer_fee_recipient, vec![5u8; 20]);
    assert_eq!(req.message.gas_limit, 30_000_000);
    assert_eq!(req.message.gas_used, 21_000);
    assert_eq!(req.message.value, vec![6u8; 32]);
    assert_eq!(req.message.block_number, 99);
    assert_eq!(req.message.num_tx, 2);
    assert_eq!(req.signature, vec![9u8; 96]);
    let p = &req.execution_payload;
    assert_eq!(p.parent_hash, vec![10u8; 32]);
    assert_eq!(p.logs_bloom, vec![14u8; 256]);
    assert_eq!(p.block_number, 100);
    assert_eq!(p.gas_limit, 200);
    assert_eq!(p.gas_used, 300);
    assert_eq!(p.timestamp, 400);
    assert_eq!(p.extra_data, vec![0xaa, 0xbb]);
    assert_eq!(p.block_hash, vec![17u8; 32]);
    assert_eq!(p.transactions, vec![vec![1u8, 2, 3], vec![4u8]]);
}

fn txs() -> Vec<Vec<u8>> {
    vec![vec![1u8, 2, 3], vec![4u8]]
}

#[test]
fn ssz_round_trip_bellatrix() {
    let bytes = request_bytes(&payload_bytes(0, &[0xaa, 0xbb], &txs()));
    let req = SubmitBlockRequest::from_ssz_bytes(&bytes).unwrap();
    assert_eq!(req.generation, Generation::Bellatrix);
    check_common(&req);
    assert!(req.execution_payload.withdrawals.is_empty());
    assert_eq!(req.execution_payload.blob_gas_used, 0);
}

#[test]
fn ssz_round_trip_capella() {
    let bytes = request_bytes(&payload_bytes(1, &[0xaa, 0xbb], &txs()));
    let req = SubmitBlockRequest::from_ssz_bytes(&bytes).unwrap();
    assert_eq!(req.generation, Generation::Capella);
    check_common(&req);
    let w = &req.execution_payload.withdrawals;
    assert_eq!(w.len(), 2);
    assert_eq!((w[0].index, w[0].validator_index, w[0].amount), (1, 2, 3));
    assert_eq!(w[1].address, vec![19u8; 20]);
    assert_eq!((w[1].index, w[1].validator_index, w[1].amount), (4, 5, 6));
}

#[test]
fn ssz_round_trip_deneb() {
    let bytes = request_bytes(&payload_bytes(2, &[0xaa, 0xbb], &txs()));
    let req = SubmitBlockRequest::from_ssz_bytes(&bytes).unwrap();
    assert_eq!(req.generation, Generation::Deneb);
    check_common(&req);
    assert_eq!(req.execution_payload.withdrawals.len(), 2);
    assert_eq!(req.execution_payload.blob_gas_used, 500);
    assert_eq!(req.execution_payload.excess_blob_gas, 600);
    assert!(req.execution_payload.execution_requests.is_empty());
}

#[test]
fn ssz_round_trip_electra() {
    let bytes = request_bytes(&payload_bytes(3, &[0xaa, 0xbb], &txs()));
    let req = SubmitBlockRequest::from_ssz_bytes(&bytes).unwrap();
    assert_eq!(req.generation, Generation::Electra);
    check_common(&req);
    assert_eq!(req.execution_payload.withdrawals.len(), 2);
    assert_eq!(req.execution_payload.blob_gas_used, 500);
    assert_eq!(req.execution_payload.execution_requests, vec![0x21u8, 0x22, 0x23]);
}

#[test]
fn ssz_short_body_is_bad_request() {
    assert_eq!(decode_ssz_body(&[]).unwrap_err(), Rejection::BadRequest);
    assert_eq!(decode_ssz_body(&[0u8; 255]).unwrap_err(), Rejection::BadRequest);
}

#[test]
fn ssz_older_generation_not_taken_for_newer() {
    let bytes = request_bytes(&payload_bytes(0, &[0xaa, 0xbb], &[]));
    let req = SubmitBlockRequest::from_ssz_bytes(&bytes).unwrap();
    assert_eq!(req.generation, Generation::Bellatrix);
    assert!(req.execution_payload.transactions.is_empty());
}

#[test]
fn ssz_all_generations_fail_with_oldest_error() {
    let bytes = vec![0u8; 10];
    let err = SubmitBlockRequest::from_ssz_bytes(&bytes).unwrap_err();
    assert_eq!(err, SszError::Framing(ssz::DecodeError::InvalidByteLength { len: 10, expected: 252 }));
    assert_eq!(decode_ssz_body(&bytes).unwrap_err(), Rejection::BadRequest);
}

#[test]
fn ssz_extra_data_too_long_is_oldest_error() {
    let bytes = request_bytes(&payload_bytes(0, &[0u8; 33], &txs()));
    let err = SubmitBlockRequest::from_ssz_bytes(&bytes).unwrap_err();
    assert_eq!(err, SszError::TooLong { max: 32 });
}

#[test]
fn negotiate_json_and_ssz() {
    assert_eq!(negotiate(Some("application/json")), Ok(BodyFormat::Json));
    assert_eq!(negotiate(Some("application/json; charset=utf-8")), Ok(BodyFormat::Json));
    assert_eq!(negotiate(Some("application/octet-stream")), Ok(BodyFormat::Ssz));
}

#[test]
fn negotiate_unsupported_media_type() {
    let r = negotiate(Some("text/plain"));
    assert_eq!(r, Err(Rejection::UnsupportedMediaType));
    assert_eq!(r.unwrap_err().status(), 415);
    assert_eq!(negotiate(None), Err(Rejection::UnsupportedMediaType));
    assert_eq!(negotiate(Some("application/jso")), Err(Rejection::UnsupportedMediaType));
    assert_eq!(Rejection::BadRequest.status(), 400);
}

#[test]
fn encode_not_found_error() {
    let r = encode_response(Response::Error(ErrorResponse {
        code: 404,
        message: "not found".to_string(),
        stacktraces: None,
    }));
    assert_eq!(r.status, 404);
    assert_eq!(r.content_type, "application/json");
    assert_eq!(r.body, "{\"code\":404,\"message\":\"not found\"}");
}

#[test]
fn encode_error_with_diagnostics_escapes() {
    let e = ErrorResponse {
        code: 500,
        message: "say \"hi\"".to_string(),
        stacktraces: Some(vec!["a".to_string(), "b\\c".to_string()]),
    };
    assert_eq!(
        error_body(&e),
        "{\"code\":500,\"message\":\"say \\\"hi\\\"\",\"stacktraces\":[\"a\",\"b\\\\c\"]}"
    );
    let empty = ErrorResponse { code: 7, message: String::new(), stacktraces: Some(vec![]) };
    assert_eq!(error_body(&empty), "{\"code\":7,\"message\":\"\",\"stacktraces\":[]}");
}

#[test]
fn encode_success_is_200_json() {
    let r = encode_response(Response::Success("[1,2]".to_string()));
    assert_eq!(r.status, 200);
    assert_eq!(r.content_type, "application/json");
    assert_eq!(r.body, "[1,2]");
    let s: Response<u8> = Response::Success(1);
    assert_eq!(s.status(), 200);
}

#[test]
fn join_with_commas_in_order() {
    assert_eq!(join_with_commas(&vec![]), "");
    assert_eq!(join_with_commas(&vec!["x".to_string()]), "x");
    assert_eq!(join_with_commas(&vec!["x".to_string(), "y".to_string(), "z".to_string()]), "x,y,z");
}

fn keys(names: &[&str]) -> Vec<String> {
    names.iter().map(|s| s.to_string()).collect()
}

const BASE: [&str; 14] = [
    "parent_hash", "fee_recipient", "state_root", "receipts_root", "logs_bloom", "prev_randao",
    "block_number", "gas_limit", "gas_used", "timestamp", "extra_data", "base_fee_per_gas",
    "block_hash", "transactions",
];

#[test]
fn json_generation_by_field_set() {
    let top = keys(&["signature", "message", "execution_payload"]);
    let mut p = keys(&BASE);
    assert_eq!(json_generation(&top, &p), Some(Generation::Bellatrix));
    p.push("withdrawals".to_string());
    assert_eq!(json_generation(&top, &p), Some(Generation::Capella));
    p.push("excess_blob_gas".to_string());
    p.push("blob_gas_used".to_string());
    assert_eq!(json_generation(&top, &p), Some(Generation::Deneb));
    p.push("execution_requests".to_string());
    assert_eq!(json_generation(&top, &p), Some(Generation::Electra));
}

#[test]
fn json_mixed_generations_rejected() {
    let top = keys(&["message", "execution_payload", "signature"]);
    let mut p = keys(&BASE);
    p.push("blob_gas_used".to_string());
    p.push("excess_blob_gas".to_string());
    assert_eq!(json_generation(&top, &p), None);
    let missing = keys(&BASE[1..]);
    assert_eq!(json_generation(&top, &missing), None);
    let bad_top = keys(&["message", "execution_payload"]);
    assert_eq!(json_generation(&bad_top, &keys(&BASE)), None);
}

#[test]
fn order_by_text() {
    assert_eq!(OrderBy::Value.as_text(), "value");
    assert_eq!(OrderBy::NegativeValue.as_text(), "-value");
    assert_eq!(OrderBy::from_text("-value"), Some(OrderBy::NegativeValue));
    assert_eq!(OrderBy::from_text("value"), Some(OrderBy::Value));
    assert_eq!(OrderBy::from_text("Value"), None);
}

#[test]
fn ssz_encoder_matches_and_round_trips() {
    let generations = [Generation::Bellatrix, Generation::Capella, Generation::Deneb, Generation::Electra];
    for level in 0u8..4 {
        let bytes = request_bytes(&payload_bytes(level, &[0xaa, 0xbb], &txs()));
        let req = SubmitBlockRequest::from_ssz_bytes(&bytes).unwrap();
        let encoded = req.to_ssz_bytes().unwrap();
        assert_eq!(encoded, bytes);
        let back = SubmitBlockRequest::from_ssz_bytes(&encoded).unwrap();
        assert_eq!(back, req);
        assert_eq!(back.generation, generations[level as usize]);
    }
}

#[test]
fn ssz_encoder_round_trip_empty_lists() {
    let bytes = request_bytes(&payload_bytes(1, &[], &[]));
    let mut req = SubmitBlockRequest::from_ssz_bytes(&bytes).unwrap();
    req.execution_payload.withdrawals.clear();
    let encoded = req.to_ssz_bytes().unwrap();
    let back = SubmitBlockRequest::from_ssz_bytes(&encoded).unwrap();
    assert_eq!(back.generation, Generation::Capella);
    assert!(back.execution_payload.withdrawals.is_empty());
    assert!(back.execution_payload.transactions.is_empty());
    assert!(back.execution_payload.extra_data.is_empty());
}

#[test]
fn well_formedness_checks_sizes_and_generation_fields() {
    let bytes = request_bytes(&payload_bytes(0, &[0xaa, 0xbb], &txs()));
    let req = SubmitBlockRequest::from_ssz_bytes(&bytes).unwrap();
    assert!(req.is_well_formed());
    let mut short_hash = req.clone();
    short_hash.message.parent_hash.pop();
    assert!(!short_hash.is_well_formed());
    let mut blob_gas_in_bellatrix = req.clone();
    blob_gas_in_bellatrix.execution_payload.blob_gas_used = 1;
    assert!(!blob_gas_in_bellatrix.is_well_formed());
    let mut long_extra = req;
    long_extra.execution_payload.extra_data = vec![0u8; 33];
    assert!(!long_extra.is_well_formed());
}

#[test]
fn rejection_answers_with_structured_error() {
    let e = Rejection::UnsupportedMediaType.error_response();
    assert_eq!(e.code, 415);
    assert_eq!(e.message, "unsupported media type");
    assert_eq!(e.stacktraces, None);
    let r = encode_response(Response::Error(Rejection::BadRequest.error_response()));
    assert_eq!(r.status, 400);
    assert_eq!(r.body, "{\"code\":400,\"message\":\"bad request\"}");
}

#[test]
fn error_body_escapes_control_characters() {
    let e = ErrorResponse { code: 418, message: "a\tb\u{1}c\u{7f}é".to_string(), stacktraces: None };
    assert_eq!(error_body(&e), "{\"code\":418,\"message\":\"a\\tb\\u0001c\u{7f}é\"}");
    let r = encode_response(Response::Error(ErrorResponse { code: 201, message: "x".to_string(), stacktraces: None }));
    assert_eq!(r.status, 201);
}
