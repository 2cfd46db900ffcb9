use electrumx::error::RpcError;
use electrumx::rpc::{
    decode_broadcast, decode_unspent_list, endpoint_path, envelope_payload, request_body,
    unwraps_result, RpcMethod,
};
use electrumx::utxo::Unspent;

#[test]
fn endpoint_paths_match_the_upstream_api() {
    assert_eq!(endpoint_path(RpcMethod::GetByTicker), "blockchain.atomicals.get_by_ticker");
    assert_eq!(endpoint_path(RpcMethod::GetFtInfo), "blockchain.atomicals.get_ft_info");
    assert_eq!(endpoint_path(RpcMethod::ListUnspent), "blockchain.scripthash.listunspent");
    assert_eq!(endpoint_path(RpcMethod::Broadcast), "blockchain.transaction.broadcast");
}

#[test]
fn only_the_ticker_method_unwraps_a_result_layer() {
    assert!(unwraps_result(RpcMethod::GetByTicker));
    assert!(!unwraps_result(RpcMethod::GetFtInfo));
    assert!(!unwraps_result(RpcMethod::ListUnspent));
    assert!(!unwraps_result(RpcMethod::Broadcast));
}

#[test]
fn request_body_wraps_one_string_param() {
    assert_eq!(request_body("quark"), "{\"params\":[\"quark\"]}");
}

#[test]
fn request_body_escapes_quotes_and_backslashes() {
    assert_eq!(request_body("a\"b\\c"), "{\"params\":[\"a\\\"b\\\\c\"]}");
}

#[test]
fn request_body_escapes_control_characters() {
    assert_eq!(request_body("x\ny"), "{\"params\":[\"x\\u000ay\"]}");
    assert_eq!(request_body("\u{1f}"), "{\"params\":[\"\\u001f\"]}");
}

#[test]
fn request_body_round_trips_through_a_json_parser() {
    let body = request_body("tricky \"\\ \u{0} payload");
    let v: serde_json::Value = serde_json::from_str(&body).expect("the body is valid JSON");
    assert_eq!(
        v.get("params").and_then(|p| p.get(0)).and_then(|s| s.as_str()),
        Some("tricky \"\\ \u{0} payload")
    );
}

#[test]
fn broadcast_reply_yields_the_txid() {
    assert_eq!(decode_broadcast("{\"response\":\"deadbeef\"}"), Ok("deadbeef".to_string()));
}

#[test]
fn broadcast_reply_must_be_a_string() {
    assert_eq!(decode_broadcast("{\"response\":7}"), Err(RpcError::DecodeFailure));
}

#[test]
fn garbage_body_is_a_decode_failure() {
    assert_eq!(decode_broadcast("<html>overloaded</html>"), Err(RpcError::DecodeFailure));
    assert_eq!(
        decode_unspent_list("{\"respons\":[]}"),
        Err(RpcError::DecodeFailure)
    );
}

#[test]
fn single_envelope_payload_is_under_response() {
    let got = envelope_payload("{\"response\":{\"k\":1}}", false).unwrap();
    let want: serde_json::Value = serde_json::from_str("{\"k\":1}").unwrap();
    assert_eq!(got, want);
}

#[test]
fn double_envelope_payload_is_under_response_result() {
    let got = envelope_payload("{\"response\":{\"result\":{\"k\":2},\"other\":0}}", true).unwrap();
    let want: serde_json::Value = serde_json::from_str("{\"k\":2}").unwrap();
    assert_eq!(got, want);
}

#[test]
fn double_envelope_without_result_fails() {
    assert!(envelope_payload("{\"response\":{\"k\":2}}", true).is_err());
}

#[test]
fn unspent_list_decodes_the_recognised_fields() {
    let body = "{\"response\":[\
        {\"txid\":\"aa\",\"vout\":0,\"value\":2000,\"atomicals\":[],\"height\":9},\
        {\"txid\":\"bb\",\"vout\":3,\"value\":500,\"atomicals\":[\"id1\"]}\
    ]}";
    let got = decode_unspent_list(body).unwrap();
    assert_eq!(
        got,
        vec![
            Unspent { txid: "aa".to_string(), vout: 0, value: 2000, atomicals: Vec::new() },
            Unspent { txid: "bb".to_string(), vout: 3, value: 500, atomicals: vec!["id1".to_string()] },
        ]
    );
}

#[test]
fn unspent_list_with_missing_field_fails() {
    let body = "{\"response\":[{\"txid\":\"aa\",\"value\":2000,\"atomicals\":[]}]}";
    assert_eq!(decode_unspent_list(body), Err(RpcError::DecodeFailure));
}

#[test]
fn unspent_list_must_be_an_array() {
    assert_eq!(
        decode_unspent_list("{\"response\":{\"txid\":\"aa\"}}"),
        Err(RpcError::DecodeFailure)
    );
}

#[test]
fn non_string_atomical_ids_keep_their_json_rendering() {
    let body = "{\"response\":[\
        {\"txid\":\"aa\",\"vout\":1,\"value\":10,\"atomicals\":[{\"id\":\"x\"}]}\
    ]}";
    let got = decode_unspent_list(body).unwrap();
    assert_eq!(got[0].atomicals, vec!["{\"id\":\"x\"}".to_string()]);
}

#[test]
fn empty_unspent_list_decodes_empty() {
    assert_eq!(decode_unspent_list("{\"response\":[]}"), Ok(Vec::new()));
}
