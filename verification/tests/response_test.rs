use slack_client::decode_webapi_response;
use slack_client::ClientError;

#[test]
fn a_json_body_decodes_to_its_value() {
    let body = b"{\"ok\":true,\"ts\":\"123.456\"}".to_vec();
    let value = decode_webapi_response(Ok(body.clone())).unwrap();
    let expected: serde_json::Value = serde_json::from_slice(&body).unwrap();
    assert_eq!(value, expected);
}

#[test]
fn a_body_that_is_not_json_yields_a_decode_error() {
    let r = decode_webapi_response(Ok(b"<html>502 Bad Gateway</html>".to_vec()));
    assert_eq!(r.unwrap_err(), ClientError::Decode);
}

#[test]
fn a_truncated_json_body_yields_a_decode_error_not_a_partial_value() {
    let r = decode_webapi_response(Ok(b"{\"ok\":true,".to_vec()));
    assert_eq!(r.unwrap_err(), ClientError::Decode);
}

#[test]
fn an_empty_body_yields_a_decode_error() {
    let r = decode_webapi_response(Ok(Vec::new()));
    assert_eq!(r.unwrap_err(), ClientError::Decode);
}

#[test]
fn a_transport_failure_surfaces_its_message_unchanged() {
    let r = decode_webapi_response(Err(b"connection refused".to_vec()));
    assert_eq!(
        r.unwrap_err(),
        ClientError::Transport(b"connection refused".to_vec())
    );
}

#[test]
fn a_non_2xx_status_is_not_an_error_when_the_body_is_json() {
    // This layer never looks at the status line: an error-shaped JSON body is
    // a decoded success, and telling API-level failure is the caller's work.
    let body = b"{\"ok\":false,\"error\":\"channel_not_found\"}".to_vec();
    let value = decode_webapi_response(Ok(body)).unwrap();
    assert_eq!(value["ok"], serde_json::Value::Bool(false));
}
