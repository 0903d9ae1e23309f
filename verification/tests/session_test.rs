use slack_client::HttpMethod;
use slack_client::SlackApiToken;
use slack_client::SlackClient;

fn p(k: &str, v: Option<&str>) -> (Vec<u8>, Option<Vec<u8>>) {
    (k.as_bytes().to_vec(), v.map(|s| s.as_bytes().to_vec()))
}

#[test]
fn token_builder_sets_optional_fields() {
    let t = SlackApiToken::new(b"xoxb-1".to_vec());
    assert_eq!(t.value, b"xoxb-1".to_vec());
    assert_eq!(t.workspace_id, None);
    assert_eq!(t.scope, None);
    let t = t
        .with_workspace_id(b"T42".to_vec())
        .with_scope(b"chat:write".to_vec());
    assert_eq!(t.workspace_id, Some(b"T42".to_vec()));
    assert_eq!(t.scope, Some(b"chat:write".to_vec()));
}

#[test]
fn open_session_owns_an_equal_copy_of_the_token() {
    let client = SlackClient::new();
    let token = SlackApiToken::new(b"xoxb-1".to_vec()).with_workspace_id(b"T42".to_vec());
    let session = client.open_session(&token);
    assert_eq!(session.token, token);
}

#[test]
fn session_get_attaches_bearer_header_with_exact_token_value() {
    let client = SlackClient::new();
    let token = SlackApiToken::new(b"SECRET-REDACTED".to_vec());
    let session = client.open_session(&token);
    let req = session.get(b"auth.test", &vec![]);
    assert_eq!(req.method, HttpMethod::Get);
    assert_eq!(req.url, b"https://slack.com/api/auth.test".to_vec());
    assert_eq!(req.headers.len(), 1);
    assert_eq!(req.headers[0].0, b"Authorization".to_vec());
    assert_eq!(req.headers[0].1, b"Bearer SECRET-REDACTED".to_vec());
    assert!(req.body.is_empty());
}

#[test]
fn session_get_carries_query_parameters() {
    let client = SlackClient::new();
    let token = SlackApiToken::new(b"xoxb-1".to_vec());
    let session = client.open_session(&token);
    let req = session.get(
        b"conversations.history",
        &vec![p("channel", Some("C123")), p("latest", None)],
    );
    assert_eq!(
        req.url,
        b"https://slack.com/api/conversations.history?channel=C123".to_vec()
    );
}

#[test]
fn client_get_builds_unauthenticated_request() {
    let client = SlackClient::new();
    let req = client.get(b"api.test", &vec![p("foo", Some("bar"))]);
    assert_eq!(req.method, HttpMethod::Get);
    assert_eq!(req.url, b"https://slack.com/api/api.test?foo=bar".to_vec());
    assert!(req.headers.is_empty());
    assert!(req.body.is_empty());
}

#[test]
fn session_post_sets_verb_url_headers_and_body() {
    let client = SlackClient::new();
    let token = SlackApiToken::new(b"xoxb-1".to_vec());
    let session = client.open_session(&token);
    let body = b"{\"channel\":\"C123\"}".to_vec();
    let req = session.post(b"chat.postMessage", body.clone());
    assert_eq!(req.method, HttpMethod::Post);
    assert_eq!(req.url, b"https://slack.com/api/chat.postMessage".to_vec());
    assert!(!req.url.contains(&b'?'));
    assert_eq!(req.headers.len(), 2);
    assert_eq!(req.headers[0].0, b"Authorization".to_vec());
    assert_eq!(req.headers[0].1, b"Bearer xoxb-1".to_vec());
    assert_eq!(req.headers[1].0, b"content-type".to_vec());
    assert_eq!(req.headers[1].1, b"application/json".to_vec());
    assert_eq!(req.body, body);
}

#[test]
fn posted_body_decodes_back_to_the_original_json_value() {
    let client = SlackClient::new();
    let token = SlackApiToken::new(b"xoxb-1".to_vec());
    let session = client.open_session(&token);
    let mut fields = serde_json::Map::new();
    fields.insert(
        "channel".to_string(),
        serde_json::Value::String("C123".to_string()),
    );
    fields.insert(
        "text".to_string(),
        serde_json::Value::String("hello — wörld".to_string()),
    );
    let value = serde_json::Value::Object(fields);
    let bytes = serde_json::to_vec(&value).unwrap();
    let req = session.post(b"chat.postMessage", bytes);
    let back: serde_json::Value = serde_json::from_slice(&req.body).unwrap();
    assert_eq!(back, value);
}

#[test]
fn sessions_with_different_tokens_have_independent_auth_headers() {
    let client = SlackClient::new();
    let t1 = SlackApiToken::new(b"xoxb-first".to_vec());
    let t2 = SlackApiToken::new(b"xoxb-second".to_vec());
    let s1 = client.open_session(&t1);
    let s2 = client.open_session(&t2);
    let r1 = s1.get(b"auth.test", &vec![]);
    let r2 = s2.get(b"auth.test", &vec![]);
    assert_eq!(r1.headers[0].1, b"Bearer xoxb-first".to_vec());
    assert_eq!(r2.headers[0].1, b"Bearer xoxb-second".to_vec());
    assert_ne!(r1.headers[0].1, r2.headers[0].1);
}

#[test]
fn try_get_rejects_a_method_name_that_breaks_the_url() {
    let client = SlackClient::new();
    let token = SlackApiToken::new(b"xoxb-1".to_vec());
    let session = client.open_session(&token);
    let ok = session.try_get(b"auth.test", &vec![]);
    assert!(ok.is_ok());
    let bad = session.try_get(&[0xff, 0xfe], &vec![]);
    assert_eq!(bad.unwrap_err(), slack_client::ClientError::UrlConstruction);
}

#[test]
fn try_post_builds_the_same_request_as_post() {
    let client = SlackClient::new();
    let token = SlackApiToken::new(b"xoxb-1".to_vec());
    let session = client.open_session(&token);
    let direct = session.post(b"chat.postMessage", b"{}".to_vec());
    let checked = session.try_post(b"chat.postMessage", b"{}".to_vec()).unwrap();
    assert_eq!(direct.url, checked.url);
    assert_eq!(direct.headers, checked.headers);
    assert_eq!(direct.body, checked.body);
}
