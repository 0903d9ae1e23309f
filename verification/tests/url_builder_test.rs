use slack_client::SlackClient;
use slack_client::ClientError;

fn p(k: &str, v: Option<&str>) -> (Vec<u8>, Option<Vec<u8>>) {
    (k.as_bytes().to_vec(), v.map(|s| s.as_bytes().to_vec()))
}

#[test]
fn method_uri_path_is_exact_concatenation() {
    let url = SlackClient::create_method_uri_path(b"chat.postMessage");
    assert_eq!(url, b"https://slack.com/api/chat.postMessage".to_vec());
}

#[test]
fn method_uri_path_has_exactly_one_separating_slash() {
    let url = SlackClient::create_method_uri_path(b"auth.test");
    assert_eq!(url, b"https://slack.com/api/auth.test".to_vec());
}

#[test]
fn present_param_appears_absent_param_is_omitted() {
    let params = vec![p("channel", Some("C123")), p("thread_ts", None)];
    let base = SlackClient::create_method_uri_path(b"chat.postMessage");
    let url = SlackClient::create_url_with_params(&base, &params);
    let text = String::from_utf8(url).unwrap();
    let query = text.split('?').nth(1).unwrap();
    assert!(query.contains("channel=C123"));
    assert!(!query.contains("thread_ts"));
    assert_eq!(query, "channel=C123");
}

#[test]
fn empty_params_yield_no_query_string_at_all() {
    let base = SlackClient::create_method_uri_path(b"auth.test");
    let url = SlackClient::create_url_with_params(&base, &vec![]);
    assert_eq!(url, b"https://slack.com/api/auth.test".to_vec());
    assert!(!url.contains(&b'?'));
}

#[test]
fn all_absent_params_yield_url_identical_to_plain_one() {
    let base = SlackClient::create_method_uri_path(b"auth.test");
    let params = vec![p("a", None), p("b", None), p("c", None)];
    let with = SlackClient::create_url_with_params(&base, &params);
    let without = SlackClient::create_url_with_params(&base, &vec![]);
    assert_eq!(with, without);
    assert_eq!(with, base);
}

#[test]
fn repeated_keys_produce_repeated_parameters_in_order() {
    let base = b"https://slack.com/api/x".to_vec();
    let params = vec![p("k", Some("1")), p("k", Some("2"))];
    let url = SlackClient::create_url_with_params(&base, &params);
    assert_eq!(String::from_utf8(url).unwrap(), "https://slack.com/api/x?k=1&k=2");
}

#[test]
fn query_encoding_escapes_reserved_bytes() {
    let base = b"https://slack.com/api/x".to_vec();
    let params = vec![p("text", Some("a b&c=d"))];
    let url = SlackClient::create_url_with_params(&base, &params);
    assert_eq!(
        String::from_utf8(url).unwrap(),
        "https://slack.com/api/x?text=a+b%26c%3Dd"
    );
}

#[test]
fn query_encoding_escapes_non_ascii_bytes() {
    let base = b"https://slack.com/api/x".to_vec();
    let params = vec![("k".as_bytes().to_vec(), Some("é".as_bytes().to_vec()))];
    let url = SlackClient::create_url_with_params(&base, &params);
    assert_eq!(String::from_utf8(url).unwrap(), "https://slack.com/api/x?k=%C3%A9");
}

#[test]
fn built_url_matches_url_crate_builder() {
    let base = SlackClient::create_method_uri_path(b"chat.postMessage");
    let params = vec![p("channel", Some("C123")), p("text", Some("hi there!"))];
    let built = SlackClient::create_url_with_params(&base, &params);
    let reference = url::Url::parse_with_params(
        "https://slack.com/api/chat.postMessage",
        &[("channel", "C123"), ("text", "hi there!")],
    )
    .unwrap();
    assert_eq!(String::from_utf8(built).unwrap(), reference.as_str());
}

#[test]
fn query_string_round_trips_through_url_crate_decoder() {
    let base = SlackClient::create_method_uri_path(b"search.messages");
    let params = vec![
        p("query", Some("läuft & gut=prima")),
        p("sort", None),
        p("count", Some("20")),
    ];
    let built = SlackClient::create_url_with_params(&base, &params);
    let parsed = url::Url::parse(&String::from_utf8(built).unwrap()).unwrap();
    let pairs: Vec<(String, String)> = parsed
        .query_pairs()
        .map(|(k, v)| (k.into_owned(), v.into_owned()))
        .collect();
    assert_eq!(
        pairs,
        vec![
            ("query".to_string(), "läuft & gut=prima".to_string()),
            ("count".to_string(), "20".to_string()),
        ]
    );
}

#[test]
fn try_create_url_accepts_a_well_formed_url() {
    let url = b"https://slack.com/api/auth.test".to_vec();
    let r = SlackClient::try_create_url(&url).unwrap();
    assert_eq!(r, url);
}

#[test]
fn try_create_url_rejects_text_that_is_no_url() {
    let r = SlackClient::try_create_url(b"no scheme at all");
    assert_eq!(r, Err(ClientError::UrlConstruction));
}

#[test]
fn try_create_url_rejects_bytes_that_are_no_utf8() {
    let r = SlackClient::try_create_url(&[0xff, 0xfe, 0x20]);
    assert_eq!(r, Err(ClientError::UrlConstruction));
}

#[test]
fn empty_key_and_empty_value_still_form_a_pair() {
    let base = b"https://slack.com/api/x".to_vec();
    let params = vec![p("", Some(""))];
    let url = SlackClient::create_url_with_params(&base, &params);
    assert_eq!(String::from_utf8(url.clone()).unwrap(), "https://slack.com/api/x?=");
    let parsed = url::Url::parse(&String::from_utf8(url).unwrap()).unwrap();
    let pairs: Vec<(String, String)> = parsed
        .query_pairs()
        .map(|(k, v)| (k.into_owned(), v.into_owned()))
        .collect();
    assert_eq!(pairs, vec![(String::new(), String::new())]);
}

#[test]
fn asterisk_stays_raw_and_tilde_is_escaped() {
    let base = b"https://slack.com/api/x".to_vec();
    let params = vec![p("k", Some("*~"))];
    let url = SlackClient::create_url_with_params(&base, &params);
    assert_eq!(String::from_utf8(url).unwrap(), "https://slack.com/api/x?k=*%7E");
}
