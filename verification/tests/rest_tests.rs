use irelia::process_info::DiscoveredCredentials;
use irelia::rest::response_into_optional;
use irelia::rest::LcuClient;
use irelia::rest::Method;
use irelia::rest::Request;
use irelia::Error;
use irelia::SerializeFormat;

#[test]
fn method_names_on_the_wire() {
    assert_eq!(Method::Delete.as_str(), "DELETE");
    assert_eq!(Method::Get.as_str(), "GET");
    assert_eq!(Method::Head.as_str(), "HEAD");
    assert_eq!(Method::Patch.as_str(), "PATCH");
    assert_eq!(Method::Post.as_str(), "POST");
    assert_eq!(Method::Put.as_str(), "PUT");
}

#[test]
fn request_builder_stages() {
    let body: serde_json::Value = serde_json::from_str("[1,2,3]").unwrap();
    let request = Request::builder()
        .method(Method::Post)
        .endpoint(String::from("/lol-item-sets/v1/item-sets"))
        .body(body.clone())
        .build();
    assert_eq!(request.method, Method::Post);
    assert_eq!(request.endpoint, "/lol-item-sets/v1/item-sets");
    assert_eq!(request.body, Some(body));
}

#[test]
fn bodyless_request_constructor() {
    let request = Request::new(String::from("/x"), Method::Head);
    assert_eq!(request.method, Method::Head);
    assert_eq!(request.endpoint, "/x");
    assert!(request.body.is_none());
}

#[test]
fn connection_accessors() {
    let client = LcuClient::new_with_credentials(
        String::from("127.0.0.1"),
        8080,
        String::from("Basic abc"),
    );
    assert_eq!(client.host(), "127.0.0.1");
    assert_eq!(client.port(), 8080);
    assert_eq!(client.url_string(), "127.0.0.1:8080");
    assert_eq!(client.auth_header(), "Basic abc");
    assert_eq!(
        client.request_uri("/lol-summoner/v1/current-summoner"),
        "https://127.0.0.1:8080/lol-summoner/v1/current-summoner"
    );
}

#[test]
fn dispatch_empty_body_through_eof_adapter() {
    // A mock transport answering a GET with an empty body.
    let client =
        LcuClient::new_with_credentials(String::from("127.0.0.1"), 443, String::from("Basic x"));
    let prepared = client
        .prepare_request(Method::Get, "/lol-summoner/v1/current-summoner", None, SerializeFormat::Json)
        .unwrap();
    assert_eq!(prepared.method, Method::Get);
    assert_eq!(prepared.uri, "https://127.0.0.1:443/lol-summoner/v1/current-summoner");
    assert_eq!(prepared.auth_header.as_deref(), Some("Basic x"));
    assert!(prepared.body.is_none());

    let transport_body: Vec<u8> = Vec::new();
    let r = response_into_optional(&transport_body, SerializeFormat::Json);
    assert!(matches!(r, Ok(None)));

    let transport_body: Vec<u8> = b"{".to_vec();
    let r = response_into_optional(&transport_body, SerializeFormat::Json);
    assert!(matches!(r, Err(Error::DecodeFailure { .. })));
}

#[test]
fn prepare_request_encodes_the_body() {
    let client =
        LcuClient::new_with_credentials(String::from("127.0.0.1"), 9, String::from("Basic x"));
    let body: serde_json::Value = serde_json::from_str(r#"{"title":"Test Build"}"#).unwrap();
    let prepared = client
        .prepare_request(Method::Put, "/e", Some(&body), SerializeFormat::Json)
        .unwrap();
    let sent = prepared.body.expect("body must be encoded");
    let back: serde_json::Value = serde_json::from_slice(&sent).unwrap();
    assert_eq!(back, body);
}

#[test]
fn prepare_from_a_built_request() {
    let client =
        LcuClient::new_with_credentials(String::from("127.0.0.1"), 99, String::from("Basic q"));
    let body: serde_json::Value = serde_json::from_str(r#"{"count":1,"id":"3153"}"#).unwrap();
    let request = Request::builder()
        .method(Method::Patch)
        .endpoint(String::from("/lol-item-sets/v1/item-sets"))
        .body(body.clone())
        .build();
    let prepared = client.prepare_from(&request, SerializeFormat::Json).unwrap();
    assert_eq!(prepared.method, Method::Patch);
    assert_eq!(prepared.uri, "https://127.0.0.1:99/lol-item-sets/v1/item-sets");
    let sent = prepared.body.unwrap();
    let back: serde_json::Value = serde_json::from_slice(&sent).unwrap();
    assert_eq!(back, body);
}

#[test]
fn reconnect_with_credentials_replaces_both_fields() {
    let mut client = LcuClient::new_with_credentials(
        String::from("127.0.0.1"),
        1111,
        String::from("Basic old"),
    );
    client.reconnect_with_credentials(String::from("127.0.0.1"), 2222, String::from("Basic new"));
    assert_eq!(client.port(), 2222);
    assert_eq!(client.auth_header(), "Basic new");
}

#[test]
fn reconnect_applies_new_discovery_and_keeps_old_on_failure() {
    let mut client = LcuClient::new_with_credentials(
        String::from("127.0.0.1"),
        1111,
        String::from("Basic old"),
    );

    let fresh = DiscoveredCredentials { port: 54321, auth_token: String::from("abcDEF") };
    assert!(client.apply_discovery(Ok(fresh)).is_ok());
    assert_eq!(client.port(), 54321);
    assert_eq!(client.auth_header(), "Basic cmlvdDphYmNERUY=");
    assert_eq!(client.url_string(), "127.0.0.1:54321");

    let failed: Result<DiscoveredCredentials, Error> =
        Err(Error::DiscoveryFailure { reason: irelia::DiscoveryReason::NotRunning });
    let r = client.apply_discovery(failed);
    assert!(matches!(r, Err(Error::DiscoveryFailure { .. })));
    assert_eq!(client.port(), 54321);
    assert_eq!(client.auth_header(), "Basic cmlvdDphYmNERUY=");
}

#[test]
fn duplicate_copies_every_part() {
    let client =
        LcuClient::new_with_credentials(String::from("10.0.0.1"), 7, String::from("Basic z"));
    let copy = client.duplicate();
    assert_eq!(copy.host(), client.host());
    assert_eq!(copy.port(), client.port());
    assert_eq!(copy.auth_header(), client.auth_header());
}
