use irelia::rest::batch::Builder;
use irelia::rest::batch::Request;
use irelia::rest::batch::RequestType;
use irelia::rest::LcuClient;
use irelia::rest::Method;
use irelia::Error;
use irelia::SerializeFormat;

fn connection() -> LcuClient {
    LcuClient::new_with_credentials(String::from("127.0.0.1"), 443, String::from("Basic x"))
}

fn ok_value(n: u64) -> Result<Option<serde_json::Value>, Error> {
    Ok(Some(serde_json::Value::from(n)))
}

#[test]
fn batch_request_constructors() {
    let body: serde_json::Value = serde_json::from_str(r#"{"count":1}"#).unwrap();
    let r = Request::get(String::from("/a"));
    assert!(matches!(r.request_type, RequestType::Get));
    assert_eq!(r.endpoint, "/a");
    let r = Request::delete(String::from("/b"));
    assert!(matches!(r.request_type, RequestType::Delete));
    let r = Request::post(String::from("/c"), Some(body.clone()));
    assert!(matches!(r.request_type, RequestType::Post(Some(_))));
    let r = Request::put(String::from("/d"), None);
    assert!(matches!(r.request_type, RequestType::Put(None)));
    let r = Request::patch(String::from("/e"), Some(body.clone()));
    assert!(matches!(r.request_type, RequestType::Patch(Some(_))));
    let r = Request::new(RequestType::Get, String::from("/f"));
    assert_eq!(r.endpoint, "/f");
}

#[test]
fn staged_builder_prepares_each_item() {
    let client = connection();
    let body: serde_json::Value = serde_json::from_str(r#"{"title":"Test Build"}"#).unwrap();
    let staged = Builder::new()
        .with_client()
        .request(Request::get(String::from("/lol-summoner/v1/current-summoner")))
        .request(Request::put(String::from("/lol-item-sets/v1/item-sets"), Some(body)))
        .with_buffer_size(2)
        .with_lcu_client(&client);
    assert_eq!(staged.len(), 2);

    let first = staged.prepare_item(0);
    assert_eq!(first.method, Method::Get);
    assert_eq!(first.uri, "https://127.0.0.1:443/lol-summoner/v1/current-summoner");
    assert_eq!(first.format, SerializeFormat::Json);
    assert!(first.body.is_none());
    assert_eq!(first.auth_header.as_deref(), Some("Basic x"));

    let second = staged.prepare_item(1);
    assert_eq!(second.method, Method::Put);
    assert!(second.body.is_some());
}

#[test]
fn results_come_back_in_input_order_whatever_the_completion_order() {
    let client = connection();
    let mut builder = Builder::new().with_client_and_capacity(3);
    builder.add_request(Request::get(String::from("/one")));
    builder.add_request(Request::get(String::from("/two")));
    builder.add_request(Request::get(String::from("/three")));
    let staged = builder.with_buffer_size(3).with_lcu_client(&client);

    let mut run = staged.start();
    let a = run.start_next();
    let b = run.start_next();
    let c = run.start_next();
    assert_eq!((a, b, c), (0, 1, 2));

    // Completions arrive in a scrambled order.
    run.complete(c, ok_value(30));
    run.complete(a, ok_value(10));
    run.complete(b, ok_value(20));
    assert!(run.is_done());

    let results = run.into_results();
    assert_eq!(results.len(), 3);
    assert_eq!(results[0].as_ref().unwrap(), &Some(serde_json::Value::from(10u64)));
    assert_eq!(results[1].as_ref().unwrap(), &Some(serde_json::Value::from(20u64)));
    assert_eq!(results[2].as_ref().unwrap(), &Some(serde_json::Value::from(30u64)));
}

#[test]
fn no_more_than_the_bound_is_in_flight() {
    let client = connection();
    let staged = Builder::new()
        .with_client()
        .request(Request::get(String::from("/one")))
        .request(Request::get(String::from("/two")))
        .request(Request::get(String::from("/three")))
        .with_buffer_size(2)
        .with_lcu_client(&client);

    let mut run = staged.start();
    assert!(run.can_start());
    let a = run.start_next();
    assert!(run.can_start());
    let b = run.start_next();
    // Two requests are unresolved: the bound refuses a third.
    assert!(!run.can_start());
    run.complete(a, ok_value(1));
    // One slot freed: the third request may now be admitted.
    assert!(run.can_start());
    let c = run.start_next();
    assert!(!run.can_start());
    run.complete(b, ok_value(2));
    run.complete(c, ok_value(3));
    assert!(run.is_done());
}

#[test]
fn one_failure_leaves_sibling_results_alone() {
    let client = connection();
    let staged = Builder::new()
        .with_client()
        .request(Request::get(String::from("/one")))
        .request(Request::get(String::from("/two")))
        .request(Request::get(String::from("/three")))
        .with_buffer_size(3)
        .with_lcu_client(&client);

    let mut run = staged.start();
    let a = run.start_next();
    let b = run.start_next();
    let c = run.start_next();
    run.complete(a, ok_value(1));
    run.complete(b, Err(Error::TransportSend { message: String::from("connection reset") }));
    run.complete(c, ok_value(3));
    assert!(run.is_done());

    let results = run.into_results();
    assert_eq!(results[0].as_ref().unwrap(), &Some(serde_json::Value::from(1u64)));
    assert!(matches!(results[1], Err(Error::TransportSend { .. })));
    assert_eq!(results[2].as_ref().unwrap(), &Some(serde_json::Value::from(3u64)));
}

#[test]
fn default_builder_matches_new() {
    let client = connection();
    let staged = Builder::default()
        .with_client()
        .request(Request::get(String::from("/one")))
        .with_buffer_size(1)
        .with_lcu_client(&client);
    assert_eq!(staged.len(), 1);
}
