use packets::auth::{apply_to_headers, AuthData, AuthType};
use packets::body::{BodyData, BodyType};
use packets::collection::Collection;
use packets::exchange::decode_response;
use packets::params::{get_base_url, params_to_url, ParametersTab};
use packets::request::{Request, RequestData, RequestMethod};

fn pairs(items: &[(&str, &str)]) -> Vec<(String, String)> {
    items.iter().map(|(k, v)| (k.to_string(), v.to_string())).collect()
}

fn auth_headers(headers: &[(String, String)]) -> Vec<String> {
    headers
        .iter()
        .filter(|(k, _)| k == "Authorization")
        .map(|(_, v)| v.clone())
        .collect()
}

#[test]
fn url_edit_then_param_edits_rewrite_query() {
    let mut request = Request::new();
    request.set_url("https://api.example.com/search?q=rust".to_string());
    assert_eq!(request.parameters(), &pairs(&[("q", "rust")]));
    assert!(request.remove_param(0));
    assert_eq!(request.data().url_string, "https://api.example.com/search");
    request.edit_new_param("q".to_string(), "golang".to_string());
    request.edit_new_param("page".to_string(), "2".to_string());
    assert_eq!(request.parameters(), &pairs(&[("q", "golang"), ("page", "2")]));
    assert_eq!(request.data().url_string, "https://api.example.com/search?q=golang&page=2");
}

#[test]
fn bearer_then_basic_keeps_one_authorization_header() {
    let mut request = Request::new();
    request.edit_new_header("Accept".to_string(), "*/*".to_string());
    request.select_auth(AuthType::Bearer);
    assert_eq!(auth_headers(&request.data().headers), vec!["Bearer ".to_string()]);
    request.set_credential(AuthData::Bearer { token: "abc123".to_string() });
    assert_eq!(request.data().derive_header(), Some("Bearer abc123".to_string()));
    assert_eq!(auth_headers(&request.data().headers), vec!["Bearer abc123".to_string()]);
    request.select_auth(AuthType::Basic);
    assert_eq!(auth_headers(&request.data().headers), vec!["Og==".to_string()]);
    request.set_credential(AuthData::Basic { username: "u".to_string(), password: "p".to_string() });
    assert_eq!(request.data().derive_header(), Some("dTpw".to_string()));
    assert_eq!(auth_headers(&request.data().headers), vec!["dTpw".to_string()]);
    assert_eq!(request.data().headers[0], ("Accept".to_string(), "*/*".to_string()));
    request.select_auth(AuthType::Bearer);
    assert_eq!(auth_headers(&request.data().headers), vec!["Bearer abc123".to_string()]);
    request.select_auth(AuthType::NoAuth);
    assert!(auth_headers(&request.data().headers).is_empty());
    request.select_auth(AuthType::Inherit);
    assert!(auth_headers(&request.data().headers).is_empty());
}

#[test]
fn basic_header_uses_standard_base64_alphabet() {
    let cred = AuthData::Basic { username: "user".to_string(), password: "pa>>w?".to_string() };
    assert_eq!(cred.to_header(), "dXNlcjpwYT4+dz8=");
    let token = AuthData::Bearer { token: "t".to_string() };
    assert_eq!(token.to_header(), "Bearer t");
}

#[test]
fn apply_to_headers_leaves_a_single_entry() {
    let mut headers = pairs(&[
        ("Authorization", "old1"),
        ("X-A", "1"),
        ("Authorization", "old2"),
        ("X-B", "2"),
    ]);
    apply_to_headers(&mut headers, Some("new".to_string()));
    assert_eq!(headers, pairs(&[("X-A", "1"), ("X-B", "2"), ("Authorization", "new")]));
    apply_to_headers(&mut headers, None);
    assert_eq!(headers, pairs(&[("X-A", "1"), ("X-B", "2")]));
}

#[test]
fn params_round_trip_through_url() {
    let params = pairs(&[
        ("a&b", "c=d"),
        ("sp ace", "\u{fc} nicode+x"),
        ("k", ""),
        ("q", "100%"),
    ]);
    let url = params_to_url(&params, "https://h/");
    assert_eq!(url, "https://h/?a%26b=c%3Dd&sp%20ace=%C3%BC%20nicode%2Bx&k&q=100%25");
    let mut tab = ParametersTab::new();
    let mut data = RequestData::default();
    data.url_string = url;
    tab.url_to_params(&mut data);
    assert_eq!(tab.parameters(), &params);
}

#[test]
fn params_to_url_is_stable() {
    let params = pairs(&[("x", "1"), ("y", "two words")]);
    let first = params_to_url(&params, "https://h/p?old=1#frag");
    let second = params_to_url(&params, "https://h/p?old=1#frag");
    assert_eq!(first, second);
    assert_eq!(first, "https://h/p?x=1&y=two%20words");
    assert_eq!(params_to_url(&params, &first), first);
    assert_eq!(params_to_url(&Vec::new(), &first), "https://h/p");
}

#[test]
fn blank_params_are_pruned_once_and_for_all() {
    let mut request = Request::new();
    request.set_url("https://h/?a=1&b=2".to_string());
    assert!(request.edit_param(0, String::new(), String::new()));
    assert_eq!(request.parameters(), &pairs(&[("b", "2")]));
    assert_eq!(request.data().url_string, "https://h/?b=2");
    assert!(request.edit_param(0, "b".to_string(), "2".to_string()));
    assert_eq!(request.parameters(), &pairs(&[("b", "2")]));
    assert_eq!(request.data().url_string, "https://h/?b=2");
    assert!(!request.edit_param(5, "z".to_string(), "9".to_string()));
    assert!(!request.remove_param(5));
    request.edit_new_param(String::new(), String::new());
    assert_eq!(request.parameters(), &pairs(&[("b", "2")]));
}

#[test]
fn unparsable_url_gives_no_params() {
    let mut request = Request::new();
    request.set_url("https://h/?a=1".to_string());
    assert_eq!(request.parameters().len(), 1);
    request.set_url("not a url ?a=1".to_string());
    assert!(request.parameters().is_empty());
    assert_eq!(request.data().url_string, "not a url ?a=1");
}

#[test]
fn base_url_stops_at_first_question_mark() {
    assert_eq!(get_base_url("https://h/p?a=1?b"), "https://h/p");
    assert_eq!(get_base_url("https://h/p"), "https://h/p");
    assert_eq!(get_base_url(""), "");
    assert_eq!(get_base_url("?x"), "");
}

#[test]
fn save_tracking_follows_content() {
    let mut request = Request::new();
    assert!(request.changed_since_save());
    assert!(!request.do_save());
    assert!(request.changed_since_save());
    request.mark_want_save();
    assert!(request.do_save());
    assert!(!request.wants_save());
    assert!(!request.changed_since_save());
    request.set_url("https://h/x".to_string());
    assert!(request.changed_since_save());
    request.set_url(String::new());
    assert!(!request.changed_since_save());
    request.set_name("New Request".to_string());
    assert!(!request.changed_since_save());
    request.set_method(RequestMethod::Post);
    assert!(request.changed_since_save());
    request.set_method(RequestMethod::Get);
    assert!(!request.changed_since_save());
}

#[test]
fn newer_send_wins_over_late_result() {
    let mut request = Request::new();
    let (first, _) = request.send_request().unwrap();
    let (second, _) = request.send_request().unwrap();
    assert_ne!(first, second);
    assert!(request.is_pending());
    assert!(!request.receive(first, Ok(b"old".to_vec())));
    assert_eq!(request.response(), None);
    assert!(request.receive(second, Ok(b"new".to_vec())));
    assert!(!request.is_pending());
    assert_eq!(request.response(), Some(Ok("new".to_string())));
    assert!(!request.receive(first, Ok(b"old".to_vec())));
    assert_eq!(request.response(), Some(Ok("new".to_string())));
}

#[test]
fn older_result_first_is_ignored() {
    let mut request = Request::new();
    let (first, _) = request.send_request().unwrap();
    let (second, _) = request.send_request().unwrap();
    assert!(!request.receive(first, Err("timeout".to_string())));
    assert!(request.receive(second, Err("refused".to_string())));
    assert_eq!(request.response(), Some(Err("refused".to_string())));
}

#[test]
fn response_decoding() {
    assert_eq!(decode_response(Ok("h\u{e9}llo".as_bytes().to_vec())), Ok("h\u{e9}llo".to_string()));
    assert_eq!(
        decode_response(Ok(vec![0xff, 0xfe])),
        Err("Response is invalid UTF-8".to_string())
    );
    assert_eq!(decode_response(Err("dns".to_string())), Err("dns".to_string()));
    assert_eq!(decode_response(Ok(Vec::new())), Ok(String::new()));
}

#[test]
fn wire_request_snapshots_content() {
    let mut request = Request::new();
    request.set_method(RequestMethod::Post);
    request.set_url("https://h/api".to_string());
    request.edit_new_header("X-K".to_string(), "v".to_string());
    request.select_body(BodyType::Raw);
    request.set_body(BodyData::Raw { data: "{\"a\":1}".to_string() });
    let (_, wire) = request.send_request().unwrap();
    assert_eq!(wire.method, "POST");
    assert_eq!(wire.url, "https://h/api");
    assert_eq!(wire.headers, pairs(&[("X-K", "v")]));
    assert_eq!(wire.body, b"{\"a\":1}".to_vec());
    request.select_body(BodyType::NoBody);
    let (_, wire) = request.send_request().unwrap();
    assert!(wire.body.is_empty());
    request.select_body(BodyType::Raw);
    let (_, wire) = request.send_request().unwrap();
    assert_eq!(wire.body, b"{\"a\":1}".to_vec());
}

#[test]
fn body_payloads_to_bytes() {
    assert_eq!(BodyData::NoBody.to_body(), Vec::<u8>::new());
    assert_eq!(BodyData::Raw { data: "\u{e9}".to_string() }.to_body(), vec![0xc3, 0xa9]);
    assert_eq!(BodyData::Binary { data: vec![0, 255] }.to_body(), vec![0, 255]);
    let mut data = RequestData::default();
    data.select_body(BodyType::Binary);
    assert!(data.body_bytes().is_empty());
    data.set_body(BodyData::Binary { data: vec![1, 2, 3] });
    assert_eq!(data.body_bytes(), vec![1, 2, 3]);
}

#[test]
fn scheme_and_method_names() {
    assert_eq!(AuthType::NoAuth.to_string(), "None");
    assert_eq!(AuthType::Inherit.to_string(), "Inherit");
    assert_eq!(AuthType::Basic.to_string(), "Basic");
    assert_eq!(AuthType::Bearer.to_string(), "Bearer Token");
    assert_eq!(RequestMethod::Options.to_string(), "OPTIONS");
    assert_eq!(RequestMethod::Head.to_string(), "HEAD");
    assert_eq!(RequestMethod::Get.to_string(), "GET");
    assert_eq!(RequestMethod::Patch.to_string(), "PATCH");
    assert_eq!(RequestMethod::default(), RequestMethod::Get);
    assert_eq!(AuthData::default_from_type(&AuthType::Bearer), AuthData::Bearer { token: String::new() });
    assert_eq!(AuthData::Bearer { token: String::new() }.get_type(), AuthType::Bearer);
}

#[test]
fn new_request_defaults() {
    let request = Request::new();
    assert_eq!(request.name(), "New Request");
    assert_eq!(request.data().method, RequestMethod::Get);
    assert!(request.data().url_string.is_empty());
    assert!(request.data().headers.is_empty());
    assert_eq!(request.data().selected_auth, AuthType::NoAuth);
    assert_eq!(request.data().selected_body, BodyType::NoBody);
    assert!(request.response().is_none());
}

#[test]
fn headers_tab_edits() {
    let mut request = Request::new();
    request.edit_new_header("A".to_string(), String::new());
    request.edit_new_header("B".to_string(), "2".to_string());
    assert_eq!(request.data().headers, pairs(&[("A", ""), ("B", "2")]));
    assert!(request.edit_header(0, String::new(), String::new()));
    assert_eq!(request.data().headers, pairs(&[("B", "2")]));
    assert!(!request.remove_header(3));
    assert!(request.remove_header(0));
    assert!(request.data().headers.is_empty());
}

#[test]
fn collection_creates_duplicates_and_removes() {
    let mut collection = Collection::new("Team".to_string());
    let a = collection.create_request("first");
    let b = collection.create_request("second");
    assert_ne!(a, b);
    assert_eq!(collection.find_request(b), Some(1));
    collection.requests[1].set_url("https://h/?x=1".to_string());
    collection.requests[1].mark_want_save();
    assert!(collection.requests[1].do_save());
    let c = collection.duplicate_request(b).unwrap();
    assert_ne!(c, b);
    assert_eq!(collection.requests.len(), 3);
    assert_eq!(collection.requests[2].name(), "second");
    assert_eq!(collection.requests[2].data().url_string, "https://h/?x=1");
    assert!(collection.requests[2].changed_since_save());
    assert!(!collection.requests[1].changed_since_save());
    assert_eq!(collection.duplicate_request(12345), None);
    assert_eq!(collection.remove_request(a), Some(0));
    assert_eq!(collection.find_request(a), None);
    assert_eq!(collection.remove_request(a), None);
    assert_eq!(collection.requests.len(), 2);
}

#[test]
fn inherit_takes_collection_authorization() {
    let mut collection = Collection::new("Shared".to_string());
    collection.data.select_auth(AuthType::Bearer);
    collection.data.set_credential(AuthData::Bearer { token: "team".to_string() });
    collection.create_request("r");
    collection.requests[0].select_auth(AuthType::Inherit);
    assert_eq!(collection.resolved_auth_header(0), Some("Bearer team".to_string()));
    let (_, wire) = collection.send_request(0).unwrap();
    assert_eq!(auth_headers(&wire.headers), vec!["Bearer team".to_string()]);
    collection.requests[0].select_auth(AuthType::Bearer);
    collection.requests[0].set_credential(AuthData::Bearer { token: "own".to_string() });
    assert_eq!(collection.resolved_auth_header(0), Some("Bearer own".to_string()));
    let (ticket, wire) = collection.send_request(0).unwrap();
    assert_eq!(auth_headers(&wire.headers), vec!["Bearer own".to_string()]);
    assert!(collection.receive(0, ticket, Ok(b"ok".to_vec())));
    assert_eq!(collection.requests[0].response(), Some(Ok("ok".to_string())));
}

#[test]
fn repeated_keys_survive_round_trip() {
    let params = pairs(&[("tag", "a"), ("tag", "b"), ("tag", "")]);
    let url = params_to_url(&params, "https://h/list");
    assert_eq!(url, "https://h/list?tag=a&tag=b&tag");
    let mut request = Request::new();
    request.set_url(url);
    assert_eq!(request.parameters(), &params);
}

#[test]
fn typed_authorization_header_replaces_the_derived_one() {
    let mut request = Request::new();
    request.select_auth(AuthType::Bearer);
    request.set_credential(AuthData::Bearer { token: "abc".to_string() });
    request.edit_new_header("X-A".to_string(), "1".to_string());
    request.edit_new_header("Authorization".to_string(), "Custom v".to_string());
    assert_eq!(auth_headers(&request.data().headers), vec!["Custom v".to_string()]);
    assert_eq!(request.data().headers[0], ("X-A".to_string(), "1".to_string()));
    assert!(request.edit_header(0, "Authorization".to_string(), "Other".to_string()));
    assert_eq!(request.data().headers, pairs(&[("Authorization", "Other")]));
    request.edit_new_header("X-B".to_string(), "2".to_string());
    assert!(request.edit_header(1, "X-C".to_string(), "3".to_string()));
    assert_eq!(request.data().headers, pairs(&[("Authorization", "Other"), ("X-C", "3")]));
}

#[test]
fn identities_are_distinct() {
    let mut collection = Collection::new("Ids".to_string());
    let mut ids = Vec::new();
    for _ in 0..5 {
        ids.push(collection.create_request("r"));
    }
    let copy = collection.duplicate_request(ids[2]).unwrap();
    ids.push(copy);
    let mut sorted = ids.clone();
    sorted.sort();
    sorted.dedup();
    assert_eq!(sorted.len(), ids.len());
    let request = Request::new();
    assert_ne!(request.duplicate().uuid(), request.uuid());
}
