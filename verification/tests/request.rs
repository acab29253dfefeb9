use openapi_cli::binder::{BoundRequest, BoundValue, SuppliedValues};
use openapi_cli::errors::Errors;
use openapi_cli::http::{
    apply_query, authorize, bound_headers, handle_url_path, join_path, parse_body, parse_method,
    prepare_request, put_header, substitute_path, synthesize, Credentials, RequestDescriptor,
};
use openapi_cli::openapi::{Endpoint, HttpMethod, Parameter, ParameterLocation};

const BASE: &str = "https://api.example.com/v2";

fn endpoint(method: &str, path: &str) -> Endpoint {
    Endpoint {
        name: "op".to_string(),
        method: method.to_string(),
        path: path.to_string(),
        params: Vec::new(),
    }
}

fn value(name: &str, location: ParameterLocation, text: &str) -> BoundValue {
    BoundValue { name: name.to_string(), location, value: text.to_string() }
}

fn bound(values: Vec<BoundValue>) -> BoundRequest {
    BoundRequest { values }
}

fn nobody() -> Credentials {
    Credentials { basic: None, bearer: None }
}

fn request(method: &str, path: &str, values: Vec<BoundValue>) -> Result<RequestDescriptor, Errors> {
    synthesize(&endpoint(method, path), &bound(values), BASE, &nobody())
}

fn header<'a>(request: &'a RequestDescriptor, name: &str) -> Option<&'a str> {
    request.headers.get(name).map(|v| v.to_str().unwrap())
}

#[test]
fn path_values_replace_their_placeholders() {
    let r = request(
        "get",
        "/users/{id}/posts/{postId}",
        vec![
            value("id", ParameterLocation::Path, "42"),
            value("postId", ParameterLocation::Path, "7"),
        ],
    )
    .unwrap();
    assert_eq!(r.url.path(), "/users/42/posts/7");
    assert_eq!(r.url.as_str(), "https://api.example.com/users/42/posts/7");
    assert!(!r.url.as_str().contains('{'));
    assert!(!r.url.as_str().contains("%7B"));
}

#[test]
fn path_substitution_gives_the_plain_path() {
    let path = substitute_path(
        "/users/{id}/posts/{postId}",
        &bound(vec![
            value("id", ParameterLocation::Path, "42"),
            value("postId", ParameterLocation::Path, "7"),
        ]),
    );
    assert_eq!(path, "/users/42/posts/7");
}

#[test]
fn the_path_is_percent_decoded_before_a_value_is_put_in() {
    let path = substitute_path(
        "/files/%7Bname%7D/a%20b",
        &bound(vec![value("name", ParameterLocation::Path, "x")]),
    );
    assert_eq!(path, "/files/x/a b");
}

#[test]
fn the_path_is_left_as_it_is_without_path_values() {
    let path = substitute_path(
        "/files/%7Bname%7D",
        &bound(vec![value("name", ParameterLocation::Query, "x")]),
    );
    assert_eq!(path, "/files/%7Bname%7D");
}

#[test]
fn no_brace_is_left_where_every_placeholder_is_bound() {
    let path = substitute_path(
        "/orgs/{org}/users/{id}/{org}-{id}.json",
        &bound(vec![
            value("id", ParameterLocation::Path, "42"),
            value("q", ParameterLocation::Query, "{x}"),
            value("org", ParameterLocation::Path, "acme"),
        ]),
    );
    assert_eq!(path, "/orgs/acme/users/42/acme-42.json");
    assert!(!path.contains('{') && !path.contains('}'));
}

#[test]
fn a_placeholder_is_filled_by_the_first_bound_value_of_its_name() {
    let path = substitute_path(
        "/users/{id}",
        &bound(vec![
            value("id", ParameterLocation::Path, "1"),
            value("id", ParameterLocation::Path, "2"),
        ]),
    );
    assert_eq!(path, "/users/1");
}

#[test]
fn a_name_that_is_part_of_another_name_does_not_touch_its_placeholder() {
    let path = substitute_path(
        "/users/{userId}/items/{id}",
        &bound(vec![
            value("id", ParameterLocation::Path, "7"),
            value("userId", ParameterLocation::Path, "u"),
        ]),
    );
    assert_eq!(path, "/users/u/items/7");
}

#[test]
fn a_later_path_value_sees_what_an_earlier_one_put_in() {
    let path = substitute_path(
        "/{a}",
        &bound(vec![
            value("a", ParameterLocation::Path, "{b}"),
            value("b", ParameterLocation::Path, "c"),
        ]),
    );
    assert_eq!(path, "/c");
}

#[test]
fn a_path_value_is_encoded_by_the_url() {
    let r = request("get", "/users/{id}", vec![value("id", ParameterLocation::Path, "a b")]).unwrap();
    assert_eq!(r.url.as_str(), "https://api.example.com/users/a%20b");
}

#[test]
fn an_unbound_placeholder_stays_in_the_path_in_encoded_form() {
    let r = request("get", "/users/{id}", Vec::new()).unwrap();
    assert_eq!(r.url.as_str(), "https://api.example.com/users/%7Bid%7D");
}

#[test]
fn a_relative_operation_path_is_joined_to_the_base_path() {
    let r = request("get", "items", Vec::new()).unwrap();
    assert_eq!(r.url.as_str(), "https://api.example.com/v2/items");
}

#[test]
fn an_absolute_operation_path_replaces_the_base_path() {
    let r = request("get", "/items", Vec::new()).unwrap();
    assert_eq!(r.url.as_str(), "https://api.example.com/items");
}

#[test]
fn a_trailing_slash_of_the_base_path_is_not_doubled() {
    let r = synthesize(
        &endpoint("get", "items"),
        &bound(Vec::new()),
        "https://api.example.com/api/v2/",
        &nobody(),
    )
    .unwrap();
    assert_eq!(r.url.as_str(), "https://api.example.com/api/v2/items");
}

#[test]
fn a_base_address_without_a_path_gives_a_single_slash() {
    let r = synthesize(
        &endpoint("get", "items"),
        &bound(Vec::new()),
        "https://api.example.com",
        &nobody(),
    )
    .unwrap();
    assert_eq!(r.url.as_str(), "https://api.example.com/items");
}

#[test]
fn join_path_follows_the_two_cases() {
    assert_eq!(join_path("/v2", "items"), "/v2/items");
    assert_eq!(join_path("/v2/", "items"), "/v2/items");
    assert_eq!(join_path("/", "items"), "/items");
    assert_eq!(join_path("/v2", "/items"), "/items");
    assert_eq!(join_path("/v2", ""), "/v2/");
}

#[test]
fn the_base_address_is_normalised_by_the_url_parser() {
    let url = handle_url_path(&endpoint("get", "/x"), &bound(Vec::new()), "HTTPS://API.Example.com:443")
        .unwrap();
    assert_eq!(url.as_str(), "https://api.example.com/x");
}

#[test]
fn query_and_fragment_of_the_base_address_stay() {
    let url = handle_url_path(
        &endpoint("get", "items"),
        &bound(Vec::new()),
        "https://api.example.com/v2?key=1#top",
    )
    .unwrap();
    assert_eq!(url.as_str(), "https://api.example.com/v2/items?key=1#top");
}

#[test]
fn a_base_address_that_is_no_url_is_refused() {
    let r = synthesize(&endpoint("get", "/x"), &bound(Vec::new()), "not a url", &nobody());
    assert!(matches!(r, Err(Errors::UrlParseError(_))));
    let r = synthesize(&endpoint("get", "/x"), &bound(Vec::new()), "/relative/only", &nobody());
    assert!(matches!(r, Err(Errors::UrlParseError(_))));
}

#[test]
fn a_base_address_that_cannot_be_a_base_is_refused() {
    for base in ["mailto:a", "mailto:a?y", "data:text/plain,Stuff"] {
        let r = synthesize(&endpoint("get", "x?y"), &bound(Vec::new()), base, &nobody());
        assert!(matches!(r, Err(Errors::UrlCannotBeABase)));
        let r = handle_url_path(&endpoint("get", "/x"), &bound(Vec::new()), base);
        assert!(matches!(r, Err(Errors::UrlCannotBeABase)));
    }
}

#[test]
fn question_marks_and_hashes_of_the_path_are_escaped() {
    let r = request(
        "get",
        "/a?b#c",
        vec![value("n", ParameterLocation::Query, "v")],
    )
    .unwrap();
    assert_eq!(r.url.as_str(), "https://api.example.com/a%3Fb%23c?n=v");
    assert_eq!(r.url.path(), "/a%3Fb%23c");
    assert_eq!(r.url.query(), Some("n=v"));
    assert_eq!(r.url.fragment(), None);
}

#[test]
fn a_base_address_without_a_host_can_be_a_base() {
    let r = synthesize(
        &endpoint("get", "b"),
        &bound(vec![value("n", ParameterLocation::Query, "v")]),
        "unix:/run/a",
        &nobody(),
    )
    .unwrap();
    assert_eq!(r.url.as_str(), "unix:/run/a/b?n=v");
}

#[test]
fn query_values_become_query_pairs() {
    let r = request(
        "get",
        "/search",
        vec![
            value("q", ParameterLocation::Query, "rust"),
            value("page", ParameterLocation::Query, "2"),
        ],
    )
    .unwrap();
    assert_eq!(r.url.as_str(), "https://api.example.com/search?q=rust&page=2");
}

#[test]
fn query_values_are_escaped() {
    let r = request("get", "/search", vec![value("q", ParameterLocation::Query, "a b&c=d/\u{e9}")])
        .unwrap();
    assert_eq!(r.url.query(), Some("q=a+b%26c%3Dd%2F%C3%A9"));
}

#[test]
fn two_query_values_of_one_name_both_appear() {
    let r = request(
        "get",
        "/search",
        vec![
            value("tag", ParameterLocation::Query, "x"),
            value("tag", ParameterLocation::Query, "y"),
        ],
    )
    .unwrap();
    assert_eq!(r.url.as_str(), "https://api.example.com/search?tag=x&tag=y");
}

fn pairs(url: &url::Url) -> Vec<(String, String)> {
    url.query_pairs().into_owned().collect()
}

#[test]
fn reading_the_query_gives_the_bound_query_values_back() {
    let values = vec![
        ("plain", "value"),
        ("q", "a b&c=d+e%25 #?/\u{e9}\u{10348}"),
        ("", ""),
        ("empty", ""),
        ("", "nameless"),
        ("a=b", "c&d"),
        ("q", "again"),
    ];
    let bound_values: Vec<BoundValue> =
        values.iter().map(|(n, v)| value(n, ParameterLocation::Query, v)).collect();
    let r = request("get", "/search", bound_values).unwrap();
    let expected: Vec<(String, String)> =
        values.iter().map(|(n, v)| (n.to_string(), v.to_string())).collect();
    assert_eq!(pairs(&r.url), expected);
}

#[test]
fn the_pairs_of_the_base_address_come_first() {
    for base in [
        "https://api.example.com/v2?key=1&&x=%20y#frag",
        "https://api.example.com/v2?",
        "https://api.example.com/v2?lone",
        "https://api.example.com/v2?a=1&",
    ] {
        let before = pairs(&url::Url::parse(base).unwrap());
        let r = synthesize(
            &endpoint("get", "items/{id}"),
            &bound(vec![
                value("id", ParameterLocation::Path, "7?x#y"),
                value("n", ParameterLocation::Query, "v w"),
                value("X-A", ParameterLocation::Header, "h"),
                value("n", ParameterLocation::Query, "2"),
            ]),
            base,
            &nobody(),
        )
        .unwrap();
        let mut expected = before;
        expected.push(("n".to_string(), "v w".to_string()));
        expected.push(("n".to_string(), "2".to_string()));
        assert_eq!(pairs(&r.url), expected);
    }
}

#[test]
fn without_query_values_the_url_has_no_query() {
    let r = request("get", "/search", vec![value("X-A", ParameterLocation::Header, "1")]).unwrap();
    assert_eq!(r.url.query(), None);
    assert_eq!(r.url.as_str(), "https://api.example.com/search");
}

#[test]
fn apply_query_appends_after_the_pairs_already_there() {
    let url = handle_url_path(
        &endpoint("get", "/x"),
        &bound(Vec::new()),
        "https://api.example.com/?lang=fr#nav",
    )
    .unwrap();
    let url = apply_query(url, &bound(vec![value("foo", ParameterLocation::Query, "bar")])).unwrap();
    assert_eq!(url.as_str(), "https://api.example.com/x?lang=fr&foo=bar#nav");
}

#[test]
fn header_values_become_headers() {
    let r = request(
        "get",
        "/x",
        vec![
            value("X-Api-Key", ParameterLocation::Header, "secret"),
            value("Accept", ParameterLocation::Header, "text/plain"),
        ],
    )
    .unwrap();
    assert_eq!(r.headers.len(), 2);
    assert_eq!(header(&r, "x-api-key"), Some("secret"));
    assert_eq!(header(&r, "accept"), Some("text/plain"));
}

#[test]
fn header_names_are_held_in_lower_case() {
    let r = request("get", "/x", vec![value("X-Api-Key", ParameterLocation::Header, "v")]).unwrap();
    let names: Vec<&str> = r.headers.keys().map(|k| k.as_str()).collect();
    assert_eq!(names, vec!["x-api-key"]);
}

#[test]
fn a_later_header_of_the_same_name_replaces_the_earlier_one() {
    let r = request(
        "get",
        "/x",
        vec![
            value("X-A", ParameterLocation::Header, "1"),
            value("x-a", ParameterLocation::Header, "2"),
        ],
    )
    .unwrap();
    assert_eq!(r.headers.len(), 1);
    assert_eq!(header(&r, "x-a"), Some("2"));
}

#[test]
fn a_header_name_with_a_separator_is_refused() {
    let r = request("get", "/x", vec![value("bad name", ParameterLocation::Header, "v")]);
    assert!(matches!(r, Err(Errors::InvalidHeaderName { ref name, .. }) if name == "bad name"));
    let r = request("get", "/x", vec![value("a:b", ParameterLocation::Header, "v")]);
    assert!(matches!(r, Err(Errors::InvalidHeaderName { ref name, .. }) if name == "a:b"));
}

#[test]
fn a_header_name_outside_ascii_is_refused() {
    let r = request("get", "/x", vec![value("x-\u{e9}", ParameterLocation::Header, "v")]);
    assert!(matches!(r, Err(Errors::InvalidHeaderName { ref name, .. }) if name == "x-\u{e9}"));
}

#[test]
fn an_empty_header_name_is_refused() {
    let r = request("get", "/x", vec![value("", ParameterLocation::Header, "v")]);
    assert!(matches!(r, Err(Errors::InvalidHeaderName { ref name, .. }) if name.is_empty()));
}

#[test]
fn a_header_value_with_a_line_break_is_refused() {
    let r = request("get", "/x", vec![value("X-A", ParameterLocation::Header, "a\nb")]);
    assert!(matches!(r, Err(Errors::InvalidHeaderValue { ref name, .. }) if name == "X-A"));
    let r = request("get", "/x", vec![value("X-A", ParameterLocation::Header, "a\u{7f}")]);
    assert!(matches!(r, Err(Errors::InvalidHeaderValue { ref name, .. }) if name == "X-A"));
}

#[test]
fn a_header_value_may_hold_tabs_and_bytes_above_ascii() {
    let r = request("get", "/x", vec![value("X-A", ParameterLocation::Header, "a\tb \u{e9}")])
        .unwrap();
    assert_eq!(r.headers.get("x-a").unwrap().as_bytes(), "a\tb \u{e9}".as_bytes());
}

#[test]
fn the_name_is_checked_before_the_value() {
    let r = request("get", "/x", vec![value("bad name", ParameterLocation::Header, "a\nb")]);
    assert!(matches!(r, Err(Errors::InvalidHeaderName { .. })));
}

#[test]
fn as_many_headers_as_the_map_has_room_for_are_accepted() {
    let values: Vec<BoundValue> = (0..4096)
        .map(|i| value(&format!("x-h{}", i), ParameterLocation::Header, "v"))
        .collect();
    let r = request("get", "/x", values).unwrap();
    assert_eq!(r.headers.len(), 4096);
}

#[test]
fn one_header_more_than_the_map_has_room_for_is_refused() {
    let values: Vec<BoundValue> = (0..4097)
        .map(|i| value(&format!("x-h{}", i), ParameterLocation::Header, "v"))
        .collect();
    assert!(matches!(request("get", "/x", values), Err(Errors::RequestTooLarge)));
}

#[test]
fn headers_of_one_name_take_up_one_place() {
    let values: Vec<BoundValue> =
        (0..5000).map(|i| value("x-same", ParameterLocation::Header, &format!("{}", i))).collect();
    let r = request("get", "/x", values).unwrap();
    assert_eq!(r.headers.len(), 1);
    assert_eq!(header(&r, "x-same"), Some("4999"));
}

#[test]
fn a_full_map_takes_no_credentials() {
    let values: Vec<BoundValue> = (0..4096)
        .map(|i| value(&format!("x-h{}", i), ParameterLocation::Header, "v"))
        .collect();
    let credentials = Credentials { basic: None, bearer: Some("tok".to_string()) };
    let r = synthesize(&endpoint("get", "/x"), &bound(values), BASE, &credentials);
    assert!(matches!(r, Err(Errors::RequestTooLarge)));
}

#[test]
fn put_header_leaves_the_map_as_it_was_where_it_fails() {
    let mut map = reqwest::header::HeaderMap::new();
    put_header(&mut map, "p", "X-One", "1").unwrap();
    let refused = put_header(&mut map, "p", "bad name", "2");
    assert!(matches!(refused, Err(Errors::InvalidHeaderName { ref name, .. }) if name == "p"));
    let refused = put_header(&mut map, "q", "X-One", "a\rb");
    assert!(matches!(refused, Err(Errors::InvalidHeaderValue { ref name, .. }) if name == "q"));
    assert_eq!(map.len(), 1);
    assert_eq!(map.get("x-one").unwrap(), "1");
}

#[test]
fn bound_headers_takes_header_values_only() {
    let map = bound_headers(&bound(vec![
        value("q", ParameterLocation::Query, "1"),
        value("X-A", ParameterLocation::Header, "a"),
        value("id", ParameterLocation::Path, "2"),
        value("body", ParameterLocation::Body, "not json"),
    ]))
    .unwrap();
    assert_eq!(map.len(), 1);
    assert_eq!(map.get("x-a").unwrap(), "a");
}

#[test]
fn authorize_without_a_token_changes_nothing() {
    let mut map = reqwest::header::HeaderMap::new();
    authorize(&mut map, "Basic ", &None).unwrap();
    assert!(map.is_empty());
    authorize(&mut map, "Basic ", &Some("abc".to_string())).unwrap();
    assert_eq!(map.get("authorization").unwrap(), "Basic abc");
}

#[test]
fn a_json_body_becomes_the_body() {
    let r = request("post", "/items", vec![value("body", ParameterLocation::Body, "{\"a\":1}")])
        .unwrap();
    let mut expected = serde_json::Map::new();
    expected.insert("a".to_string(), serde_json::Value::from(1));
    assert_eq!(r.body, Some(serde_json::Value::Object(expected)));
}

#[test]
fn a_body_that_is_not_json_is_refused() {
    let r = request("post", "/items", vec![value("body", ParameterLocation::Body, "not json")]);
    assert!(matches!(r, Err(Errors::SerdeJsonError(_))));
}

#[test]
fn without_a_body_value_there_is_no_body() {
    let r = request("post", "/items", vec![value("q", ParameterLocation::Query, "1")]).unwrap();
    assert_eq!(r.body, None);
}

#[test]
fn parse_body_takes_the_last_body_value_and_checks_all() {
    let body = parse_body(&bound(vec![
        value("body", ParameterLocation::Body, "1"),
        value("body", ParameterLocation::Body, "[true, null]"),
    ]))
    .unwrap();
    assert_eq!(
        body,
        Some(serde_json::Value::Array(vec![serde_json::Value::Bool(true), serde_json::Value::Null]))
    );
    let refused = parse_body(&bound(vec![
        value("body", ParameterLocation::Body, "{"),
        value("body", ParameterLocation::Body, "1"),
    ]));
    assert!(matches!(refused, Err(Errors::SerdeJsonError(_))));
}

#[test]
fn the_four_methods_are_accepted_in_any_case() {
    assert_eq!(parse_method("get").unwrap(), HttpMethod::Get);
    assert_eq!(parse_method("POST").unwrap(), HttpMethod::Post);
    assert_eq!(parse_method("Put").unwrap(), HttpMethod::Put);
    assert_eq!(parse_method("dElEtE").unwrap(), HttpMethod::Delete);
    assert_eq!(request("DELETE", "/x", Vec::new()).unwrap().method, HttpMethod::Delete);
}

#[test]
fn patch_is_not_a_supported_method() {
    let r = request("patch", "/x", Vec::new());
    assert!(matches!(r, Err(Errors::UnsupportedHttpMethodError { ref method }) if method == "patch"));
}

#[test]
fn other_method_texts_are_refused_with_the_text() {
    for text in ["", "gets", "head", "OPTIONS", "ge t"] {
        let r = parse_method(text);
        assert!(
            matches!(r, Err(Errors::UnsupportedHttpMethodError { ref method }) if method == text)
        );
    }
}

#[test]
fn the_method_is_checked_after_the_bound_values() {
    let r = request("patch", "/x", vec![value("body", ParameterLocation::Body, "not json")]);
    assert!(matches!(r, Err(Errors::SerdeJsonError(_))));
    let r = synthesize(&endpoint("patch", "/x"), &bound(Vec::new()), "nonsense", &nobody());
    assert!(matches!(r, Err(Errors::UrlParseError(_))));
}

#[test]
fn headers_are_checked_before_the_body() {
    let r = request(
        "post",
        "/x",
        vec![
            value("body", ParameterLocation::Body, "not json"),
            value("bad name", ParameterLocation::Header, "v"),
        ],
    );
    assert!(matches!(r, Err(Errors::InvalidHeaderName { .. })));
}

#[test]
fn the_basic_token_sets_the_authorization_header() {
    let credentials = Credentials { basic: Some("dXNlcjpwdw==".to_string()), bearer: None };
    let r = synthesize(&endpoint("get", "/x"), &bound(Vec::new()), BASE, &credentials).unwrap();
    assert_eq!(header(&r, "authorization"), Some("Basic dXNlcjpwdw=="));
    assert_eq!(r.headers.get(reqwest::header::AUTHORIZATION).unwrap(), "Basic dXNlcjpwdw==");
}

#[test]
fn the_bearer_token_sets_the_authorization_header() {
    let credentials = Credentials { basic: None, bearer: Some("tok".to_string()) };
    let r = synthesize(&endpoint("get", "/x"), &bound(Vec::new()), BASE, &credentials).unwrap();
    assert_eq!(header(&r, "authorization"), Some("Bearer tok"));
}

#[test]
fn the_bearer_token_replaces_the_basic_token() {
    let credentials =
        Credentials { basic: Some("abc".to_string()), bearer: Some("tok".to_string()) };
    let r = synthesize(&endpoint("get", "/x"), &bound(Vec::new()), BASE, &credentials).unwrap();
    assert_eq!(r.headers.len(), 1);
    assert_eq!(r.headers.get_all("authorization").iter().count(), 1);
    assert_eq!(header(&r, "authorization"), Some("Bearer tok"));
}

#[test]
fn credentials_replace_a_bound_authorization_header() {
    let credentials = Credentials { basic: None, bearer: Some("tok".to_string()) };
    let r = synthesize(
        &endpoint("get", "/x"),
        &bound(vec![value("Authorization", ParameterLocation::Header, "mine")]),
        BASE,
        &credentials,
    )
    .unwrap();
    assert_eq!(header(&r, "authorization"), Some("Bearer tok"));
}

#[test]
fn a_token_that_no_header_can_carry_is_refused() {
    let credentials = Credentials { basic: Some("a\nb".to_string()), bearer: None };
    let r = synthesize(&endpoint("get", "/x"), &bound(Vec::new()), BASE, &credentials);
    assert!(matches!(r, Err(Errors::InvalidHeaderValue { ref name, .. }) if name == "authorization"));
}

#[test]
fn without_credentials_there_is_no_authorization_header() {
    let r = request("get", "/x", Vec::new()).unwrap();
    assert!(r.headers.is_empty());
}

#[test]
fn a_whole_request_is_made_of_supplied_values() {
    let ep = Endpoint {
        name: "updateItem".to_string(),
        method: "put".to_string(),
        path: "items/{id}".to_string(),
        params: vec![
            Parameter {
                name: "id".to_string(),
                location: ParameterLocation::Path,
                required: true,
                param_type: "string".to_string(),
            },
            Parameter {
                name: "dry".to_string(),
                location: ParameterLocation::Query,
                required: false,
                param_type: "string".to_string(),
            },
            Parameter {
                name: "X-Trace".to_string(),
                location: ParameterLocation::Header,
                required: false,
                param_type: "string".to_string(),
            },
            Parameter {
                name: "body".to_string(),
                location: ParameterLocation::Body,
                required: true,
                param_type: "json".to_string(),
            },
        ],
    };
    let mut supplied = SuppliedValues::new();
    supplied.supply("body".to_string(), "[1,2]".to_string());
    supplied.supply("id".to_string(), "9".to_string());
    supplied.supply("X-Trace".to_string(), "abc".to_string());
    let r = prepare_request(&ep, &supplied, BASE, &nobody()).unwrap();
    assert_eq!(r.method, HttpMethod::Put);
    assert_eq!(r.url.as_str(), "https://api.example.com/v2/items/9");
    assert_eq!(header(&r, "x-trace"), Some("abc"));
    assert_eq!(
        r.body,
        Some(serde_json::Value::Array(vec![serde_json::Value::from(1), serde_json::Value::from(2)]))
    );
}

#[test]
fn nothing_is_synthesized_where_a_required_parameter_is_missing() {
    let ep = Endpoint {
        name: "op".to_string(),
        method: "patch".to_string(),
        path: "/x".to_string(),
        params: vec![Parameter {
            name: "id".to_string(),
            location: ParameterLocation::Path,
            required: true,
            param_type: "string".to_string(),
        }],
    };
    let r = prepare_request(&ep, &SuppliedValues::new(), "not a url", &nobody());
    assert!(matches!(r, Err(Errors::MissingRequiredParameterError { ref name }) if name == "id"));
}
