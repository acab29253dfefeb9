use openapi_cli::openapi::{
    extract_endpoints, has_distinct_paths, parse_endpoints, parse_params, supports_document, supports_operation,
    try_parse_endpoints,
    DeclaredLocation, DeclaredParameter, Document, HttpMethod, Operation, ParameterLocation,
    PathEntry, PathItem, ReferenceOr, RequestBody,
};

fn declared(name: &str, location: DeclaredLocation, required: bool) -> ReferenceOr<DeclaredParameter> {
    ReferenceOr::Item(DeclaredParameter { name: name.to_string(), location, required })
}

fn operation(id: Option<&str>) -> Operation {
    Operation { operation_id: id.map(|s| s.to_string()), parameters: Vec::new(), request_body: None }
}

fn no_operations() -> PathItem {
    PathItem { get: None, post: None, put: None, delete: None }
}

fn document(paths: Vec<PathEntry>) -> Document {
    Document { paths, servers: Vec::new() }
}

#[test]
fn one_operation_for_each_declared_method_in_the_order_get_post_put_delete() {
    let item = PathItem {
        get: Some(operation(None)),
        post: Some(operation(None)),
        put: Some(operation(None)),
        delete: Some(operation(None)),
    };
    let doc = document(vec![PathEntry { path: "/items".to_string(), item: ReferenceOr::Item(item) }]);
    assert!(supports_document(&doc));
    let endpoints = extract_endpoints(&doc);
    let methods: Vec<&str> = endpoints.iter().map(|e| e.method.as_str()).collect();
    assert_eq!(methods, vec!["get", "post", "put", "delete"]);
    for endpoint in &endpoints {
        assert_eq!(endpoint.path, "/items");
    }
}

#[test]
fn no_operation_for_a_method_that_the_path_does_not_declare() {
    let mut item = no_operations();
    item.put = Some(operation(None));
    let doc = document(vec![
        PathEntry { path: "/a".to_string(), item: ReferenceOr::Item(item) },
        PathEntry { path: "/b".to_string(), item: ReferenceOr::Item(no_operations()) },
    ]);
    let endpoints = extract_endpoints(&doc);
    assert_eq!(endpoints.len(), 1);
    assert_eq!(endpoints[0].method, "put");
    assert_eq!(endpoints[0].path, "/a");
}

#[test]
fn paths_come_in_document_order() {
    let mut first = no_operations();
    first.delete = Some(operation(None));
    let mut second = no_operations();
    second.get = Some(operation(None));
    let doc = document(vec![
        PathEntry { path: "/z".to_string(), item: ReferenceOr::Item(first) },
        PathEntry { path: "/a".to_string(), item: ReferenceOr::Item(second) },
    ]);
    let endpoints = extract_endpoints(&doc);
    let seen: Vec<(&str, &str)> =
        endpoints.iter().map(|e| (e.path.as_str(), e.method.as_str())).collect();
    assert_eq!(seen, vec![("/z", "delete"), ("/a", "get")]);
}

#[test]
fn an_empty_document_has_an_empty_catalog() {
    let doc = document(Vec::new());
    assert!(supports_document(&doc));
    assert!(extract_endpoints(&doc).is_empty());
}

#[test]
fn a_path_given_by_reference_has_no_operations() {
    let doc = document(vec![PathEntry {
        path: "/elsewhere".to_string(),
        item: ReferenceOr::Reference { reference: "#/components/pathItems/x".to_string() },
    }]);
    assert!(supports_document(&doc));
    assert!(extract_endpoints(&doc).is_empty());
}

#[test]
fn the_name_is_the_operation_id_where_there_is_one() {
    let mut item = no_operations();
    item.get = Some(operation(Some("listUsers")));
    let doc = document(vec![PathEntry { path: "/users".to_string(), item: ReferenceOr::Item(item) }]);
    let endpoints = extract_endpoints(&doc);
    assert_eq!(endpoints[0].name, "listUsers");
}

#[test]
fn the_name_is_made_of_method_and_path_where_there_is_no_operation_id() {
    let mut item = no_operations();
    item.get = Some(operation(None));
    item.delete = Some(operation(None));
    let doc = document(vec![PathEntry {
        path: "/users/{id}".to_string(),
        item: ReferenceOr::Item(item),
    }]);
    let endpoints = extract_endpoints(&doc);
    assert_eq!(endpoints[0].name, "get__users_{id}");
    assert_eq!(endpoints[1].name, "delete__users_{id}");
}

#[test]
fn parameters_keep_name_location_and_required_flag() {
    let ps = vec![
        declared("page", DeclaredLocation::Query, false),
        declared("id", DeclaredLocation::Path, true),
        declared("X-Trace", DeclaredLocation::Header, false),
    ];
    let params = parse_params(&ps);
    assert_eq!(params.len(), 3);
    assert_eq!(params[0].name, "page");
    assert_eq!(params[0].location, ParameterLocation::Query);
    assert!(!params[0].required);
    assert_eq!(params[0].param_type, "string");
    assert_eq!(params[1].name, "id");
    assert_eq!(params[1].location, ParameterLocation::Path);
    assert!(params[1].required);
    assert_eq!(params[2].name, "X-Trace");
    assert_eq!(params[2].location, ParameterLocation::Header);
}

#[test]
fn a_request_body_adds_the_body_parameter_last() {
    let mut op = operation(None);
    op.parameters = vec![declared("id", DeclaredLocation::Path, true)];
    op.request_body = Some(ReferenceOr::Item(RequestBody { required: true }));
    let mut item = no_operations();
    item.post = Some(op);
    let doc = document(vec![PathEntry { path: "/items/{id}".to_string(), item: ReferenceOr::Item(item) }]);
    let endpoints = extract_endpoints(&doc);
    let params = &endpoints[0].params;
    assert_eq!(params.len(), 2);
    assert_eq!(params[1].name, "body");
    assert_eq!(params[1].location, ParameterLocation::Body);
    assert!(params[1].required);
    assert_eq!(params[1].param_type, "json");
}

#[test]
fn the_body_parameter_takes_its_required_flag_from_the_body() {
    let mut op = operation(None);
    op.request_body = Some(ReferenceOr::Item(RequestBody { required: false }));
    let mut item = no_operations();
    item.put = Some(op);
    let doc = document(vec![PathEntry { path: "/x".to_string(), item: ReferenceOr::Item(item) }]);
    let endpoints = extract_endpoints(&doc);
    assert!(!endpoints[0].params[0].required);
}

#[test]
fn no_body_parameter_without_a_request_body() {
    let mut item = no_operations();
    item.post = Some(operation(None));
    let doc = document(vec![PathEntry { path: "/x".to_string(), item: ReferenceOr::Item(item) }]);
    assert!(extract_endpoints(&doc)[0].params.is_empty());
}

#[test]
fn cookie_parameters_are_not_supported() {
    let mut op = operation(None);
    op.parameters = vec![
        declared("page", DeclaredLocation::Query, false),
        declared("session", DeclaredLocation::Cookie, false),
    ];
    assert!(!supports_operation(&op));
    let mut item = no_operations();
    item.delete = Some(op);
    let doc = document(vec![PathEntry { path: "/x".to_string(), item: ReferenceOr::Item(item) }]);
    assert!(!supports_document(&doc));
}

#[test]
fn parameters_given_by_reference_are_not_supported() {
    let mut op = operation(None);
    op.parameters = vec![ReferenceOr::Reference { reference: "#/components/parameters/p".to_string() }];
    assert!(!supports_operation(&op));
}

#[test]
fn a_request_body_given_by_reference_is_not_supported() {
    let mut op = operation(None);
    op.request_body =
        Some(ReferenceOr::Reference { reference: "#/components/requestBodies/b".to_string() });
    assert!(!supports_operation(&op));
    let mut item = no_operations();
    item.get = Some(op);
    let doc = document(vec![
        PathEntry { path: "/fine".to_string(), item: ReferenceOr::Item(no_operations()) },
        PathEntry { path: "/x".to_string(), item: ReferenceOr::Item(item) },
    ]);
    assert!(!supports_document(&doc));
}

#[test]
fn parse_endpoints_keeps_the_document_beside_its_catalog() {
    let mut item = no_operations();
    item.get = Some(operation(Some("ping")));
    let mut doc = document(vec![PathEntry { path: "/ping".to_string(), item: ReferenceOr::Item(item) }]);
    doc.servers = vec!["https://api.example.com".to_string()];
    let parsed = parse_endpoints(doc);
    assert_eq!(parsed.spec.servers, vec!["https://api.example.com".to_string()]);
    assert_eq!(parsed.spec.paths.len(), 1);
    assert_eq!(parsed.endpoints.len(), 1);
    assert_eq!(parsed.endpoints[0].name, "ping");
}

#[test]
fn method_names_are_in_lower_case() {
    assert_eq!(HttpMethod::Get.as_str(), "get");
    assert_eq!(HttpMethod::Post.as_str(), "post");
    assert_eq!(HttpMethod::Put.as_str(), "put");
    assert_eq!(HttpMethod::Delete.as_str(), "delete");
}

#[test]
fn a_document_with_a_cookie_parameter_is_refused_at_once() {
    let mut op = operation(None);
    op.parameters = vec![declared("session", DeclaredLocation::Cookie, true)];
    let mut item = no_operations();
    item.get = Some(op);
    let doc = document(vec![PathEntry { path: "/x".to_string(), item: ReferenceOr::Item(item) }]);
    assert!(try_parse_endpoints(doc).is_none());
}

#[test]
fn a_supported_document_is_taken_over() {
    let mut item = no_operations();
    item.get = Some(operation(Some("ping")));
    let doc = document(vec![PathEntry { path: "/ping".to_string(), item: ReferenceOr::Item(item) }]);
    let parsed = try_parse_endpoints(doc).unwrap();
    assert_eq!(parsed.endpoints.len(), 1);
    assert_eq!(parsed.endpoints[0].method, "get");
}

#[test]
fn a_document_that_names_a_path_twice_has_no_distinct_paths() {
    let entry = |path: &str| PathEntry {
        path: path.to_string(),
        item: ReferenceOr::Item(no_operations()),
    };
    assert!(has_distinct_paths(&document(vec![entry("/a"), entry("/b"), entry("/c")])));
    assert!(!has_distinct_paths(&document(vec![entry("/a"), entry("/b"), entry("/a")])));
    assert!(has_distinct_paths(&document(Vec::new())));
}
