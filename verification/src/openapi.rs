//! The operation catalog: the operations that an interface description
//! declares, each with its parameters.

use crate::text::{same_text, slashes_to_underscores, underscore_slashes};
use vstd::pervasive::unreached;
use vstd::prelude::*;
use vstd::string::StringExecFns;

verus! {

/// Where a parameter's value is placed in the request.
#[derive(Debug, Clone, Copy, PartialEq, Eq, Structural)]
pub enum ParameterLocation {
    Query,
    Body,
    Path,
    Header,
}

/// One parameter of an operation.
#[derive(Debug, Clone)]
pub struct Parameter {
    pub name: String,
    pub location: ParameterLocation,
    pub required: bool,
    pub param_type: String,
}

/// A parameter as the contracts see it.
pub struct ParameterView {
    pub name: Seq<char>,
    pub location: ParameterLocation,
    pub required: bool,
    pub param_type: Seq<char>,
}

impl View for Parameter {
    type V = ParameterView;

    open spec fn view(&self) -> ParameterView {
        ParameterView {
            name: self.name@,
            location: self.location,
            required: self.required,
            param_type: self.param_type@,
        }
    }
}

/// The views of a sequence of parameters.
pub open spec fn parameter_views(params: Seq<Parameter>) -> Seq<ParameterView> {
    params.map_values(|p: Parameter| p@)
}

/// One invocable operation: a method and path with their parameters.
#[derive(Debug, Clone)]
pub struct Endpoint {
    pub name: String,
    pub method: String,
    pub path: String,
    pub params: Vec<Parameter>,
}

/// An operation as the contracts see it.
pub struct EndpointView {
    pub name: Seq<char>,
    pub method: Seq<char>,
    pub path: Seq<char>,
    pub params: Seq<ParameterView>,
}

impl View for Endpoint {
    type V = EndpointView;

    open spec fn view(&self) -> EndpointView {
        EndpointView {
            name: self.name@,
            method: self.method@,
            path: self.path@,
            params: parameter_views(self.params@),
        }
    }
}

/// The views of a sequence of operations.
pub open spec fn endpoint_views(endpoints: Seq<Endpoint>) -> Seq<EndpointView> {
    endpoints.map_values(|e: Endpoint| e@)
}

/// The verbs that a request can be sent with.
#[derive(Debug, Clone, Copy, PartialEq, Eq, Structural)]
pub enum HttpMethod {
    Get,
    Post,
    Put,
    Delete,
}

impl HttpMethod {
    /// The verb in lower case, as the catalog writes it.
    pub open spec fn name(self) -> Seq<char> {
        match self {
            HttpMethod::Get => "get"@,
            HttpMethod::Post => "post"@,
            HttpMethod::Put => "put"@,
            HttpMethod::Delete => "delete"@,
        }
    }

    /// The verb in lower case, as the catalog writes it.
    pub fn as_str(&self) -> (name: &'static str)
        ensures
            name@ == self.name(),
    {
        match self {
            HttpMethod::Get => "get",
            HttpMethod::Post => "post",
            HttpMethod::Put => "put",
            HttpMethod::Delete => "delete",
        }
    }
}

/// Either a declaration, or a reference to one that stands elsewhere in the
/// document.
#[derive(Debug, Clone)]
pub enum ReferenceOr<T> {
    Reference { reference: String },
    Item(T),
}

/// Where a document declares a parameter to be placed.
#[derive(Debug, Clone, Copy, PartialEq, Eq, Structural)]
pub enum DeclaredLocation {
    Query,
    Header,
    Path,
    Cookie,
}

/// A parameter as a document declares it.
#[derive(Debug, Clone)]
pub struct DeclaredParameter {
    pub name: String,
    pub location: DeclaredLocation,
    pub required: bool,
}

/// The request body that a document declares for an operation.
#[derive(Debug, Clone)]
pub struct RequestBody {
    pub required: bool,
}

/// An operation as a document declares it.
#[derive(Debug, Clone)]
pub struct Operation {
    pub operation_id: Option<String>,
    pub parameters: Vec<ReferenceOr<DeclaredParameter>>,
    pub request_body: Option<ReferenceOr<RequestBody>>,
}

/// The operations that a document declares under one path.
#[derive(Debug, Clone)]
pub struct PathItem {
    pub get: Option<Operation>,
    pub post: Option<Operation>,
    pub put: Option<Operation>,
    pub delete: Option<Operation>,
}

/// One path of a document, with what is declared under it.
#[derive(Debug, Clone)]
pub struct PathEntry {
    pub path: String,
    pub item: ReferenceOr<PathItem>,
}

/// An interface description: its paths in document order, and the addresses
/// of its servers.
#[derive(Debug, Clone)]
pub struct Document {
    pub paths: Vec<PathEntry>,
    pub servers: Vec<String>,
}

/// A document together with the operations derived from it.
#[derive(Debug, Clone)]
pub struct ParsedSpec {
    pub spec: Document,
    pub endpoints: Vec<Endpoint>,
}

/// The request location that stands for a declared location. Cookies have
/// none.
pub open spec fn wire_location(location: DeclaredLocation) -> Option<ParameterLocation> {
    match location {
        DeclaredLocation::Query => Some(ParameterLocation::Query),
        DeclaredLocation::Header => Some(ParameterLocation::Header),
        DeclaredLocation::Path => Some(ParameterLocation::Path),
        DeclaredLocation::Cookie => None,
    }
}

/// Whether the catalog can take a parameter over: it is declared in place
/// and not placed in a cookie.
pub open spec fn parameter_supported(declared: ReferenceOr<DeclaredParameter>) -> bool {
    declared matches ReferenceOr::Item(parameter) && wire_location(parameter.location) is Some
}

/// The parameter that the catalog makes of a supported declaration: same
/// name, location and required flag, typed as text.
pub open spec fn declared_parameter(declared: ReferenceOr<DeclaredParameter>) -> ParameterView {
    let parameter = declared->Item_0;
    ParameterView {
        name: parameter.name@,
        location: wire_location(parameter.location)->Some_0,
        required: parameter.required,
        param_type: "string"@,
    }
}

/// The parameters that the catalog makes of supported declarations, in
/// their order.
pub open spec fn declared_parameters(declared: Seq<ReferenceOr<DeclaredParameter>>) -> Seq<
    ParameterView,
> {
    declared.map_values(|d: ReferenceOr<DeclaredParameter>| declared_parameter(d))
}

/// The parameter that stands for the request body of an operation.
pub open spec fn body_parameter(body: RequestBody) -> ParameterView {
    ParameterView {
        name: "body"@,
        location: ParameterLocation::Body,
        required: body.required,
        param_type: "json"@,
    }
}

/// Whether the catalog can take an operation over: all its parameters are
/// supported and its request body, if any, is declared in place.
pub open spec fn operation_supported(operation: Operation) -> bool {
    &&& forall|i: int|
        0 <= i < operation.parameters@.len() ==> parameter_supported(
            #[trigger] operation.parameters@[i],
        )
    &&& operation.request_body matches Some(body) ==> body is Item
}

/// The parameters of an operation: the declared ones in their order, then
/// the body parameter if and only if the operation declares a request body.
pub open spec fn operation_parameters(operation: Operation) -> Seq<ParameterView> {
    let declared = declared_parameters(operation.parameters@);
    match operation.request_body {
        Some(ReferenceOr::Item(body)) => declared.push(body_parameter(body)),
        _ => declared,
    }
}

/// The name of an operation: its identifier where the document gives one,
/// else the method, an underscore, and the path with underscores for its
/// slashes.
pub open spec fn operation_name(method: HttpMethod, path: Seq<char>, operation: Operation) -> Seq<
    char,
> {
    match operation.operation_id {
        Some(id) => id@,
        None => method.name() + seq!['_'] + slashes_to_underscores(path),
    }
}

/// The catalog entry of the operation declared for `method` under `path`.
pub open spec fn endpoint_of(method: HttpMethod, path: Seq<char>, operation: Operation) -> EndpointView {
    EndpointView {
        name: operation_name(method, path, operation),
        method: method.name(),
        path,
        params: operation_parameters(operation),
    }
}

/// The operation that a path item declares for `method`, if any.
pub open spec fn handler(item: PathItem, method: HttpMethod) -> Option<Operation> {
    match method {
        HttpMethod::Get => item.get,
        HttpMethod::Post => item.post,
        HttpMethod::Put => item.put,
        HttpMethod::Delete => item.delete,
    }
}

/// The catalog entries for one method of a path item: one where the item
/// declares an operation for the method, none where it does not.
pub open spec fn method_endpoints(method: HttpMethod, path: Seq<char>, item: PathItem) -> Seq<
    EndpointView,
> {
    match handler(item, method) {
        Some(operation) => seq![endpoint_of(method, path, operation)],
        None => Seq::empty(),
    }
}

/// The catalog entries of a path item, in the order GET, POST, PUT, DELETE.
pub open spec fn item_endpoints(path: Seq<char>, item: PathItem) -> Seq<EndpointView> {
    method_endpoints(HttpMethod::Get, path, item) + method_endpoints(HttpMethod::Post, path, item)
        + method_endpoints(HttpMethod::Put, path, item) + method_endpoints(
        HttpMethod::Delete,
        path,
        item,
    )
}

/// The catalog entries of one path of a document. A path that only refers
/// to a declaration elsewhere has none.
pub open spec fn entry_endpoints(entry: PathEntry) -> Seq<EndpointView> {
    match entry.item {
        ReferenceOr::Item(item) => item_endpoints(entry.path@, item),
        ReferenceOr::Reference { .. } => Seq::empty(),
    }
}

/// The catalog of a document: the entries of its paths, in document order.
pub open spec fn catalog(paths: Seq<PathEntry>) -> Seq<EndpointView>
    decreases paths.len(),
{
    if paths.len() == 0 {
        Seq::empty()
    } else {
        catalog(paths.drop_last()) + entry_endpoints(paths.last())
    }
}

/// Whether the catalog can take a path item over: each operation that it
/// declares for one of the four methods is supported.
pub open spec fn item_supported(item: PathItem) -> bool {
    forall|method: HttpMethod| #[trigger]
        handler(item, method) matches Some(operation) ==> operation_supported(operation)
}

/// Whether the catalog can take a path over.
pub open spec fn entry_supported(entry: PathEntry) -> bool {
    entry.item matches ReferenceOr::Item(item) ==> item_supported(item)
}

/// Whether the catalog can take a document over: no operation under any of
/// its paths has a cookie parameter, a parameter declared by reference, or
/// a request body declared by reference.
pub open spec fn document_supported(document: Document) -> bool {
    forall|i: int| 0 <= i < document.paths@.len() ==> entry_supported(#[trigger] document.paths@[i])
}

/// Whether the catalog can take `operation` over.
pub fn supports_operation(operation: &Operation) -> (supported: bool)
    ensures
        supported == operation_supported(*operation),
{
    let mut i: usize = 0;
    while i < operation.parameters.len()
        invariant
            i <= operation.parameters.len(),
            forall|j: int| 0 <= j < i ==> parameter_supported(#[trigger] operation.parameters@[j]),
        decreases operation.parameters.len() - i,
    {
        match &operation.parameters[i] {
            ReferenceOr::Item(declared) => {
                match declared.location {
                    DeclaredLocation::Cookie => {
                        return false;
                    },
                    _ => {},
                }
            },
            ReferenceOr::Reference { .. } => {
                return false;
            },
        }
        i += 1;
    }
    match &operation.request_body {
        Some(ReferenceOr::Reference { .. }) => false,
        _ => true,
    }
}

/// Whether the catalog can take the operation in `slot` over, if there is
/// one.
fn supports_slot(slot: &Option<Operation>) -> (supported: bool)
    ensures
        supported == (*slot matches Some(operation) ==> operation_supported(operation)),
{
    match slot {
        Some(operation) => supports_operation(operation),
        None => true,
    }
}

/// Whether the catalog can take `document` over. `extract_endpoints` and
/// `parse_endpoints` are for documents that pass.
pub fn supports_document(document: &Document) -> (supported: bool)
    ensures
        supported == document_supported(*document),
{
    let mut i: usize = 0;
    while i < document.paths.len()
        invariant
            i <= document.paths.len(),
            forall|j: int| 0 <= j < i ==> entry_supported(#[trigger] document.paths@[j]),
        decreases document.paths.len() - i,
    {
        match &document.paths[i].item {
            ReferenceOr::Item(item) => {
                let supported = supports_slot(&item.get) && supports_slot(&item.post)
                    && supports_slot(&item.put) && supports_slot(&item.delete);
                if !supported {
                    assert(!item_supported(*item)) by {
                        if item_supported(*item) {
                            assert(handler(*item, HttpMethod::Get) == item.get);
                            assert(handler(*item, HttpMethod::Post) == item.post);
                            assert(handler(*item, HttpMethod::Put) == item.put);
                            assert(handler(*item, HttpMethod::Delete) == item.delete);
                        }
                    }
                    return false;
                }
            },
            ReferenceOr::Reference { .. } => {},
        }
        i += 1;
    }
    true
}

/// Takes the declared parameters of an operation over into the catalog.
pub fn parse_params(ps: &Vec<ReferenceOr<DeclaredParameter>>) -> (params: Vec<Parameter>)
    requires
        forall|i: int| 0 <= i < ps@.len() ==> parameter_supported(#[trigger] ps@[i]),
    ensures
        parameter_views(params@) == declared_parameters(ps@),
{
    let mut params: Vec<Parameter> = Vec::new();
    let mut i: usize = 0;
    while i < ps.len()
        invariant
            i <= ps.len(),
            forall|i: int| 0 <= i < ps@.len() ==> parameter_supported(#[trigger] ps@[i]),
            parameter_views(params@) == declared_parameters(ps@.take(i as int)),
        decreases ps.len() - i,
    {
        let ghost before = params@;
        match &ps[i] {
            ReferenceOr::Item(declared) => {
                let location = match declared.location {
                    DeclaredLocation::Query => ParameterLocation::Query,
                    DeclaredLocation::Header => ParameterLocation::Header,
                    DeclaredLocation::Path => ParameterLocation::Path,
                    DeclaredLocation::Cookie => unreached(),
                };
                let param = Parameter {
                    name: declared.name.clone(),
                    location,
                    required: declared.required,
                    param_type: "string".to_owned(),
                };
                params.push(param);
                assert(parameter_views(params@) == parameter_views(before).push(param@));
            },
            ReferenceOr::Reference { .. } => unreached(),
        }
        i += 1;
    }
    params
}

/// The operation that `path_item` declares for `method`, if any.
pub fn handler_of(path_item: &PathItem, method: HttpMethod) -> (operation: Option<&Operation>)
    ensures
        match operation {
            Some(op) => handler(*path_item, method) == Some(*op),
            None => handler(*path_item, method) is None,
        },
{
    match method {
        HttpMethod::Get => path_item.get.as_ref(),
        HttpMethod::Post => path_item.post.as_ref(),
        HttpMethod::Put => path_item.put.as_ref(),
        HttpMethod::Delete => path_item.delete.as_ref(),
    }
}

/// Adds to `endpoints` the catalog entry for `method` under `path`, where
/// `path_item` declares an operation for it.
pub fn add_endpoint_for_method(
    method: HttpMethod,
    path: &str,
    path_item: &PathItem,
    endpoints: &mut Vec<Endpoint>,
)
    requires
        handler(*path_item, method) matches Some(operation) ==> operation_supported(operation),
    ensures
        endpoint_views(final(endpoints)@) == endpoint_views(old(endpoints)@) + method_endpoints(
            method,
            path@,
            *path_item,
        ),
{
    if let Some(op) = handler_of(path_item, method) {
        let name = match &op.operation_id {
            Some(id) => id.clone(),
            None => {
                let mut name = method.as_str().to_owned();
                name.push('_');
                name.append(underscore_slashes(path).as_str());
                assert(name@ =~= method.name() + seq!['_'] + slashes_to_underscores(path@));
                name
            },
        };
        let mut parsed_params = parse_params(&op.parameters);
        match &op.request_body {
            Some(ReferenceOr::Item(body)) => {
                let ghost before = parsed_params@;
                let param = Parameter {
                    name: "body".to_owned(),
                    location: ParameterLocation::Body,
                    required: body.required,
                    param_type: "json".to_owned(),
                };
                parsed_params.push(param);
                assert(parameter_views(parsed_params@) == parameter_views(before).push(param@));
            },
            Some(ReferenceOr::Reference { .. }) => unreached(),
            None => {},
        }
        let endpoint = Endpoint {
            name,
            method: method.as_str().to_owned(),
            path: path.to_owned(),
            params: parsed_params,
        };
        endpoints.push(endpoint);
    }
}

/// Derives the catalog of a document: for every path, in document order,
/// one operation for each of GET, POST, PUT and DELETE that the path
/// declares.
pub fn extract_endpoints(spec: &Document) -> (endpoints: Vec<Endpoint>)
    requires
        document_supported(*spec),
    ensures
        endpoint_views(endpoints@) == catalog(spec.paths@),
{
    let mut endpoints: Vec<Endpoint> = Vec::new();
    let mut i: usize = 0;
    while i < spec.paths.len()
        invariant
            i <= spec.paths.len(),
            document_supported(*spec),
            endpoint_views(endpoints@) == catalog(spec.paths@.take(i as int)),
        decreases spec.paths.len() - i,
    {
        let entry = &spec.paths[i];
        assert(spec.paths@.take(i + 1).drop_last() == spec.paths@.take(i as int));
        match &entry.item {
            ReferenceOr::Item(path_item) => {
                let path = entry.path.as_str();
                add_endpoint_for_method(HttpMethod::Get, path, path_item, &mut endpoints);
                add_endpoint_for_method(HttpMethod::Post, path, path_item, &mut endpoints);
                add_endpoint_for_method(HttpMethod::Put, path, path_item, &mut endpoints);
                add_endpoint_for_method(HttpMethod::Delete, path, path_item, &mut endpoints);
            },
            ReferenceOr::Reference { .. } => {
            },
        }
        i += 1;
    }
    assert(spec.paths@.take(i as int) == spec.paths@);
    endpoints
}

/// Puts a document together with its catalog.
pub fn parse_endpoints(spec: Document) -> (parsed: ParsedSpec)
    requires
        document_supported(spec),
    ensures
        parsed.spec == spec,
        endpoint_views(parsed.endpoints@) == catalog(spec.paths@),
{
    let endpoints = extract_endpoints(&spec);
    ParsedSpec { spec, endpoints }
}

/// Puts a document together with its catalog where the catalog can take the
/// document over, and refuses it at once where it cannot.
pub fn try_parse_endpoints(spec: Document) -> (parsed: Option<ParsedSpec>)
    ensures
        parsed is Some <==> document_supported(spec),
        parsed matches Some(p) ==> p.spec == spec && endpoint_views(p.endpoints@) == catalog(
            spec.paths@,
        ),
{
    if supports_document(&spec) {
        Some(parse_endpoints(spec))
    } else {
        None
    }
}

/// How many entries of `endpoints` stand for `method` under `path`.
pub open spec fn occurrences(endpoints: Seq<EndpointView>, path: Seq<char>, method: Seq<char>) -> nat
    decreases endpoints.len(),
{
    if endpoints.len() == 0 {
        0
    } else {
        let last = endpoints.last();
        let earlier = occurrences(endpoints.drop_last(), path, method);
        if last.path == path && last.method == method {
            earlier + 1
        } else {
            earlier
        }
    }
}

/// Whether the document declares an operation for `method` under the path
/// of `entry`.
pub open spec fn declares(entry: PathEntry, method: HttpMethod) -> bool {
    entry.item matches ReferenceOr::Item(item) && handler(item, method) is Some
}

/// How many operations a path of a document declares for the four methods.
pub open spec fn declared_count(entry: PathEntry) -> nat {
    let get: nat = if declares(entry, HttpMethod::Get) {
        1
    } else {
        0
    };
    let post: nat = if declares(entry, HttpMethod::Post) {
        1
    } else {
        0
    };
    let put: nat = if declares(entry, HttpMethod::Put) {
        1
    } else {
        0
    };
    let delete: nat = if declares(entry, HttpMethod::Delete) {
        1
    } else {
        0
    };
    get + post + put + delete
}

/// How many operations a document declares for the four methods.
pub open spec fn declared_total(paths: Seq<PathEntry>) -> nat
    decreases paths.len(),
{
    if paths.len() == 0 {
        0
    } else {
        declared_total(paths.drop_last()) + declared_count(paths.last())
    }
}

/// Whether no path occurs twice in a document.
pub open spec fn distinct_paths(paths: Seq<PathEntry>) -> bool {
    forall|i: int, j: int|
        0 <= i < j < paths.len() ==> (#[trigger] paths[i]).path@ != (#[trigger] paths[j]).path@
}

/// Whether no path occurs twice in `document`, as the laws on the catalog
/// ask of a document.
pub fn has_distinct_paths(document: &Document) -> (distinct: bool)
    ensures
        distinct == distinct_paths(document.paths@),
{
    let mut j: usize = 0;
    while j < document.paths.len()
        invariant
            j <= document.paths.len(),
            forall|a: int, b: int|
                0 <= a < b < j ==> (#[trigger] document.paths@[a]).path@ != (
                #[trigger] document.paths@[b]).path@,
        decreases document.paths.len() - j,
    {
        let mut i: usize = 0;
        while i < j
            invariant
                i <= j < document.paths.len(),
                forall|a: int|
                    0 <= a < i ==> (#[trigger] document.paths@[a]).path@
                        != document.paths@[j as int].path@,
            decreases j - i,
        {
            if same_text(document.paths[i].path.as_str(), document.paths[j].path.as_str()) {
                assert(document.paths@[i as int].path@ == document.paths@[j as int].path@);
                return false;
            }
            i += 1;
        }
        j += 1;
    }
    true
}

/// The four method names differ from one another.
pub proof fn lemma_method_names_differ(a: HttpMethod, b: HttpMethod)
    ensures
        a.name() == b.name() <==> a == b,
{
    reveal_strlit("get");
    reveal_strlit("post");
    reveal_strlit("put");
    reveal_strlit("delete");
    if a != b && a.name() == b.name() {
        assert(a.name().len() == b.name().len());
        assert(a.name()[0] == b.name()[0]);
    }
}

/// Occurrences add up over concatenation.
proof fn lemma_occurrences_add(
    a: Seq<EndpointView>,
    b: Seq<EndpointView>,
    path: Seq<char>,
    method: Seq<char>,
)
    ensures
        occurrences(a + b, path, method) == occurrences(a, path, method) + occurrences(
            b,
            path,
            method,
        ),
    decreases b.len(),
{
    if b.len() == 0 {
    } else {
        assert((a + b).drop_last() == a + b.drop_last());
        lemma_occurrences_add(a, b.drop_last(), path, method);
    }
}

/// What one method of a path item contributes to the occurrences.
proof fn lemma_occurrences_of_method(
    own: HttpMethod,
    own_path: Seq<char>,
    item: PathItem,
    path: Seq<char>,
    method: Seq<char>,
)
    ensures
        occurrences(method_endpoints(own, own_path, item), path, method) == (if handler(item, own)
            is Some && own_path == path && own.name() == method {
            1nat
        } else {
            0nat
        }),
{
    let entries = method_endpoints(own, own_path, item);
    if entries.len() > 0 {
        assert(occurrences(entries.drop_last(), path, method) == 0);
    }
}

/// What a path item contributes to the occurrences: what each of its four
/// methods contributes.
proof fn lemma_occurrences_of_item(
    own_path: Seq<char>,
    item: PathItem,
    path: Seq<char>,
    method: Seq<char>,
)
    ensures
        occurrences(item_endpoints(own_path, item), path, method) == occurrences(
            method_endpoints(HttpMethod::Get, own_path, item),
            path,
            method,
        ) + occurrences(method_endpoints(HttpMethod::Post, own_path, item), path, method)
            + occurrences(method_endpoints(HttpMethod::Put, own_path, item), path, method)
            + occurrences(method_endpoints(HttpMethod::Delete, own_path, item), path, method),
        forall|own: HttpMethod|
            #![trigger method_endpoints(own, own_path, item)]
            occurrences(method_endpoints(own, own_path, item), path, method) == (if handler(
                item,
                own,
            ) is Some && own_path == path && own.name() == method {
                1nat
            } else {
                0nat
            }),
{
    let get = method_endpoints(HttpMethod::Get, own_path, item);
    let post = method_endpoints(HttpMethod::Post, own_path, item);
    let put = method_endpoints(HttpMethod::Put, own_path, item);
    let delete = method_endpoints(HttpMethod::Delete, own_path, item);
    lemma_occurrences_add(get + post + put, delete, path, method);
    lemma_occurrences_add(get + post, put, path, method);
    lemma_occurrences_add(get, post, path, method);
    assert forall|own: HttpMethod|
        #![trigger method_endpoints(own, own_path, item)]
        occurrences(method_endpoints(own, own_path, item), path, method) == (if handler(item, own)
            is Some && own_path == path && own.name() == method {
            1nat
        } else {
            0nat
        }) by {
        lemma_occurrences_of_method(own, own_path, item, path, method);
    }
}

/// What one path of a document contributes to the occurrences of one of the
/// four methods.
proof fn lemma_occurrences_of_entry(entry: PathEntry, path: Seq<char>, method: HttpMethod)
    ensures
        occurrences(entry_endpoints(entry), path, method.name()) == (if entry.path@ == path
            && declares(entry, method) {
            1nat
        } else {
            0nat
        }),
{
    match entry.item {
        ReferenceOr::Item(item) => {
            lemma_occurrences_of_item(entry.path@, item, path, method.name());
            lemma_method_names_differ(HttpMethod::Get, method);
            lemma_method_names_differ(HttpMethod::Post, method);
            lemma_method_names_differ(HttpMethod::Put, method);
            lemma_method_names_differ(HttpMethod::Delete, method);
        },
        ReferenceOr::Reference { .. } => {},
    }
}

/// The catalog holds no operation under a path that the document lacks, and
/// none for a method other than the four.
pub proof fn lemma_no_operation_for_undeclared(
    paths: Seq<PathEntry>,
    path: Seq<char>,
    method: Seq<char>,
)
    requires
        (forall|i: int| 0 <= i < paths.len() ==> (#[trigger] paths[i]).path@ != path) || (forall|
            m: HttpMethod,
        | #[trigger] m.name() != method),
    ensures
        occurrences(catalog(paths), path, method) == 0,
    decreases paths.len(),
{
    if paths.len() > 0 {
        let last = paths.last();
        lemma_no_operation_for_undeclared(paths.drop_last(), path, method);
        lemma_occurrences_add(catalog(paths.drop_last()), entry_endpoints(last), path, method);
        match last.item {
            ReferenceOr::Item(item) => {
                lemma_occurrences_of_item(last.path@, item, path, method);
            },
            ReferenceOr::Reference { .. } => {},
        }
    }
}

/// The catalog of a document without repeated paths holds exactly one
/// operation for each path and method for which the document declares one,
/// and none for a method that the path does not declare.
pub proof fn lemma_one_operation_per_declared_pair(paths: Seq<PathEntry>, i: int, method: HttpMethod)
    requires
        distinct_paths(paths),
        0 <= i < paths.len(),
    ensures
        occurrences(catalog(paths), paths[i].path@, method.name()) == (if declares(
            paths[i],
            method,
        ) {
            1nat
        } else {
            0nat
        }),
    decreases paths.len(),
{
    let path = paths[i].path@;
    let earlier = paths.drop_last();
    let last = paths.last();
    lemma_occurrences_add(catalog(earlier), entry_endpoints(last), path, method.name());
    lemma_occurrences_of_entry(last, path, method);
    if i == paths.len() - 1 {
        lemma_no_operation_for_undeclared(earlier, path, method.name());
    } else {
        lemma_one_operation_per_declared_pair(earlier, i, method);
    }
}

/// The catalog holds as many operations as the document declares for the
/// four methods.
pub proof fn lemma_catalog_len(paths: Seq<PathEntry>)
    ensures
        catalog(paths).len() == declared_total(paths),
    decreases paths.len(),
{
    if paths.len() > 0 {
        lemma_catalog_len(paths.drop_last());
    }
}

/// Among the parameters of a supported operation only the last can be a
/// body parameter; it is one exactly where the operation declares a request
/// body, and it is named `body`.
pub proof fn lemma_body_parameter_is_last(operation: Operation, i: int)
    requires
        operation_supported(operation),
        0 <= i < operation_parameters(operation).len(),
    ensures
        operation_parameters(operation)[i].location == ParameterLocation::Body <==> (
        operation.request_body is Some && i == operation.parameters@.len()),
        operation_parameters(operation)[i].location == ParameterLocation::Body
            ==> operation_parameters(operation)[i].name == "body"@,
{
}

} // verus!
