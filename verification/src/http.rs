//! The request synthesizer: from an operation, its bound values and a base
//! address to one request that is ready to be sent.

use crate::binder::{
    bind, binding, bound_values, is_missing, lemma_binding_fails_iff_required_missing, BoundRequest,
    BoundValueView, SuppliedValue, SuppliedValues,
};
use crate::bridge::{
    append_query_pair, byte_len, cannot_be_a_base, header_entries, header_name_of, header_names, header_value_of,
    insert_header, is_header_name, is_header_value, json_text, new_header_map, no_headers,
    parse_json, parse_url, parsed_json, parsed_url, path_of_url, percent_decode,
    percent_decoded, set_url_path, url_as_str, url_cannot_be_a_base, url_path,
    url_query_in_place, url_query_pairs, url_text, url_with_path, url_with_query_pair, HEADER_NAMES_ROOM,
    URL_MAX_BYTES,
};
use crate::errors::{outcome, ErrorKind, Errors};
use crate::openapi::{catalog, Endpoint, EndpointView, HttpMethod, ParameterLocation, PathEntry};
use crate::text::{
    ascii_lowercase, begins_with_slash, lemma_replace_brings_nothing_in, replace, replace_all,
    same_text, starts_with_slash, to_ascii_lowercase, trim_trailing_slashes,
    without_trailing_slashes,
};
use reqwest::header::HeaderMap;
use vstd::prelude::*;
use vstd::string::StringExecFns;
use vstd::utf8::encode_utf8;

verus! {

/// The verb that `method` names, whatever the case of its letters.
pub open spec fn method_named(method: Seq<char>) -> Option<HttpMethod> {
    let lower = ascii_lowercase(method);
    if lower == "get"@ {
        Some(HttpMethod::Get)
    } else if lower == "post"@ {
        Some(HttpMethod::Post)
    } else if lower == "put"@ {
        Some(HttpMethod::Put)
    } else if lower == "delete"@ {
        Some(HttpMethod::Delete)
    } else {
        None
    }
}

/// Selects the verb that `method` names.
///
/// GET, POST, PUT and DELETE are accepted in any case of their letters.
/// Every other text is refused with an error that carries it.
pub fn parse_method(method: &str) -> (verb: Result<HttpMethod, Errors>)
    ensures
        match verb {
            Ok(m) => method_named(method@) == Some(m),
            Err(e) => method_named(method@) is None && e@ == (ErrorKind::UnsupportedMethod {
                method: method@,
            }),
        },
{
    let lower = to_ascii_lowercase(method);
    if same_text(lower.as_str(), "get") {
        Ok(HttpMethod::Get)
    } else if same_text(lower.as_str(), "post") {
        Ok(HttpMethod::Post)
    } else if same_text(lower.as_str(), "put") {
        Ok(HttpMethod::Put)
    } else if same_text(lower.as_str(), "delete") {
        Ok(HttpMethod::Delete)
    } else {
        Err(Errors::UnsupportedHttpMethodError { method: method.to_owned() })
    }
}

/// The path that an operation is reached at: the operation's own path where
/// that begins with a slash, else the base path without its trailing
/// slashes, one slash, and the operation's path.
pub open spec fn effective_path(base_path: Seq<char>, operation_path: Seq<char>) -> Seq<char> {
    if begins_with_slash(operation_path) {
        operation_path
    } else {
        without_trailing_slashes(base_path) + seq!['/'] + operation_path
    }
}

/// Joins the path of a base address and the path of an operation.
pub fn join_path(base_path: &str, operation_path: &str) -> (path: String)
    ensures
        path@ == effective_path(base_path@, operation_path@),
{
    if starts_with_slash(operation_path) {
        operation_path.to_owned()
    } else {
        let mut path = trim_trailing_slashes(base_path);
        path.push('/');
        path.append(operation_path);
        path
    }
}

/// The token that stands in a path template for the parameter `name`.
pub open spec fn placeholder(name: Seq<char>) -> Seq<char> {
    seq!['{'] + name + seq!['}']
}

/// `path` after the bound value `value` was applied to it: for a path
/// parameter the percent-decoded path with each placeholder of the parameter
/// replaced by the raw value, for any other parameter the path as it is.
pub open spec fn path_after(path: Seq<char>, value: BoundValueView) -> Seq<char> {
    if value.location == ParameterLocation::Path {
        replace_all(percent_decoded(path), placeholder(value.name), value.value)
    } else {
        path
    }
}

/// `path` after the bound values were applied one after the other, each to
/// what the earlier ones left.
pub open spec fn substituted_path(path: Seq<char>, bound: Seq<BoundValueView>) -> Seq<char>
    decreases bound.len(),
{
    if bound.len() == 0 {
        path
    } else {
        path_after(substituted_path(path, bound.drop_last()), bound.last())
    }
}

/// `path` after the bound value `value` was applied to it without any
/// decoding.
pub open spec fn plain_path_after(path: Seq<char>, value: BoundValueView) -> Seq<char> {
    if value.location == ParameterLocation::Path {
        replace_all(path, placeholder(value.name), value.value)
    } else {
        path
    }
}

/// `path` after the bound values were applied one after the other without
/// any decoding.
pub open spec fn plainly_substituted(path: Seq<char>, bound: Seq<BoundValueView>) -> Seq<char>
    decreases bound.len(),
{
    if bound.len() == 0 {
        path
    } else {
        plain_path_after(plainly_substituted(path, bound.drop_last()), bound.last())
    }
}

/// Whether no bound path value holds a percent sign.
pub open spec fn percent_free(bound: Seq<BoundValueView>) -> bool {
    forall|i: int|
        0 <= i < bound.len() && (#[trigger] bound[i]).location == ParameterLocation::Path
            ==> !bound[i].value.contains('%')
}

/// Puts the bound path values into a path template: each in turn replaces
/// its placeholder in the percent-decoded path. Where neither the template
/// nor a path value holds a percent sign there is nothing to decode, and
/// the values simply replace their placeholders.
pub fn substitute_path(template: &str, bound: &BoundRequest) -> (path: String)
    ensures
        path@ == substituted_path(template@, bound@),
        !template@.contains('%') && percent_free(bound@) ==> path@ == plainly_substituted(
            template@,
            bound@,
        ),
{
    let mut path = template.to_owned();
    let mut i: usize = 0;
    while i < bound.values.len()
        invariant
            i <= bound.values.len(),
            path@ == substituted_path(template@, bound@.take(i as int)),
            !template@.contains('%') && percent_free(bound@) ==> !path@.contains('%') && path@
                == plainly_substituted(template@, bound@.take(i as int)),
        decreases bound.values.len() - i,
    {
        let value = &bound.values[i];
        assert(bound@.take(i + 1).drop_last() == bound@.take(i as int));
        match value.location {
            ParameterLocation::Path => {
                let decoded = percent_decode(path.as_str());
                let mut token = String::new();
                token.push('{');
                token.append(value.name.as_str());
                token.push('}');
                assert(token@ == placeholder(value.name@));
                proof {
                    if !template@.contains('%') && percent_free(bound@) {
                        lemma_replace_brings_nothing_in(decoded@, 0, token@, value.value@, '%');
                    }
                }
                path = replace(decoded.as_str(), token.as_str(), value.value.as_str());
            },
            _ => {},
        }
        i += 1;
    }
    assert(bound@.take(i as int) == bound@);
    path
}

/// Whether a URL of serialization `url` has room for `path` as its path.
pub open spec fn path_fits(url: Seq<char>, path: Seq<char>) -> bool {
    byte_len(url) + 3 * byte_len(path) + 4 <= URL_MAX_BYTES
}

/// Whether a URL of serialization `url` has room for one more query pair.
pub open spec fn pair_fits(url: Seq<char>, name: Seq<char>, value: Seq<char>) -> bool {
    byte_len(url) + 3 * byte_len(name) + 3 * byte_len(value) + 4 <= URL_MAX_BYTES
}

/// The address of an operation, before any query is added: the base address
/// with the effective path, path values put in, as its path. The base
/// address must be an absolute URL that can be a base.
pub open spec fn resolved_url(
    base_url: Seq<char>,
    operation_path: Seq<char>,
    bound: Seq<BoundValueView>,
) -> Result<Seq<char>, ErrorKind> {
    match parsed_url(base_url) {
        None => Err(ErrorKind::InvalidBaseAddress),
        Some(url) => if url_cannot_be_a_base(url) {
            Err(ErrorKind::InvalidBaseAddress)
        } else {
            let path = substituted_path(effective_path(url_path(url), operation_path), bound);
            if path_fits(url, path) {
                Ok(url_with_path(url, path))
            } else {
                Err(ErrorKind::RequestTooLarge)
            }
        },
    }
}

/// A URL result as the contracts see it: the serialization, or what the
/// error says.
pub open spec fn url_outcome(result: Result<url::Url, Errors>) -> Result<Seq<char>, ErrorKind> {
    match result {
        Ok(url) => Ok(url_text(url)),
        Err(error) => Err(error@),
    }
}

/// Whether `3 * a + 3 * b + 4` bytes more fit into a URL that holds `used`.
fn has_room(used: usize, a: usize, b: usize) -> (fits: bool)
    ensures
        fits == (used + 3 * a + 3 * b + 4 <= URL_MAX_BYTES),
{
    let limit: u64 = URL_MAX_BYTES - 4;
    let used: u64 = used as u64;
    if used > limit {
        return false;
    }
    let third: u64 = (limit - used) / 3;
    let a: u64 = a as u64;
    let b: u64 = b as u64;
    a <= third && b <= third - a
}

/// Resolves the address of `endpoint` against `base_url` and puts the bound
/// path values into its path. The URL that it returns holds its query and
/// fragment in place, as `apply_query` needs it.
pub fn handle_url_path(endpoint: &Endpoint, bound: &BoundRequest, base_url: &str) -> (url: Result<
    url::Url,
    Errors,
>)
    ensures
        url_outcome(url) == resolved_url(base_url@, endpoint@.path, bound@),
        url matches Ok(resolved) ==> url_query_in_place(resolved),
        url matches Ok(resolved) ==> url_query_pairs(url_text(resolved)) == url_query_pairs(
            parsed_url(base_url@)->Some_0,
        ),
{
    let mut url = match parse_url(base_url) {
        Ok(url) => url,
        Err(error) => {
            return Err(Errors::UrlParseError(error));
        },
    };
    if cannot_be_a_base(&url) {
        return Err(Errors::UrlCannotBeABase);
    }
    let joined = join_path(path_of_url(&url), endpoint.path.as_str());
    let path = substitute_path(joined.as_str(), bound);
    if !has_room(url_as_str(&url).as_bytes().len(), path.as_str().as_bytes().len(), 0) {
        return Err(Errors::RequestTooLarge);
    }
    set_url_path(&mut url, path.as_str());
    Ok(url)
}

/// The serialization of `url` after the bound query values were appended as
/// query pairs, in their order and without regard to pairs already there; or
/// `None` where the URL has no room for one of them.
pub open spec fn with_query(url: Seq<char>, bound: Seq<BoundValueView>) -> Option<Seq<char>>
    decreases bound.len(),
{
    if bound.len() == 0 {
        Some(url)
    } else {
        let value = bound.last();
        match with_query(url, bound.drop_last()) {
            None => None,
            Some(earlier) => if value.location != ParameterLocation::Query {
                Some(earlier)
            } else if pair_fits(earlier, value.name, value.value) {
                Some(url_with_query_pair(earlier, value.name, value.value))
            } else {
                None
            },
        }
    }
}

/// The name and value of each bound query value, in their order.
pub open spec fn query_pairs_of(bound: Seq<BoundValueView>) -> Seq<(Seq<char>, Seq<char>)>
    decreases bound.len(),
{
    if bound.len() == 0 {
        Seq::empty()
    } else {
        let value = bound.last();
        let earlier = query_pairs_of(bound.drop_last());
        if value.location == ParameterLocation::Query {
            earlier.push((value.name, value.value))
        } else {
            earlier
        }
    }
}

/// Appends the bound query values to the query of `url`, each as one pair,
/// or returns `None` where the URL has no room for one of them. It is for a
/// URL that holds its query and fragment in place, as `handle_url_path`
/// returns it. Reading the pairs of the new query gives those of the old
/// one, then one for each bound query value, in their order: none is left
/// out, merged or written over.
pub fn apply_query(url: url::Url, bound: &BoundRequest) -> (extended: Option<url::Url>)
    requires
        url_query_in_place(url),
    ensures
        match extended {
            Some(after) => with_query(url_text(url), bound@) == Some(url_text(after))
                && url_query_in_place(after),
            None => with_query(url_text(url), bound@) is None,
        },
        extended matches Some(after) ==> url_query_pairs(url_text(after)) == url_query_pairs(
            url_text(url),
        ) + query_pairs_of(bound@),
{
    let ghost start = url_text(url);
    let mut current = url;
    let mut i: usize = 0;
    while i < bound.values.len()
        invariant
            i <= bound.values.len(),
            start == url_text(url),
            url_query_in_place(current),
            with_query(start, bound@.take(i as int)) == Some(url_text(current)),
            url_query_pairs(url_text(current)) == url_query_pairs(start) + query_pairs_of(
                bound@.take(i as int),
            ),
        decreases bound.values.len() - i,
    {
        let value = &bound.values[i];
        assert(bound@.take(i + 1).drop_last() == bound@.take(i as int));
        match value.location {
            ParameterLocation::Query => {
                let used = url_as_str(&current).as_bytes().len();
                let name = value.name.as_str();
                let text = value.value.as_str();
                if !has_room(used, name.as_bytes().len(), text.as_bytes().len()) {
                    proof {
                        lemma_with_query_stays_none(start, bound@, i + 1);
                    }
                    return None;
                }
                append_query_pair(&mut current, name, text);
            },
            _ => {},
        }
        i += 1;
    }
    assert(bound@.take(i as int) == bound@);
    Some(current)
}

/// Once the URL has no room for a pair, later pairs do not bring it back.
proof fn lemma_with_query_stays_none(url: Seq<char>, bound: Seq<BoundValueView>, upto: int)
    requires
        0 <= upto <= bound.len(),
        with_query(url, bound.take(upto)) is None,
    ensures
        with_query(url, bound) is None,
    decreases bound.len() - upto,
{
    if upto < bound.len() {
        assert(bound.take(upto + 1).drop_last() == bound.take(upto));
        lemma_with_query_stays_none(url, bound, upto + 1);
    } else {
        assert(bound.take(upto) == bound);
    }
}

/// What a header map holds, by name.
pub type HeaderEntries = Map<Seq<char>, Seq<u8>>;

/// `headers` after the header `name: value` was put in for the parameter
/// `param`. The name counts in lower case, and a header of the same name is
/// replaced. A map that holds as many names as it has room for takes no
/// header.
pub open spec fn add_header(
    headers: HeaderEntries,
    param: Seq<char>,
    name: Seq<char>,
    value: Seq<char>,
) -> Result<HeaderEntries, ErrorKind> {
    if !is_header_name(name) {
        Err(ErrorKind::InvalidHeaderName { name: param })
    } else if !is_header_value(value) {
        Err(ErrorKind::InvalidHeaderValue { name: param })
    } else if headers.dom().len() >= HEADER_NAMES_ROOM {
        Err(ErrorKind::RequestTooLarge)
    } else {
        Ok(headers.insert(ascii_lowercase(name), encode_utf8(value)))
    }
}

/// The headers that the bound header values make, put in one after the
/// other; or the failure of the first one that cannot be put in.
pub open spec fn with_headers(bound: Seq<BoundValueView>) -> Result<HeaderEntries, ErrorKind>
    decreases bound.len(),
{
    if bound.len() == 0 {
        Ok(no_headers())
    } else {
        let value = bound.last();
        match with_headers(bound.drop_last()) {
            Err(error) => Err(error),
            Ok(earlier) => if value.location != ParameterLocation::Header {
                Ok(earlier)
            } else {
                add_header(earlier, value.name, value.name, value.value)
            },
        }
    }
}

/// What putting headers into `map` came to: what the map holds, or what the
/// error says.
pub open spec fn headers_outcome(done: Result<(), Errors>, map: HeaderMap) -> Result<
    HeaderEntries,
    ErrorKind,
> {
    match done {
        Ok(_) => Ok(header_entries(map)),
        Err(error) => Err(error@),
    }
}

/// Puts the header `name: value` into `map`, for the parameter `param`.
pub fn put_header(map: &mut HeaderMap, param: &str, name: &str, value: &str) -> (done: Result<
    (),
    Errors,
>)
    ensures
        headers_outcome(done, *final(map)) == add_header(
            header_entries(*old(map)),
            param@,
            name@,
            value@,
        ),
        done is Err ==> header_entries(*final(map)) == header_entries(*old(map)),
{
    let header_name = match header_name_of(name) {
        Ok(header_name) => header_name,
        Err(source) => {
            return Err(Errors::InvalidHeaderName { name: param.to_owned(), source });
        },
    };
    let header_value = match header_value_of(value) {
        Ok(header_value) => header_value,
        Err(source) => {
            return Err(Errors::InvalidHeaderValue { name: param.to_owned(), source });
        },
    };
    if header_names(map) >= HEADER_NAMES_ROOM {
        return Err(Errors::RequestTooLarge);
    }
    insert_header(map, header_name, header_value);
    Ok(())
}

/// A header-map result as the contracts see it.
pub open spec fn header_map_outcome(result: Result<HeaderMap, Errors>) -> Result<
    HeaderEntries,
    ErrorKind,
> {
    match result {
        Ok(map) => Ok(header_entries(map)),
        Err(error) => Err(error@),
    }
}

/// Makes the headers of the bound header values.
pub fn bound_headers(bound: &BoundRequest) -> (headers: Result<HeaderMap, Errors>)
    ensures
        header_map_outcome(headers) == with_headers(bound@),
{
    let mut map = new_header_map();
    let mut i: usize = 0;
    while i < bound.values.len()
        invariant
            i <= bound.values.len(),
            with_headers(bound@.take(i as int)) == Ok::<HeaderEntries, ErrorKind>(
                header_entries(map),
            ),
        decreases bound.values.len() - i,
    {
        let value = &bound.values[i];
        assert(bound@.take(i + 1).drop_last() == bound@.take(i as int));
        match value.location {
            ParameterLocation::Header => {
                let name = value.name.as_str();
                match put_header(&mut map, name, name, value.value.as_str()) {
                    Ok(_) => {},
                    Err(error) => {
                        proof {
                            lemma_with_headers_stays_err(bound@, i + 1);
                        }
                        return Err(error);
                    },
                }
            },
            _ => {},
        }
        i += 1;
    }
    assert(bound@.take(i as int) == bound@);
    Ok(map)
}

/// Once a header was refused, the failure stands.
proof fn lemma_with_headers_stays_err(bound: Seq<BoundValueView>, upto: int)
    requires
        0 <= upto <= bound.len(),
        with_headers(bound.take(upto)) is Err,
    ensures
        with_headers(bound) == with_headers(bound.take(upto)),
    decreases bound.len() - upto,
{
    if upto < bound.len() {
        assert(bound.take(upto + 1).drop_last() == bound.take(upto));
        lemma_with_headers_stays_err(bound, upto + 1);
    } else {
        assert(bound.take(upto) == bound);
    }
}

/// The body that the bound values make, as compact JSON text: that of the
/// last body value, or no body where there is none. Every body value must be
/// JSON.
pub open spec fn body_of(bound: Seq<BoundValueView>) -> Result<Option<Seq<char>>, ErrorKind>
    decreases bound.len(),
{
    if bound.len() == 0 {
        Ok(None)
    } else {
        let value = bound.last();
        match body_of(bound.drop_last()) {
            Err(error) => Err(error),
            Ok(earlier) => if value.location != ParameterLocation::Body {
                Ok(earlier)
            } else {
                match parsed_json(value.value) {
                    Some(json) => Ok(Some(json)),
                    None => Err(ErrorKind::InvalidBody),
                }
            },
        }
    }
}

/// The compact JSON text of an optional body.
pub open spec fn body_text(body: Option<serde_json::Value>) -> Option<Seq<char>> {
    match body {
        Some(value) => Some(json_text(value)),
        None => None,
    }
}

/// A body result as the contracts see it.
pub open spec fn body_outcome(result: Result<Option<serde_json::Value>, Errors>) -> Result<
    Option<Seq<char>>,
    ErrorKind,
> {
    match result {
        Ok(body) => Ok(body_text(body)),
        Err(error) => Err(error@),
    }
}

/// Reads the body of the request from the bound body values.
pub fn parse_body(bound: &BoundRequest) -> (body: Result<Option<serde_json::Value>, Errors>)
    ensures
        body_outcome(body) == body_of(bound@),
{
    let mut body: Option<serde_json::Value> = None;
    let mut i: usize = 0;
    while i < bound.values.len()
        invariant
            i <= bound.values.len(),
            body_of(bound@.take(i as int)) == Ok::<Option<Seq<char>>, ErrorKind>(body_text(body)),
        decreases bound.values.len() - i,
    {
        let value = &bound.values[i];
        assert(bound@.take(i + 1).drop_last() == bound@.take(i as int));
        match value.location {
            ParameterLocation::Body => {
                match parse_json(value.value.as_str()) {
                    Ok(json) => {
                        body = Some(json);
                    },
                    Err(error) => {
                        proof {
                            lemma_body_stays_err(bound@, i + 1);
                        }
                        return Err(Errors::SerdeJsonError(error));
                    },
                }
            },
            _ => {},
        }
        i += 1;
    }
    assert(bound@.take(i as int) == bound@);
    Ok(body)
}

/// Once a body value was refused, the failure stands.
proof fn lemma_body_stays_err(bound: Seq<BoundValueView>, upto: int)
    requires
        0 <= upto <= bound.len(),
        body_of(bound.take(upto)) is Err,
    ensures
        body_of(bound) == body_of(bound.take(upto)),
    decreases bound.len() - upto,
{
    if upto < bound.len() {
        assert(bound.take(upto + 1).drop_last() == bound.take(upto));
        lemma_body_stays_err(bound, upto + 1);
    } else {
        assert(bound.take(upto) == bound);
    }
}

/// The static credentials of the caller, if any.
#[derive(Debug, Clone)]
pub struct Credentials {
    /// The token of HTTP Basic authentication.
    pub basic: Option<String>,
    /// The token of Bearer authentication.
    pub bearer: Option<String>,
}

/// Credentials as the contracts see them.
pub struct CredentialsView {
    pub basic: Option<Seq<char>>,
    pub bearer: Option<Seq<char>>,
}

impl View for Credentials {
    type V = CredentialsView;

    open spec fn view(&self) -> CredentialsView {
        CredentialsView { basic: text_of(self.basic), bearer: text_of(self.bearer) }
    }
}

/// `headers` after the `authorization` header was set to `prefix` followed
/// by the token, where there is a token.
pub open spec fn add_authorization(
    headers: HeaderEntries,
    prefix: Seq<char>,
    token: Option<Seq<char>>,
) -> Result<HeaderEntries, ErrorKind> {
    match token {
        None => Ok(headers),
        Some(token) => add_header(headers, "authorization"@, "authorization"@, prefix + token),
    }
}

/// `headers` after the credentials were put in: first the Basic token, then
/// the Bearer token, which replaces it where both are there.
pub open spec fn with_credentials(headers: HeaderEntries, credentials: CredentialsView) -> Result<
    HeaderEntries,
    ErrorKind,
> {
    match add_authorization(headers, "Basic "@, credentials.basic) {
        Err(error) => Err(error),
        Ok(after_basic) => add_authorization(after_basic, "Bearer "@, credentials.bearer),
    }
}

/// The text of an optional string.
pub open spec fn text_of(text: Option<String>) -> Option<Seq<char>> {
    match text {
        Some(text) => Some(text@),
        None => None,
    }
}

/// Sets the `authorization` header of `map` to `prefix` followed by
/// `token`, where there is a token.
pub fn authorize(map: &mut HeaderMap, prefix: &str, token: &Option<String>) -> (done: Result<
    (),
    Errors,
>)
    ensures
        headers_outcome(done, *final(map)) == add_authorization(
            header_entries(*old(map)),
            prefix@,
            text_of(*token),
        ),
        done is Err ==> header_entries(*final(map)) == header_entries(*old(map)),
{
    match token {
        None => Ok(()),
        Some(token) => {
            let mut value = prefix.to_owned();
            value.append(token.as_str());
            put_header(map, "authorization", "authorization", value.as_str())
        },
    }
}

/// One request, ready to be sent.
#[derive(Debug)]
pub struct RequestDescriptor {
    pub method: HttpMethod,
    pub url: url::Url,
    pub headers: HeaderMap,
    pub body: Option<serde_json::Value>,
}

/// A request as the contracts see it: the verb, the serialization of the
/// address, the headers by name, and the body as compact JSON text.
pub struct RequestView {
    pub method: HttpMethod,
    pub url: Seq<char>,
    pub headers: HeaderEntries,
    pub body: Option<Seq<char>>,
}

impl View for RequestDescriptor {
    type V = RequestView;

    open spec fn view(&self) -> RequestView {
        RequestView {
            method: self.method,
            url: url_text(self.url),
            headers: header_entries(self.headers),
            body: body_text(self.body),
        }
    }
}

/// The request that `endpoint` makes of its bound values, or the first
/// failure on the way. The steps, in order: resolve the address and put the
/// path values in; append the query values; put the header values in; read
/// the body; put the credentials in; select the verb.
pub open spec fn synthesis(
    endpoint: EndpointView,
    bound: Seq<BoundValueView>,
    base_url: Seq<char>,
    credentials: CredentialsView,
) -> Result<RequestView, ErrorKind> {
    match resolved_url(base_url, endpoint.path, bound) {
        Err(error) => Err(error),
        Ok(path_url) => match with_query(path_url, bound) {
            None => Err(ErrorKind::RequestTooLarge),
            Some(url) => match with_headers(bound) {
                Err(error) => Err(error),
                Ok(bound_headers) => match body_of(bound) {
                    Err(error) => Err(error),
                    Ok(body) => match with_credentials(bound_headers, credentials) {
                        Err(error) => Err(error),
                        Ok(headers) => match method_named(endpoint.method) {
                            None => Err(ErrorKind::UnsupportedMethod { method: endpoint.method }),
                            Some(method) => Ok(RequestView { method, url, headers, body }),
                        },
                    },
                },
            },
        },
    }
}

/// Makes the request of `endpoint` from its bound values.
///
/// The base address must be an absolute URL. The path of the request is the
/// operation's path where that begins with a slash, else the base path
/// joined with it; each bound path value replaces its `{name}` token in the
/// percent-decoded path. Each bound query value becomes one query pair, each
/// bound header value one header, and the bound body value, read as JSON,
/// the body. The credentials set the `authorization` header. The verb is
/// checked last.
///
/// Reading the pairs of the request's query gives those of the base
/// address, then one for each bound query value, in their order.
pub fn synthesize(
    endpoint: &Endpoint,
    bound: &BoundRequest,
    base_url: &str,
    credentials: &Credentials,
) -> (request: Result<RequestDescriptor, Errors>)
    ensures
        outcome(request) == synthesis(endpoint@, bound@, base_url@, credentials@),
        request matches Ok(made) ==> url_query_pairs(made@.url) == url_query_pairs(
            parsed_url(base_url@)->Some_0,
        ) + query_pairs_of(bound@),
{
    let url = match handle_url_path(endpoint, bound, base_url) {
        Ok(url) => url,
        Err(error) => {
            return Err(error);
        },
    };
    let url = match apply_query(url, bound) {
        Some(url) => url,
        None => {
            return Err(Errors::RequestTooLarge);
        },
    };
    let mut headers = match bound_headers(bound) {
        Ok(headers) => headers,
        Err(error) => {
            return Err(error);
        },
    };
    let body = match parse_body(bound) {
        Ok(body) => body,
        Err(error) => {
            return Err(error);
        },
    };
    match authorize(&mut headers, "Basic ", &credentials.basic) {
        Ok(_) => {},
        Err(error) => {
            return Err(error);
        },
    }
    match authorize(&mut headers, "Bearer ", &credentials.bearer) {
        Ok(_) => {},
        Err(error) => {
            return Err(error);
        },
    }
    let method = match parse_method(endpoint.method.as_str()) {
        Ok(method) => method,
        Err(error) => {
            return Err(error);
        },
    };
    Ok(RequestDescriptor { method, url, headers, body })
}

/// What an invocation of `endpoint` with the supplied values comes to: the
/// failure of binding, or else what synthesis makes of the bound values.
pub open spec fn preparation(
    endpoint: EndpointView,
    supplied: Seq<SuppliedValue>,
    base_url: Seq<char>,
    credentials: CredentialsView,
) -> Result<RequestView, ErrorKind> {
    match binding(endpoint.params, supplied) {
        Err(error) => Err(error),
        Ok(bound) => synthesis(endpoint, bound, base_url, credentials),
    }
}

/// Binds the supplied values to the parameters of `endpoint` and makes the
/// request of them. Nothing is synthesized where a required parameter has no
/// value.
pub fn prepare_request(
    endpoint: &Endpoint,
    supplied: &SuppliedValues,
    base_url: &str,
    credentials: &Credentials,
) -> (request: Result<RequestDescriptor, Errors>)
    ensures
        outcome(request) == preparation(endpoint@, supplied.values@, base_url@, credentials@),
        request matches Ok(made) ==> url_query_pairs(made@.url) == url_query_pairs(
            parsed_url(base_url@)->Some_0,
        ) + query_pairs_of(bound_values(endpoint@.params, supplied.values@)),
{
    match bind(endpoint, supplied) {
        Ok(bound) => synthesize(endpoint, &bound, base_url, credentials),
        Err(error) => Err(error),
    }
}

/// An operation whose method is none of GET, POST, PUT and DELETE yields no
/// request, whatever was bound.
pub proof fn lemma_unsupported_method_yields_no_request(
    endpoint: EndpointView,
    bound: Seq<BoundValueView>,
    base_url: Seq<char>,
    credentials: CredentialsView,
)
    requires
        method_named(endpoint.method) is None,
    ensures
        synthesis(endpoint, bound, base_url, credentials) is Err,
{
}

/// An invocation that leaves a required parameter without a value yields the
/// error that names the first such parameter, and no request, wherever the
/// parameter is placed.
pub proof fn lemma_missing_required_yields_no_request(
    endpoint: EndpointView,
    supplied: Seq<SuppliedValue>,
    base_url: Seq<char>,
    credentials: CredentialsView,
    k: int,
)
    requires
        0 <= k < endpoint.params.len(),
        is_missing(endpoint.params[k], supplied),
    ensures
        preparation(endpoint, supplied, base_url, credentials) matches Err(error)
            && error is MissingRequiredParameter,
{
    lemma_binding_fails_iff_required_missing(endpoint.params, supplied);
}

/// The name of each of the four verbs selects that verb.
pub proof fn lemma_method_named_of_name(method: HttpMethod)
    ensures
        method_named(method.name()) == Some(method),
{
    reveal_strlit("get");
    reveal_strlit("post");
    reveal_strlit("put");
    reveal_strlit("delete");
    let name = method.name();
    assert(ascii_lowercase(name) =~= name);
    if method != HttpMethod::Get {
        assert(name.len() != 3 || name[0] != 'g');
    }
}

/// Every operation of a catalog has a method that synthesis accepts.
pub proof fn lemma_catalog_methods_are_accepted(paths: Seq<PathEntry>, i: int)
    requires
        0 <= i < catalog(paths).len(),
    ensures
        method_named(catalog(paths)[i].method) is Some,
    decreases paths.len(),
{
    let earlier = catalog(paths.drop_last());
    if i < earlier.len() {
        lemma_catalog_methods_are_accepted(paths.drop_last(), i);
    } else {
        lemma_method_named_of_name(HttpMethod::Get);
        lemma_method_named_of_name(HttpMethod::Post);
        lemma_method_named_of_name(HttpMethod::Put);
        lemma_method_named_of_name(HttpMethod::Delete);
    }
}

} // verus!
