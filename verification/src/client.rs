//! Requests and responses: building the query for a call, checking it before
//! it goes out, and decoding what comes back into a result or an [`Error`].

use vstd::prelude::*;
use crate::errors::{error_for_status, Error, ErrorView};
use crate::json::{json_get, json_parse, parse_json, view_opt_string, JsonTree, JsonValue};
use crate::models::{
    agify_prediction, genderize_prediction, nationalize_prediction, prediction_list, view_result,
    decode_agify_list, decode_agify_prediction, decode_genderize_list,
    decode_genderize_prediction, decode_nationalize_list, decode_nationalize_prediction,
    AgifyPrediction, AgifyResult, AgifyView, Batch, GenderizePrediction, GenderizeResult,
    GenderizeView, NationalizePrediction, NationalizeResult, NationalizeView, Quota,
};
use crate::text::{
    ascii_fold, decimal, decimal_string, eq_ignore_ascii_case, eq_ignore_ascii_case_str, is_blank,
    is_blank_str, parse_i64, parse_i64_str, trim, trim_str,
};

verus! {

/// Host for genderize.
pub const GENDERIZE_BASE: &'static str = "https://api.genderize.io/";

/// Host for agify.
pub const AGIFY_BASE: &'static str = "https://api.agify.io/";

/// Host for nationalize.
pub const NATIONALIZE_BASE: &'static str = "https://api.nationalize.io/";

/// Sent on every request. Not configurable.
pub const USER_AGENT: &'static str = "demografix-rust/0.2.0";

/// Maximum names per batch request; the server rejects more.
pub const MAX_BATCH: usize = 10;

/// A transport-agnostic outbound request.
///
/// Query parameters are an ordered list because `name[]` repeats and order is
/// part of the wire contract.
#[derive(Debug, Clone, PartialEq, Eq)]
pub struct Request {
    /// Absolute URL of the service host.
    pub url: String,
    /// Ordered query parameters, including repeated `name[]` keys.
    pub query: Vec<(String, String)>,
    /// The User-Agent value.
    pub user_agent: String,
}

/// The mathematical value of a [`Request`].
pub struct RequestView {
    pub url: Seq<char>,
    pub query: Seq<(Seq<char>, Seq<char>)>,
    pub user_agent: Seq<char>,
}

impl View for Request {
    type V = RequestView;

    open spec fn view(&self) -> RequestView {
        RequestView {
            url: self.url@,
            query: self.query.deep_view(),
            user_agent: self.user_agent@,
        }
    }
}

/// A transport-agnostic inbound response.
#[derive(Debug, Clone)]
pub struct RawResponse {
    /// HTTP status code.
    pub status: u16,
    /// Response headers, as name and value, in order. Names may be any case;
    /// they are matched case-insensitively, and the first header whose name
    /// matches decides.
    pub headers: Vec<(String, String)>,
    /// Raw response body.
    pub body: String,
}

/// The mathematical value of a [`RawResponse`].
pub struct ResponseView {
    pub status: u16,
    pub headers: Seq<(Seq<char>, Seq<char>)>,
    pub body: Seq<char>,
}

impl View for RawResponse {
    type V = ResponseView;

    open spec fn view(&self) -> ResponseView {
        ResponseView { status: self.status, headers: self.headers.deep_view(), body: self.body@ }
    }
}

/// The names of a call, each by its characters.
pub open spec fn view_names(names: &[&str]) -> Seq<Seq<char>> {
    names@.map_values(|s: &str| s@)
}

/// An optional string, by its characters.
pub open spec fn view_opt_str(o: Option<&str>) -> Option<Seq<char>> {
    match o {
        Some(s) => Some(s@),
        None => None,
    }
}

/// The name parameters: a single `name` for one name, else one `name[]` per
/// name, in order.
pub open spec fn name_params(names: Seq<Seq<char>>) -> Seq<(Seq<char>, Seq<char>)> {
    if names.len() == 1 {
        seq![("name"@, names[0])]
    } else {
        names.map_values(|n: Seq<char>| ("name[]"@, n))
    }
}

/// The parameter `key=value` when a value is given, else nothing.
pub open spec fn optional_param(key: Seq<char>, value: Option<Seq<char>>) -> Seq<
    (Seq<char>, Seq<char>),
> {
    match value {
        Some(v) => seq![(key, v)],
        None => Seq::empty(),
    }
}

/// The ordered query of a call: the names, then `country_id` and `apikey`
/// when they are set.
pub open spec fn query_params(
    names: Seq<Seq<char>>,
    country_id: Option<Seq<char>>,
    api_key: Option<Seq<char>>,
) -> Seq<(Seq<char>, Seq<char>)> {
    name_params(names) + optional_param("country_id"@, country_id) + optional_param(
        "apikey"@,
        api_key,
    )
}

/// The message for a batch of `n` names, over the limit.
pub open spec fn batch_too_large(n: nat) -> Seq<char> {
    "batch of "@ + decimal(n) + " names exceeds the maximum of "@ + decimal(MAX_BATCH as nat)
}

/// The message for a missing or blank API key.
pub open spec fn api_key_required() -> Seq<char> {
    "api_key is required"@
}

/// The request for a call, or the error that rejects it before any HTTP call:
/// a batch of more than [`MAX_BATCH`] names first, then a blank API key.
pub open spec fn prepared(
    base: Seq<char>,
    names: Seq<Seq<char>>,
    country_id: Option<Seq<char>>,
    api_key: Option<Seq<char>>,
) -> Result<RequestView, ErrorView> {
    if names.len() > MAX_BATCH {
        Err(
            ErrorView::Validation {
                status: 0,
                message: batch_too_large(names.len()),
                quota: None,
            },
        )
    } else if api_key is Some && is_blank(api_key->Some_0) {
        Err(ErrorView::Validation { status: 0, message: api_key_required(), quota: None })
    } else {
        Ok(
            RequestView {
                url: base,
                query: query_params(names, country_id, api_key),
                user_agent: USER_AGENT@,
            },
        )
    }
}

/// The pair `(key, value)` of owned strings.
fn param(key: &str, value: &str) -> (r: (String, String))
    ensures
        r.deep_view() == (key@, value@),
{
    (String::from_str(key), String::from_str(value))
}

/// Build the ordered query parameters for a call: a single `name` for one
/// name or repeated `name[]` for a batch, then `country_id` and `apikey` only
/// when set.
pub fn build_query(names: &[&str], country_id: Option<&str>, api_key: Option<&str>) -> (r: Vec<
    (String, String),
>)
    ensures
        r.deep_view() == query_params(view_names(names), view_opt_str(country_id), view_opt_str(api_key)),
{
    let mut query: Vec<(String, String)> = Vec::new();
    let ghost ns = view_names(names);
    if names.len() == 1 {
        query.push(param("name", names[0]));
        assert(query.deep_view() =~= name_params(ns));
    } else {
        let n = names.len();
        let mut i: usize = 0;
        while i < n
            invariant
                n == names@.len(),
                ns == view_names(names),
                n != 1,
                i <= n,
                query.deep_view() =~= ns.take(i as int).map_values(|s: Seq<char>| ("name[]"@, s)),
            decreases n - i,
        {
            let ghost before = query.deep_view();
            query.push(param("name[]", names[i]));
            assert(ns.take(i + 1) =~= ns.take(i as int).push(names[i as int]@));
            assert(query.deep_view() =~= before.push(("name[]"@, names[i as int]@)));
            i = i + 1;
        }
        assert(ns.take(n as int) =~= ns);
    }
    if let Some(country_id) = country_id {
        query.push(param("country_id", country_id));
    }
    let ghost after_country = query.deep_view();
    assert(after_country =~= name_params(ns) + optional_param("country_id"@, view_opt_str(country_id)));
    if let Some(api_key) = api_key {
        query.push(param("apikey", api_key));
    }
    assert(query.deep_view() =~= after_country + optional_param("apikey"@, view_opt_str(api_key)));
    query
}

/// Reject a batch of more than [`MAX_BATCH`] names before any HTTP call.
pub fn validate_batch_size(names: &[&str]) -> (r: Result<(), Error>)
    ensures
        names@.len() <= MAX_BATCH ==> r is Ok,
        names@.len() > MAX_BATCH ==> (r matches Err(e) && e@ == ErrorView::Validation {
            status: 0,
            message: batch_too_large(names@.len()),
            quota: None,
        }),
{
    if names.len() > MAX_BATCH {
        let mut message = String::from_str("batch of ");
        let count = decimal_string(names.len() as u64);
        message.append(count.as_str());
        message.append(" names exceeds the maximum of ");
        let max = decimal_string(MAX_BATCH as u64);
        message.append(max.as_str());
        return Err(Error::Validation { status: 0, message, quota: None });
    }
    Ok(())
}

/// Reject a blank API key before any HTTP call. No key at all is accepted.
pub fn validate_api_key(api_key: Option<&str>) -> (r: Result<(), Error>)
    ensures
        match view_opt_str(api_key) {
            Some(k) => if is_blank(k) {
                r matches Err(e) && e@ == ErrorView::Validation {
                    status: 0,
                    message: api_key_required(),
                    quota: None,
                }
            } else {
                r is Ok
            },
            None => r is Ok,
        },
{
    if let Some(key) = api_key {
        if is_blank_str(key) {
            return Err(
                Error::Validation {
                    status: 0,
                    message: String::from_str("api_key is required"),
                    quota: None,
                },
            );
        }
    }
    Ok(())
}

/// The request for a call to the service at `base`, or the error that
/// rejects the call before any HTTP call is made.
pub fn prepare_request(
    base: &str,
    names: &[&str],
    country_id: Option<&str>,
    api_key: Option<&str>,
) -> (r: Result<Request, Error>)
    ensures
        view_result(r) == prepared(base@, view_names(names), view_opt_str(country_id), view_opt_str(api_key)),
{
    validate_batch_size(names)?;
    validate_api_key(api_key)?;
    Ok(
        Request {
            url: String::from_str(base),
            query: build_query(names, country_id, api_key),
            user_agent: String::from_str(USER_AGENT),
        },
    )
}

/// The value of the first header named `name`, ignoring ASCII case.
pub open spec fn header_value(headers: Seq<(Seq<char>, Seq<char>)>, name: Seq<char>) -> Option<
    Seq<char>,
>
    decreases headers.len(),
{
    if headers.len() == 0 {
        None
    } else if eq_ignore_ascii_case(headers[0].0, name) {
        Some(headers[0].1)
    } else {
        header_value(headers.drop_first(), name)
    }
}

/// The integer in the first header named `name`, surrounding white space
/// ignored; `None` when that header is absent or does not hold one.
pub open spec fn header_integer(headers: Seq<(Seq<char>, Seq<char>)>, name: Seq<char>) -> Option<
    i64,
> {
    match header_value(headers, name) {
        Some(v) => parse_i64(trim(v)),
        None => None,
    }
}

/// The quota the three rate-limit headers give; `None` if any of them is
/// missing or does not hold an integer.
pub open spec fn quota_from_headers(headers: Seq<(Seq<char>, Seq<char>)>) -> Option<Quota> {
    let limit = header_integer(headers, "x-rate-limit-limit"@);
    let remaining = header_integer(headers, "x-rate-limit-remaining"@);
    let reset = header_integer(headers, "x-rate-limit-reset"@);
    if limit is Some && remaining is Some && reset is Some {
        Some(Quota { limit: limit->Some_0, remaining: remaining->Some_0, reset: reset->Some_0 })
    } else {
        None
    }
}

proof fn lemma_header_value_skip(headers: Seq<(Seq<char>, Seq<char>)>, name: Seq<char>, i: int)
    requires
        0 <= i < headers.len(),
        !eq_ignore_ascii_case(headers[i].0, name),
    ensures
        header_value(headers.subrange(i, headers.len() as int), name) == header_value(
            headers.subrange(i + 1, headers.len() as int),
            name,
        ),
{
    assert(headers.subrange(i, headers.len() as int).drop_first() =~= headers.subrange(
        i + 1,
        headers.len() as int,
    ));
}

/// The integer in the first header named `name` (ASCII case ignored), its
/// value trimmed and parsed as `i64`.
pub fn header_integer_value(headers: &Vec<(String, String)>, name: &str) -> (r: Option<i64>)
    ensures
        r == header_integer(headers.deep_view(), name@),
{
    let ghost hs = headers.deep_view();
    let n = headers.len();
    let mut i: usize = 0;
    assert(hs.subrange(0, n as int) =~= hs);
    while i < n
        invariant
            n == headers@.len(),
            hs == headers.deep_view(),
            i <= n,
            header_value(hs, name@) == header_value(hs.subrange(i as int, n as int), name@),
        decreases n - i,
    {
        let entry = &headers[i];
        assert(hs[i as int] == (entry.0@, entry.1@));
        if eq_ignore_ascii_case_str(entry.0.as_str(), name) {
            assert(hs.subrange(i as int, n as int)[0] == hs[i as int]);
            return parse_i64_str(trim_str(entry.1.as_str()));
        }
        proof {
            lemma_header_value_skip(hs, name@, i as int);
        }
        i = i + 1;
    }
    None
}

/// Parse the three rate-limit headers, case-insensitively, into a [`Quota`].
/// `None` if any header is missing or does not hold an integer.
pub fn parse_quota(headers: &Vec<(String, String)>) -> (r: Option<Quota>)
    ensures
        r == quota_from_headers(headers.deep_view()),
{
    let limit = header_integer_value(headers, "x-rate-limit-limit")?;
    let remaining = header_integer_value(headers, "x-rate-limit-remaining")?;
    let reset = header_integer_value(headers, "x-rate-limit-reset")?;
    Some(Quota { limit, remaining, reset })
}

/// The `error` string of a parsed body, if it has one.
pub open spec fn error_message_of(v: JsonTree) -> Option<Seq<char>> {
    match json_get(v, "error"@) {
        Some(JsonTree::Str(s)) => Some(s),
        _ => None,
    }
}

/// The message a non-2xx response reports: its `error` string, or a message
/// naming the status.
pub open spec fn failure_message(v: JsonTree, status: u16) -> Seq<char> {
    match error_message_of(v) {
        Some(s) => s,
        None => "request failed with status "@ + decimal(status as nat),
    }
}

/// What a response decodes to, given what its body parsed to: the body is
/// checked for JSON first, whatever the status; then a non-2xx status gives
/// its typed error; then a 2xx status gives the document and its quota, which
/// must be present.
pub open spec fn envelope(
    status: u16,
    headers: Seq<(Seq<char>, Seq<char>)>,
    parsed: Result<JsonTree, Seq<char>>,
) -> Result<(JsonTree, Quota), ErrorView> {
    let quota = quota_from_headers(headers);
    match parsed {
        Err(e) => Err(
            ErrorView::Transport {
                message: "response body is not valid JSON: "@ + e,
                status: Some(status),
                quota,
            },
        ),
        Ok(v) => if !(200 <= status < 300) {
            Err(error_for_status(status, failure_message(v, status), quota))
        } else {
            match quota {
                None => Err(
                    ErrorView::Transport {
                        message: "response is missing rate-limit headers"@,
                        status: Some(status),
                        quota: None,
                    },
                ),
                Some(q) => Ok((v, q)),
            }
        },
    }
}

/// The `error` string of a parsed body, if it has one.
fn parse_error_message(v: &JsonValue) -> (r: Option<String>)
    ensures
        view_opt_string(r) == error_message_of(v@),
{
    match crate::json::get_member(v, "error") {
        Some(JsonValue::Str(s)) => Some(s.clone()),
        _ => None,
    }
}

/// Decide a response from its status, its headers and what its body parsed
/// to (the document, or the parser's error text).
pub fn decode_parsed(
    status: u16,
    headers: &Vec<(String, String)>,
    parsed: Result<JsonValue, String>,
) -> (r: Result<(JsonValue, Quota), Error>)
    ensures
        match r {
            Ok((v, q)) => envelope(status, headers.deep_view(), view_result(parsed)) == Ok::<
                (JsonTree, Quota),
                ErrorView,
            >((v@, q)),
            Err(e) => envelope(status, headers.deep_view(), view_result(parsed)) == Err::<
                (JsonTree, Quota),
                ErrorView,
            >(e@),
        },
{
    let quota = parse_quota(headers);
    let value = match parsed {
        Err(detail) => {
            let mut message = String::from_str("response body is not valid JSON: ");
            message.append(detail.as_str());
            return Err(Error::Transport { message, status: Some(status), quota });
        },
        Ok(value) => value,
    };
    if !(200 <= status && status < 300) {
        let message = match parse_error_message(&value) {
            Some(m) => m,
            None => {
                let mut m = String::from_str("request failed with status ");
                let code = decimal_string(status as u64);
                m.append(code.as_str());
                m
            },
        };
        return Err(Error::from_status(status, message, quota));
    }
    match quota {
        None => Err(
            Error::Transport {
                message: String::from_str("response is missing rate-limit headers"),
                status: Some(status),
                quota: None,
            },
        ),
        Some(q) => Ok((value, q)),
    }
}

/// What a response decodes to: [`envelope`] over what serde_json makes of its
/// body.
pub open spec fn response_envelope(resp: ResponseView) -> Result<(JsonTree, Quota), ErrorView> {
    envelope(resp.status, resp.headers, json_parse(resp.body))
}

/// Decode a raw response into its JSON document and quota, or the error it
/// reports. The body is parsed as JSON first, regardless of status.
pub fn decode_response(response: &RawResponse) -> (r: Result<(JsonValue, Quota), Error>)
    ensures
        match r {
            Ok((v, q)) => response_envelope(response@) == Ok::<(JsonTree, Quota), ErrorView>(
                (v@, q),
            ),
            Err(e) => response_envelope(response@) == Err::<(JsonTree, Quota), ErrorView>(e@),
        },
{
    let parsed = parse_json(response.body.as_str());
    decode_parsed(response.status, &response.headers, parsed)
}

/// The error for a well-formed success body of the wrong shape.
pub open spec fn payload_error(status: u16, quota: Quota, detail: Seq<char>) -> ErrorView {
    ErrorView::Transport {
        message: "failed to parse response body: "@ + detail,
        status: Some(status),
        quota: Some(quota),
    }
}

/// What a response decodes to when its document is read by `f`: the error
/// of [`response_envelope`], or the value `f` reads with the response's
/// quota, or, when `f` fails, the payload error.
pub open spec fn outcome<V>(resp: ResponseView, f: spec_fn(JsonTree) -> Result<V, Seq<char>>) -> Result<
    (V, Quota),
    ErrorView,
> {
    match response_envelope(resp) {
        Err(e) => Err(e),
        Ok((v, q)) => match f(v) {
            Ok(p) => Ok((p, q)),
            Err(d) => Err(payload_error(resp.status, q, d)),
        },
    }
}

/// What a genderize response decodes to.
pub open spec fn genderize_outcome(resp: ResponseView) -> Result<(GenderizeView, Quota), ErrorView> {
    outcome(resp, |t: JsonTree| genderize_prediction(t))
}

/// What a genderize batch response decodes to.
pub open spec fn genderize_batch_outcome(resp: ResponseView) -> Result<
    (Seq<GenderizeView>, Quota),
    ErrorView,
> {
    outcome(resp, |t: JsonTree| prediction_list(t, |u: JsonTree| genderize_prediction(u)))
}

/// What an agify response decodes to.
pub open spec fn agify_outcome(resp: ResponseView) -> Result<(AgifyView, Quota), ErrorView> {
    outcome(resp, |t: JsonTree| agify_prediction(t))
}

/// What an agify batch response decodes to.
pub open spec fn agify_batch_outcome(resp: ResponseView) -> Result<
    (Seq<AgifyView>, Quota),
    ErrorView,
> {
    outcome(resp, |t: JsonTree| prediction_list(t, |u: JsonTree| agify_prediction(u)))
}

/// What a nationalize response decodes to.
pub open spec fn nationalize_outcome(resp: ResponseView) -> Result<
    (NationalizeView, Quota),
    ErrorView,
> {
    outcome(resp, |t: JsonTree| nationalize_prediction(t))
}

/// What a nationalize batch response decodes to.
pub open spec fn nationalize_batch_outcome(resp: ResponseView) -> Result<
    (Seq<NationalizeView>, Quota),
    ErrorView,
> {
    outcome(resp, |t: JsonTree| prediction_list(t, |u: JsonTree| nationalize_prediction(u)))
}

/// The error for a well-formed success body of the wrong shape.
fn make_payload_error(status: u16, quota: Quota, detail: String) -> (r: Error)
    ensures
        r@ == payload_error(status, quota, detail@),
{
    let mut message = String::from_str("failed to parse response body: ");
    message.append(detail.as_str());
    Error::Transport { message, status: Some(status), quota: Some(quota) }
}

/// Decode a genderize response into a prediction and its quota.
pub fn genderize_from_response(response: &RawResponse) -> (r: Result<GenderizeResult, Error>)
    ensures
        view_result(r) == genderize_outcome(response@),
{
    let (value, quota) = decode_response(response)?;
    match decode_genderize_prediction(&value) {
        Ok(prediction) => Ok(GenderizeResult { prediction, quota }),
        Err(detail) => Err(make_payload_error(response.status, quota, detail)),
    }
}

/// Decode a genderize batch response into its predictions, in order, and its
/// quota.
pub fn genderize_batch_from_response(response: &RawResponse) -> (r: Result<
    Batch<GenderizePrediction>,
    Error,
>)
    ensures
        view_result(r) == genderize_batch_outcome(response@),
{
    let (value, quota) = decode_response(response)?;
    match decode_genderize_list(&value) {
        Ok(results) => Ok(Batch { results, quota }),
        Err(detail) => Err(make_payload_error(response.status, quota, detail)),
    }
}

/// Decode an agify response into a prediction and its quota.
pub fn agify_from_response(response: &RawResponse) -> (r: Result<AgifyResult, Error>)
    ensures
        view_result(r) == agify_outcome(response@),
{
    let (value, quota) = decode_response(response)?;
    match decode_agify_prediction(&value) {
        Ok(prediction) => Ok(AgifyResult { prediction, quota }),
        Err(detail) => Err(make_payload_error(response.status, quota, detail)),
    }
}

/// Decode an agify batch response into its predictions, in order, and its
/// quota.
pub fn agify_batch_from_response(response: &RawResponse) -> (r: Result<
    Batch<AgifyPrediction>,
    Error,
>)
    ensures
        view_result(r) == agify_batch_outcome(response@),
{
    let (value, quota) = decode_response(response)?;
    match decode_agify_list(&value) {
        Ok(results) => Ok(Batch { results, quota }),
        Err(detail) => Err(make_payload_error(response.status, quota, detail)),
    }
}

/// Decode a nationalize response into a prediction and its quota.
pub fn nationalize_from_response(response: &RawResponse) -> (r: Result<NationalizeResult, Error>)
    ensures
        view_result(r) == nationalize_outcome(response@),
{
    let (value, quota) = decode_response(response)?;
    match decode_nationalize_prediction(&value) {
        Ok(prediction) => Ok(NationalizeResult { prediction, quota }),
        Err(detail) => Err(make_payload_error(response.status, quota, detail)),
    }
}

/// Decode a nationalize batch response into its predictions, in order, and
/// its quota.
pub fn nationalize_batch_from_response(response: &RawResponse) -> (r: Result<
    Batch<NationalizePrediction>,
    Error,
>)
    ensures
        view_result(r) == nationalize_batch_outcome(response@),
{
    let (value, quota) = decode_response(response)?;
    match decode_nationalize_list(&value) {
        Ok(results) => Ok(Batch { results, quota }),
        Err(detail) => Err(make_payload_error(response.status, quota, detail)),
    }
}

/// The quota an outcome carries: a success's quota, or an error's.
pub open spec fn outcome_quota<V>(o: Result<(V, Quota), ErrorView>) -> Option<Quota> {
    match o {
        Ok((_, q)) => Some(q),
        Err(e) => e.quota(),
    }
}

/// Law: every result and every error decoded from a response carries the
/// quota read from that response's rate-limit headers (none when they are
/// missing or unreadable).
pub proof fn lemma_outcome_carries_header_quota<V>(
    resp: ResponseView,
    f: spec_fn(JsonTree) -> Result<V, Seq<char>>,
)
    ensures
        outcome_quota(outcome(resp, f)) == quota_from_headers(resp.headers),
{
    match json_parse(resp.body) {
        Err(_) => {},
        Ok(v) => {
            if !(200 <= resp.status < 300) {
                crate::errors::lemma_status_error_keeps_its_parts(
                    resp.status,
                    failure_message(v, resp.status),
                    quota_from_headers(resp.headers),
                );
            }
        },
    }
}

/// Law: a body that is not JSON is a transport error carrying the status and
/// the header quota, whatever the status.
pub proof fn lemma_non_json_body_is_transport_error<V>(
    resp: ResponseView,
    f: spec_fn(JsonTree) -> Result<V, Seq<char>>,
)
    requires
        json_parse(resp.body) is Err,
    ensures
        outcome(resp, f) matches Err(ErrorView::Transport { status, quota, .. }) && status == Some(
            resp.status,
        ) && quota == quota_from_headers(resp.headers),
{
}

/// Law: a well-formed JSON body with a non-2xx status is the typed error for
/// that status, carrying the status, the body's `error` string (or a message
/// naming the status) and the header quota.
pub proof fn lemma_error_status_is_typed_error<V>(
    resp: ResponseView,
    f: spec_fn(JsonTree) -> Result<V, Seq<char>>,
)
    requires
        json_parse(resp.body) is Ok,
        !(200 <= resp.status < 300),
    ensures
        outcome(resp, f) == Err::<(V, Quota), ErrorView>(
            error_for_status(
                resp.status,
                failure_message(json_parse(resp.body)->Ok_0, resp.status),
                quota_from_headers(resp.headers),
            ),
        ),
{
}

proof fn lemma_fold_case(a: Seq<char>, b: Seq<char>, n: Seq<char>)
    requires
        eq_ignore_ascii_case(a, b),
    ensures
        eq_ignore_ascii_case(a, n) == eq_ignore_ascii_case(b, n),
{
    if eq_ignore_ascii_case(a, n) {
        assert forall|i: int| 0 <= i < b.len() implies ascii_fold(#[trigger] b[i]) == ascii_fold(n[i]) by {
            assert(ascii_fold(a[i]) == ascii_fold(b[i]));
            assert(ascii_fold(a[i]) == ascii_fold(n[i]));
        }
    }
    if eq_ignore_ascii_case(b, n) {
        assert forall|i: int| 0 <= i < a.len() implies ascii_fold(#[trigger] a[i]) == ascii_fold(n[i]) by {
            assert(ascii_fold(a[i]) == ascii_fold(b[i]));
            assert(ascii_fold(b[i]) == ascii_fold(n[i]));
        }
    }
}

/// Header lists that differ only in the ASCII case of their names.
pub open spec fn same_headers_up_to_case(
    h1: Seq<(Seq<char>, Seq<char>)>,
    h2: Seq<(Seq<char>, Seq<char>)>,
) -> bool {
    &&& h1.len() == h2.len()
    &&& forall|i: int|
        0 <= i < h1.len() ==> eq_ignore_ascii_case(#[trigger] h1[i].0, h2[i].0) && h1[i].1 == h2[i].1
}

proof fn lemma_header_value_ignores_case(
    h1: Seq<(Seq<char>, Seq<char>)>,
    h2: Seq<(Seq<char>, Seq<char>)>,
    name: Seq<char>,
)
    requires
        same_headers_up_to_case(h1, h2),
    ensures
        header_value(h1, name) == header_value(h2, name),
    decreases h1.len(),
{
    if h1.len() > 0 {
        assert(eq_ignore_ascii_case(h1[0].0, h2[0].0));
        lemma_fold_case(h1[0].0, h2[0].0, name);
        let t1 = h1.drop_first();
        let t2 = h2.drop_first();
        assert forall|i: int| 0 <= i < t1.len() implies eq_ignore_ascii_case(#[trigger] t1[i].0, t2[i].0) && t1[i].1 == t2[i].1 by {
            assert(t1[i] == h1[i + 1]);
            assert(t2[i] == h2[i + 1]);
        }
        lemma_header_value_ignores_case(t1, t2, name);
    }
}

/// Law: header names are matched without regard to ASCII case: renaming
/// headers to another case does not change the quota read from them.
pub proof fn lemma_quota_ignores_header_case(
    h1: Seq<(Seq<char>, Seq<char>)>,
    h2: Seq<(Seq<char>, Seq<char>)>,
)
    requires
        same_headers_up_to_case(h1, h2),
    ensures
        quota_from_headers(h1) == quota_from_headers(h2),
{
    lemma_header_value_ignores_case(h1, h2, "x-rate-limit-limit"@);
    lemma_header_value_ignores_case(h1, h2, "x-rate-limit-remaining"@);
    lemma_header_value_ignores_case(h1, h2, "x-rate-limit-reset"@);
}

/// Law: a call with a blank API key, or with more than 10 names, is rejected
/// as a client-side validation error, with status 0 (reported as no status)
/// and no quota; the batch size is checked first.
pub proof fn lemma_rejected_calls(
    base: Seq<char>,
    names: Seq<Seq<char>>,
    country_id: Option<Seq<char>>,
    api_key: Option<Seq<char>>,
)
    requires
        (api_key is Some && is_blank(api_key->Some_0)) || names.len() > MAX_BATCH,
    ensures
        prepared(base, names, country_id, api_key) matches Err(
            ErrorView::Validation { status, message, quota },
        ) && status == 0 && quota is None && message == (if names.len() > MAX_BATCH {
            batch_too_large(names.len())
        } else {
            api_key_required()
        }),
        prepared(base, names, country_id, api_key)->Err_0.status() is None,
{
}

/// Law: an accepted call goes to `base` with the fixed User-Agent; its query
/// holds a single `name` for one name and otherwise one `name[]` per name in
/// order (and no `name`), followed by `country_id` and `apikey` exactly when
/// they are given.
pub proof fn lemma_accepted_query_layout(
    base: Seq<char>,
    names: Seq<Seq<char>>,
    country_id: Option<Seq<char>>,
    api_key: Option<Seq<char>>,
)
    requires
        !(api_key is Some && is_blank(api_key->Some_0)),
        names.len() <= MAX_BATCH,
    ensures
        prepared(base, names, country_id, api_key) is Ok,
        ({
            let req = prepared(base, names, country_id, api_key)->Ok_0;
            let q = req.query;
            let k = if names.len() == 1 { 1int } else { names.len() as int };
            &&& req.url == base
            &&& req.user_agent == USER_AGENT@
            &&& names.len() == 1 ==> q[0] == ("name"@, names[0])
            &&& names.len() != 1 ==> forall|i: int|
                0 <= i < names.len() ==> #[trigger] q[i] == ("name[]"@, names[i])
            &&& q.len() == k + (if country_id is Some { 1int } else { 0 }) + (if api_key is Some {
                1int
            } else {
                0
            })
            &&& country_id is Some ==> q[k] == ("country_id"@, country_id->Some_0)
            &&& api_key is Some ==> q.last() == ("apikey"@, api_key->Some_0)
            &&& names.len() != 1 ==> forall|i: int| 0 <= i < q.len() ==> #[trigger] q[i].0 != "name"@
        }),
{
    reveal_strlit("name");
    reveal_strlit("name[]");
    reveal_strlit("country_id");
    reveal_strlit("apikey");
    let q = query_params(names, country_id, api_key);
    let k = if names.len() == 1 { 1int } else { names.len() as int };
    if names.len() != 1 {
        assert forall|i: int| 0 <= i < q.len() implies #[trigger] q[i].0 != "name"@ by {
            if i < k {
                assert(q[i].0 == "name[]"@);
            } else if country_id is Some && i == k {
                assert(q[i].0 == "country_id"@);
            } else {
                assert(q[i].0 == "apikey"@);
            }
        }
    }
}

/// The three rate-limit headers, holding the decimal renderings of a quota.
pub open spec fn quota_headers(q: Quota) -> Seq<(Seq<char>, Seq<char>)> {
    seq![
        ("x-rate-limit-limit"@, decimal(q.limit as nat)),
        ("x-rate-limit-remaining"@, decimal(q.remaining as nat)),
        ("x-rate-limit-reset"@, decimal(q.reset as nat)),
    ]
}

/// Law: a quota written into the three rate-limit headers as decimal numbers
/// reads back as the same quota.
pub proof fn lemma_quota_headers_round_trip(q: Quota)
    requires
        q.limit >= 0,
        q.remaining >= 0,
        q.reset >= 0,
    ensures
        quota_from_headers(quota_headers(q)) == Some(q),
{
    reveal_strlit("x-rate-limit-limit");
    reveal_strlit("x-rate-limit-remaining");
    reveal_strlit("x-rate-limit-reset");
    let h = quota_headers(q);
    let (l, m, r) = ("x-rate-limit-limit"@, "x-rate-limit-remaining"@, "x-rate-limit-reset"@);
    assert(eq_ignore_ascii_case(l, l));
    assert(eq_ignore_ascii_case(m, m));
    assert(eq_ignore_ascii_case(r, r));
    assert(!eq_ignore_ascii_case(l, m));
    assert(!eq_ignore_ascii_case(l, r)) by {
        assert(ascii_fold(l[13]) != ascii_fold(r[13]));
    }
    assert(!eq_ignore_ascii_case(m, r));
    assert(h.drop_first()[0] == h[1]);
    assert(h.drop_first().drop_first()[0] == h[2]);
    assert(header_value(h, l) == Some(decimal(q.limit as nat)));
    assert(header_value(h.drop_first(), m) == Some(decimal(q.remaining as nat)));
    assert(header_value(h, m) == Some(decimal(q.remaining as nat)));
    assert(header_value(h.drop_first().drop_first(), r) == Some(decimal(q.reset as nat)));
    assert(header_value(h.drop_first(), r) == Some(decimal(q.reset as nat)));
    assert(header_value(h, r) == Some(decimal(q.reset as nat)));
    crate::text::lemma_decimal_round_trip(q.limit as nat);
    crate::text::lemma_decimal_round_trip(q.remaining as nat);
    crate::text::lemma_decimal_round_trip(q.reset as nat);
}

} // verus!
