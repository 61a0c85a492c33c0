//! Properties of the library stated over its inputs: which error a status
//! gives, where the rate-limit headers are read from, and what a decoded
//! response holds of the document it came from.

use vstd::prelude::*;
use crate::client::{
    agify_batch_outcome, agify_outcome, failure_message, genderize_batch_outcome, genderize_outcome,
    header_integer, header_value, nationalize_batch_outcome, nationalize_outcome,
    quota_from_headers, response_envelope, ResponseView,
};
use crate::errors::{display_text, error_for_status, ErrorView};
use crate::json::{
    by_name, check_integer, check_number, check_optional_integer, check_optional_string,
    check_string, first_error, first_member, json_parse, missing_field, JsonTree,
};
use crate::models::{
    agify_prediction, check_countries, decode_each, genderize_prediction,
    lemma_decode_each_in_order, nationalize_country, nationalize_prediction, AgifyView,
    CountryView, GenderizeView, NationalizeView, Quota,
};
use crate::text::{decimal, eq_ignore_ascii_case, parse_i64, trim};

verus! {

/// Law: statuses 401, 402 and 422 have error variants of their own, 429 is a
/// rate-limit error when a quota was read (a transport anomaly without one),
/// and every other status is an API error carrying the status, the message
/// and the quota unchanged.
pub proof fn lemma_status_variants(status: u16, message: Seq<char>, quota: Option<Quota>)
    ensures
        error_for_status(status, message, quota) is Auth <==> status == 401,
        error_for_status(status, message, quota) is Subscription <==> status == 402,
        error_for_status(status, message, quota) is Validation <==> status == 422,
        error_for_status(status, message, quota) is RateLimit <==> status == 429 && quota is Some,
        error_for_status(status, message, quota) is Transport <==> status == 429 && quota is None,
        error_for_status(status, message, quota) is Api <==> status != 401 && status != 402
            && status != 422 && status != 429,
        status != 401 && status != 402 && status != 422 && status != 429 ==> error_for_status(
            status,
            message,
            quota,
        ) == (ErrorView::Api { status, message, quota }),
{
}

/// Law: the text of the error built for a status is its message followed by
/// ` (status N)`, except for status 0 (a client-side rejection), whose text
/// is the message alone.
pub proof fn lemma_status_error_text(status: u16, message: Seq<char>, quota: Option<Quota>)
    ensures
        display_text(error_for_status(status, message, quota)) == (if status == 0 {
            message
        } else {
            message + " (status "@ + decimal(status as nat) + ")"@
        }),
{
}

/// `i` is the position of the first header named `name`, ASCII case ignored.
pub open spec fn first_header_at(headers: Seq<(Seq<char>, Seq<char>)>, name: Seq<char>, i: int) -> bool {
    &&& 0 <= i < headers.len()
    &&& eq_ignore_ascii_case(headers[i].0, name)
    &&& forall|j: int| 0 <= j < i ==> !eq_ignore_ascii_case(#[trigger] headers[j].0, name)
}

/// No header is named `name`, ASCII case ignored.
pub open spec fn lacks_header(headers: Seq<(Seq<char>, Seq<char>)>, name: Seq<char>) -> bool {
    forall|j: int| 0 <= j < headers.len() ==> !eq_ignore_ascii_case(#[trigger] headers[j].0, name)
}

proof fn lemma_header_value_at(headers: Seq<(Seq<char>, Seq<char>)>, name: Seq<char>, i: int)
    requires
        first_header_at(headers, name, i),
    ensures
        header_value(headers, name) == Some(headers[i].1),
    decreases i,
{
    if i > 0 {
        let t = headers.drop_first();
        assert(!eq_ignore_ascii_case(headers[0].0, name));
        assert forall|j: int| 0 <= j < i - 1 implies !eq_ignore_ascii_case(#[trigger] t[j].0, name) by {
            assert(t[j] == headers[j + 1]);
        }
        lemma_header_value_at(t, name, i - 1);
    }
}

proof fn lemma_header_value_absent(headers: Seq<(Seq<char>, Seq<char>)>, name: Seq<char>)
    requires
        lacks_header(headers, name),
    ensures
        header_value(headers, name) is None,
    decreases headers.len(),
{
    if headers.len() > 0 {
        let t = headers.drop_first();
        assert(!eq_ignore_ascii_case(headers[0].0, name));
        assert forall|j: int| 0 <= j < t.len() implies !eq_ignore_ascii_case(#[trigger] t[j].0, name) by {
            assert(t[j] == headers[j + 1]);
        }
        lemma_header_value_absent(t, name);
    }
}

proof fn lemma_header_value_insert(
    headers: Seq<(Seq<char>, Seq<char>)>,
    name: Seq<char>,
    k: int,
    extra: (Seq<char>, Seq<char>),
)
    requires
        0 <= k <= headers.len(),
        !eq_ignore_ascii_case(extra.0, name),
    ensures
        header_value(headers.insert(k, extra), name) == header_value(headers, name),
    decreases k,
{
    let h = headers.insert(k, extra);
    if k == 0 {
        assert(h.drop_first() =~= headers);
    } else {
        assert(h[0] == headers[0]);
        if !eq_ignore_ascii_case(headers[0].0, name) {
            assert(h.drop_first() =~= headers.drop_first().insert(k - 1, extra));
            lemma_header_value_insert(headers.drop_first(), name, k - 1, extra);
        }
    }
}

/// Law: the integer read for a header name is the value of the first header
/// of that name, ASCII case ignored, trimmed and parsed, wherever in the list
/// that header stands.
pub proof fn lemma_header_integer_from_first_match(
    headers: Seq<(Seq<char>, Seq<char>)>,
    name: Seq<char>,
    i: int,
)
    requires
        first_header_at(headers, name, i),
    ensures
        header_integer(headers, name) == parse_i64(trim(headers[i].1)),
{
    lemma_header_value_at(headers, name, i);
}

/// Law: with no header of that name, no integer is read.
pub proof fn lemma_header_integer_absent(headers: Seq<(Seq<char>, Seq<char>)>, name: Seq<char>)
    requires
        lacks_header(headers, name),
    ensures
        header_integer(headers, name) is None,
{
    lemma_header_value_absent(headers, name);
}

/// Law: a header of another name, added anywhere in the list (in front of it,
/// in particular), does not change the integer read for `name`.
pub proof fn lemma_header_integer_ignores_other_names(
    headers: Seq<(Seq<char>, Seq<char>)>,
    name: Seq<char>,
    k: int,
    extra: (Seq<char>, Seq<char>),
)
    requires
        0 <= k <= headers.len(),
        !eq_ignore_ascii_case(extra.0, name),
    ensures
        header_integer(headers.insert(k, extra), name) == header_integer(headers, name),
        header_integer(seq![extra] + headers, name) == header_integer(headers, name),
{
    lemma_header_value_insert(headers, name, k, extra);
    lemma_header_value_insert(headers, name, 0, extra);
    assert(seq![extra] + headers =~= headers.insert(0, extra));
}

/// Law: a header whose name is none of the three rate-limit names, added
/// anywhere in the list, does not change the quota read from the headers.
pub proof fn lemma_quota_ignores_other_headers(
    headers: Seq<(Seq<char>, Seq<char>)>,
    k: int,
    extra: (Seq<char>, Seq<char>),
)
    requires
        0 <= k <= headers.len(),
        !eq_ignore_ascii_case(extra.0, "x-rate-limit-limit"@),
        !eq_ignore_ascii_case(extra.0, "x-rate-limit-remaining"@),
        !eq_ignore_ascii_case(extra.0, "x-rate-limit-reset"@),
    ensures
        quota_from_headers(headers.insert(k, extra)) == quota_from_headers(headers),
        quota_from_headers(seq![extra] + headers) == quota_from_headers(headers),
{
    lemma_header_integer_ignores_other_names(headers, "x-rate-limit-limit"@, k, extra);
    lemma_header_integer_ignores_other_names(headers, "x-rate-limit-remaining"@, k, extra);
    lemma_header_integer_ignores_other_names(headers, "x-rate-limit-reset"@, k, extra);
}

/// Law: the quota is the three integers read from the first header of each
/// rate-limit name, wherever those headers stand among the others.
pub proof fn lemma_quota_from_first_matches(
    headers: Seq<(Seq<char>, Seq<char>)>,
    i: int,
    j: int,
    k: int,
    q: Quota,
)
    requires
        first_header_at(headers, "x-rate-limit-limit"@, i),
        first_header_at(headers, "x-rate-limit-remaining"@, j),
        first_header_at(headers, "x-rate-limit-reset"@, k),
        parse_i64(trim(headers[i].1)) == Some(q.limit),
        parse_i64(trim(headers[j].1)) == Some(q.remaining),
        parse_i64(trim(headers[k].1)) == Some(q.reset),
    ensures
        quota_from_headers(headers) == Some(q),
{
    lemma_header_value_at(headers, "x-rate-limit-limit"@, i);
    lemma_header_value_at(headers, "x-rate-limit-remaining"@, j);
    lemma_header_value_at(headers, "x-rate-limit-reset"@, k);
}

proof fn lemma_decode_each_first_failure<V>(
    items: Seq<JsonTree>,
    f: spec_fn(JsonTree) -> Result<V, Seq<char>>,
    k: int,
)
    requires
        0 <= k < items.len(),
        f(items[k]) is Err,
        forall|j: int| 0 <= j < k ==> #[trigger] f(items[j]) is Ok,
    ensures
        decode_each(items, f) == Err::<Seq<V>, Seq<char>>(f(items[k])->Err_0),
    decreases items.len(),
{
    let t = items.drop_last();
    if k == items.len() - 1 {
        assert forall|j: int| 0 <= j < t.len() implies #[trigger] f(t[j]) is Ok by {
            assert(t[j] == items[j]);
        }
        lemma_decode_each_in_order(t, f);
    } else {
        assert forall|j: int| 0 <= j < k implies #[trigger] f(t[j]) is Ok by {
            assert(t[j] == items[j]);
        }
        assert(t[k] == items[k]);
        lemma_decode_each_first_failure(t, f, k);
    }
}

/// Law: a genderize batch succeeds exactly when the response's document is a JSON
/// array every element of which decodes; its predictions are then the
/// elements' decodings, one per element and in the same order, with the
/// response's quota. An error of the response is passed on unchanged, a
/// document that is not an array is an error, and when element `k` is the
/// first that does not decode, the batch fails with a transport error that
/// carries that element's error, the status and the quota.
pub proof fn lemma_genderize_batch_is_elementwise(resp: ResponseView, k: int)
    ensures
        genderize_batch_outcome(resp) matches Ok((vs, q)) ==> (response_envelope(resp) matches Ok(
            (JsonTree::Array(items), q2),
        ) && q2 == q && vs.len() == items.len() && forall|i: int|
            0 <= i < items.len() ==> #[trigger] genderize_prediction(items[i]) == Ok::<
                GenderizeView,
                Seq<char>,
            >(vs[i])),
        (response_envelope(resp) matches Ok((JsonTree::Array(items), q)) && forall|i: int|
            0 <= i < items.len() ==> #[trigger] genderize_prediction(items[i]) is Ok) ==> genderize_batch_outcome(
            resp,
        ) is Ok,
        response_envelope(resp) is Err ==> genderize_batch_outcome(resp) == Err::<
            (Seq<GenderizeView>, Quota),
            ErrorView,
        >(response_envelope(resp)->Err_0),
        (response_envelope(resp) matches Ok((v, _)) && !(v is Array)) ==> genderize_batch_outcome(
            resp,
        ) is Err,
        response_envelope(resp) matches Ok((JsonTree::Array(items), q)) ==> (0 <= k < items.len()
            && genderize_prediction(items[k]) is Err && (forall|j: int|
            0 <= j < k ==> #[trigger] genderize_prediction(items[j]) is Ok) ==> genderize_batch_outcome(resp)
            == Err::<(Seq<GenderizeView>, Quota), ErrorView>(
            ErrorView::Transport {
                message: "failed to parse response body: "@ + genderize_prediction(items[k])->Err_0,
                status: Some(resp.status),
                quota: Some(q),
            },
        )),
{
    match response_envelope(resp) {
        Ok((JsonTree::Array(items), _)) => {
            let f = |u: JsonTree| genderize_prediction(u);
            lemma_decode_each_in_order(items, f);
            if 0 <= k < items.len() && genderize_prediction(items[k]) is Err && forall|j: int|
                0 <= j < k ==> #[trigger] genderize_prediction(items[j]) is Ok {
                lemma_decode_each_first_failure(items, f, k);
            }
            if decode_each(items, f) is Ok {
                let vs = decode_each(items, f)->Ok_0;
                assert forall|i: int| 0 <= i < items.len() implies #[trigger] genderize_prediction(items[i])
                    == Ok::<GenderizeView, Seq<char>>(vs[i]) by {
                    assert(f(items[i]) == Ok::<GenderizeView, Seq<char>>(vs[i]));
                }
            }
        },
        _ => {},
    }
}

/// Law: a single genderize call succeeds exactly when the response's document
/// decodes; the prediction is then that decoding, with the response's quota.
/// A document that does not decode gives a transport error carrying the
/// decoding error, the status and the quota.
pub proof fn lemma_genderize_single_is_the_document(resp: ResponseView)
    ensures
        genderize_outcome(resp) matches Ok((p, q)) ==> (response_envelope(resp) matches Ok((v, q2))
            && q2 == q && genderize_prediction(v) == Ok::<GenderizeView, Seq<char>>(p)),
        (response_envelope(resp) matches Ok((v, _)) && genderize_prediction(v) is Ok) ==> genderize_outcome(
            resp,
        ) is Ok,
        response_envelope(resp) is Err ==> genderize_outcome(resp) == Err::<(GenderizeView, Quota), ErrorView>(
            response_envelope(resp)->Err_0,
        ),
        response_envelope(resp) matches Ok((v, q)) ==> (genderize_prediction(v) is Err ==> genderize_outcome(resp)
            == Err::<(GenderizeView, Quota), ErrorView>(
            ErrorView::Transport {
                message: "failed to parse response body: "@ + genderize_prediction(v)->Err_0,
                status: Some(resp.status),
                quota: Some(q),
            },
        )),
{
}

/// Law: an agify batch succeeds exactly when the response's document is a JSON
/// array every element of which decodes; its predictions are then the
/// elements' decodings, one per element and in the same order, with the
/// response's quota. An error of the response is passed on unchanged, a
/// document that is not an array is an error, and when element `k` is the
/// first that does not decode, the batch fails with a transport error that
/// carries that element's error, the status and the quota.
pub proof fn lemma_agify_batch_is_elementwise(resp: ResponseView, k: int)
    ensures
        agify_batch_outcome(resp) matches Ok((vs, q)) ==> (response_envelope(resp) matches Ok(
            (JsonTree::Array(items), q2),
        ) && q2 == q && vs.len() == items.len() && forall|i: int|
            0 <= i < items.len() ==> #[trigger] agify_prediction(items[i]) == Ok::<
                AgifyView,
                Seq<char>,
            >(vs[i])),
        (response_envelope(resp) matches Ok((JsonTree::Array(items), q)) && forall|i: int|
            0 <= i < items.len() ==> #[trigger] agify_prediction(items[i]) is Ok) ==> agify_batch_outcome(
            resp,
        ) is Ok,
        response_envelope(resp) is Err ==> agify_batch_outcome(resp) == Err::<
            (Seq<AgifyView>, Quota),
            ErrorView,
        >(response_envelope(resp)->Err_0),
        (response_envelope(resp) matches Ok((v, _)) && !(v is Array)) ==> agify_batch_outcome(
            resp,
        ) is Err,
        response_envelope(resp) matches Ok((JsonTree::Array(items), q)) ==> (0 <= k < items.len()
            && agify_prediction(items[k]) is Err && (forall|j: int|
            0 <= j < k ==> #[trigger] agify_prediction(items[j]) is Ok) ==> agify_batch_outcome(resp)
            == Err::<(Seq<AgifyView>, Quota), ErrorView>(
            ErrorView::Transport {
                message: "failed to parse response body: "@ + agify_prediction(items[k])->Err_0,
                status: Some(resp.status),
                quota: Some(q),
            },
        )),
{
    match response_envelope(resp) {
        Ok((JsonTree::Array(items), _)) => {
            let f = |u: JsonTree| agify_prediction(u);
            lemma_decode_each_in_order(items, f);
            if 0 <= k < items.len() && agify_prediction(items[k]) is Err && forall|j: int|
                0 <= j < k ==> #[trigger] agify_prediction(items[j]) is Ok {
                lemma_decode_each_first_failure(items, f, k);
            }
            if decode_each(items, f) is Ok {
                let vs = decode_each(items, f)->Ok_0;
                assert forall|i: int| 0 <= i < items.len() implies #[trigger] agify_prediction(items[i])
                    == Ok::<AgifyView, Seq<char>>(vs[i]) by {
                    assert(f(items[i]) == Ok::<AgifyView, Seq<char>>(vs[i]));
                }
            }
        },
        _ => {},
    }
}

/// Law: a single agify call succeeds exactly when the response's document
/// decodes; the prediction is then that decoding, with the response's quota.
/// A document that does not decode gives a transport error carrying the
/// decoding error, the status and the quota.
pub proof fn lemma_agify_single_is_the_document(resp: ResponseView)
    ensures
        agify_outcome(resp) matches Ok((p, q)) ==> (response_envelope(resp) matches Ok((v, q2))
            && q2 == q && agify_prediction(v) == Ok::<AgifyView, Seq<char>>(p)),
        (response_envelope(resp) matches Ok((v, _)) && agify_prediction(v) is Ok) ==> agify_outcome(
            resp,
        ) is Ok,
        response_envelope(resp) is Err ==> agify_outcome(resp) == Err::<(AgifyView, Quota), ErrorView>(
            response_envelope(resp)->Err_0,
        ),
        response_envelope(resp) matches Ok((v, q)) ==> (agify_prediction(v) is Err ==> agify_outcome(resp)
            == Err::<(AgifyView, Quota), ErrorView>(
            ErrorView::Transport {
                message: "failed to parse response body: "@ + agify_prediction(v)->Err_0,
                status: Some(resp.status),
                quota: Some(q),
            },
        )),
{
}

/// Law: a nationalize batch succeeds exactly when the response's document is a JSON
/// array every element of which decodes; its predictions are then the
/// elements' decodings, one per element and in the same order, with the
/// response's quota. An error of the response is passed on unchanged, a
/// document that is not an array is an error, and when element `k` is the
/// first that does not decode, the batch fails with a transport error that
/// carries that element's error, the status and the quota.
pub proof fn lemma_nationalize_batch_is_elementwise(resp: ResponseView, k: int)
    ensures
        nationalize_batch_outcome(resp) matches Ok((vs, q)) ==> (response_envelope(resp) matches Ok(
            (JsonTree::Array(items), q2),
        ) && q2 == q && vs.len() == items.len() && forall|i: int|
            0 <= i < items.len() ==> #[trigger] nationalize_prediction(items[i]) == Ok::<
                NationalizeView,
                Seq<char>,
            >(vs[i])),
        (response_envelope(resp) matches Ok((JsonTree::Array(items), q)) && forall|i: int|
            0 <= i < items.len() ==> #[trigger] nationalize_prediction(items[i]) is Ok) ==> nationalize_batch_outcome(
            resp,
        ) is Ok,
        response_envelope(resp) is Err ==> nationalize_batch_outcome(resp) == Err::<
            (Seq<NationalizeView>, Quota),
            ErrorView,
        >(response_envelope(resp)->Err_0),
        (response_envelope(resp) matches Ok((v, _)) && !(v is Array)) ==> nationalize_batch_outcome(
            resp,
        ) is Err,
        response_envelope(resp) matches Ok((JsonTree::Array(items), q)) ==> (0 <= k < items.len()
            && nationalize_prediction(items[k]) is Err && (forall|j: int|
            0 <= j < k ==> #[trigger] nationalize_prediction(items[j]) is Ok) ==> nationalize_batch_outcome(resp)
            == Err::<(Seq<NationalizeView>, Quota), ErrorView>(
            ErrorView::Transport {
                message: "failed to parse response body: "@ + nationalize_prediction(items[k])->Err_0,
                status: Some(resp.status),
                quota: Some(q),
            },
        )),
{
    match response_envelope(resp) {
        Ok((JsonTree::Array(items), _)) => {
            let f = |u: JsonTree| nationalize_prediction(u);
            lemma_decode_each_in_order(items, f);
            if 0 <= k < items.len() && nationalize_prediction(items[k]) is Err && forall|j: int|
                0 <= j < k ==> #[trigger] nationalize_prediction(items[j]) is Ok {
                lemma_decode_each_first_failure(items, f, k);
            }
            if decode_each(items, f) is Ok {
                let vs = decode_each(items, f)->Ok_0;
                assert forall|i: int| 0 <= i < items.len() implies #[trigger] nationalize_prediction(items[i])
                    == Ok::<NationalizeView, Seq<char>>(vs[i]) by {
                    assert(f(items[i]) == Ok::<NationalizeView, Seq<char>>(vs[i]));
                }
            }
        },
        _ => {},
    }
}

/// Law: a single nationalize call succeeds exactly when the response's document
/// decodes; the prediction is then that decoding, with the response's quota.
/// A document that does not decode gives a transport error carrying the
/// decoding error, the status and the quota.
pub proof fn lemma_nationalize_single_is_the_document(resp: ResponseView)
    ensures
        nationalize_outcome(resp) matches Ok((p, q)) ==> (response_envelope(resp) matches Ok((v, q2))
            && q2 == q && nationalize_prediction(v) == Ok::<NationalizeView, Seq<char>>(p)),
        (response_envelope(resp) matches Ok((v, _)) && nationalize_prediction(v) is Ok) ==> nationalize_outcome(
            resp,
        ) is Ok,
        response_envelope(resp) is Err ==> nationalize_outcome(resp) == Err::<(NationalizeView, Quota), ErrorView>(
            response_envelope(resp)->Err_0,
        ),
        response_envelope(resp) matches Ok((v, q)) ==> (nationalize_prediction(v) is Err ==> nationalize_outcome(resp)
            == Err::<(NationalizeView, Quota), ErrorView>(
            ErrorView::Transport {
                message: "failed to parse response body: "@ + nationalize_prediction(v)->Err_0,
                status: Some(resp.status),
                quota: Some(q),
            },
        )),
{
}

/// `i` is the position of the first member named `key`.
pub open spec fn member_at(members: Seq<(Seq<char>, JsonTree)>, key: Seq<char>, i: int) -> bool {
    &&& 0 <= i < members.len()
    &&& members[i].0 == key
    &&& forall|j: int| 0 <= j < i ==> #[trigger] members[j].0 != key
}

/// No member is named `key`.
pub open spec fn lacks_member(members: Seq<(Seq<char>, JsonTree)>, key: Seq<char>) -> bool {
    forall|j: int| 0 <= j < members.len() ==> #[trigger] members[j].0 != key
}

/// `t` is a JSON integer, in the range of `i64`.
pub open spec fn is_integer(t: JsonTree) -> bool {
    t matches JsonTree::Number(n) && n.integer is Some
}

/// `t` is the JSON integer `value`.
pub open spec fn holds_integer(t: JsonTree, value: i64) -> bool {
    t matches JsonTree::Number(n) && n.integer == Some(value)
}

/// `t` is the JSON integer `value`, or `null` for none.
pub open spec fn holds_optional_integer(t: JsonTree, value: Option<i64>) -> bool {
    match value {
        Some(x) => holds_integer(t, x),
        None => t == JsonTree::Null,
    }
}

/// `t` is the JSON string `value`, or `null` for none.
pub open spec fn holds_optional_string(t: JsonTree, value: Option<Seq<char>>) -> bool {
    match value {
        Some(s) => t == JsonTree::Str(s),
        None => t == JsonTree::Null,
    }
}

proof fn lemma_first_member_at(members: Seq<(Seq<char>, JsonTree)>, key: Seq<char>, i: int)
    requires
        member_at(members, key, i),
    ensures
        first_member(members, key) == Some(members[i].1),
    decreases i,
{
    if i > 0 {
        let t = members.drop_first();
        assert(members[0].0 != key);
        assert forall|j: int| 0 <= j < i - 1 implies #[trigger] t[j].0 != key by {
            assert(t[j] == members[j + 1]);
        }
        lemma_first_member_at(t, key, i - 1);
    }
}

proof fn lemma_first_member_absent(members: Seq<(Seq<char>, JsonTree)>, key: Seq<char>)
    ensures
        first_member(members, key) is None <==> lacks_member(members, key),
        first_member(members, key) matches Some(t) ==> exists|i: int|
            #[trigger] member_at(members, key, i) && members[i].1 == t,
    decreases members.len(),
{
    if members.len() > 0 {
        let t = members.drop_first();
        lemma_first_member_absent(t, key);
        if members[0].0 == key {
            assert(member_at(members, key, 0));
        } else {
            assert forall|j: int| 0 <= j < t.len() implies #[trigger] t[j] == members[j + 1] by {}
            if lacks_member(t, key) {
                assert forall|j: int| 0 <= j < members.len() implies #[trigger] members[j].0 != key by {
                    if j > 0 {
                        assert(members[j] == t[j - 1]);
                    }
                }
            }
            if first_member(t, key) is Some {
                let k = choose|k: int| #[trigger] member_at(t, key, k) && t[k].1 == first_member(t, key)->Some_0;
                assert forall|j: int| 0 <= j < k + 1 implies #[trigger] members[j].0 != key by {
                    if j > 0 {
                        assert(members[j] == t[j - 1]);
                    }
                }
                assert(member_at(members, key, k + 1));
            }
        }
    }
}

proof fn lemma_by_name_ok<A>(
    members: Seq<(Seq<char>, JsonTree)>,
    key: Seq<char>,
    check: spec_fn(JsonTree) -> Result<A, Seq<char>>,
    absent: Result<A, Seq<char>>,
    value: A,
)
    requires
        by_name(members, key, check, absent) == Ok::<A, Seq<char>>(value),
    ensures
        lacks_member(members, key) ==> absent == Ok::<A, Seq<char>>(value),
        forall|i: int| #[trigger]
            member_at(members, key, i) ==> check(members[i].1) == Ok::<A, Seq<char>>(value),
{
    lemma_first_member_absent(members, key);
    assert forall|i: int| #[trigger] member_at(members, key, i) implies check(members[i].1) == Ok::<
        A,
        Seq<char>,
    >(value) by {
        lemma_first_member_at(members, key, i);
    }
}

proof fn lemma_by_name_accepts<A>(
    members: Seq<(Seq<char>, JsonTree)>,
    key: Seq<char>,
    check: spec_fn(JsonTree) -> Result<A, Seq<char>>,
    absent: Result<A, Seq<char>>,
)
    requires
        forall|i: int| 0 <= i < members.len() && #[trigger] members[i].0 == key ==> check(members[i].1) is Ok,
        lacks_member(members, key) ==> absent is Ok,
    ensures
        by_name(members, key, check, absent) is Ok,
{
    lemma_first_member_absent(members, key);
}

proof fn lemma_first_error_none<A>(items: Seq<A>, f: spec_fn(A) -> Option<Seq<char>>)
    requires
        forall|i: int| 0 <= i < items.len() ==> #[trigger] f(items[i]) is None,
    ensures
        first_error(items, f) is None,
    decreases items.len(),
{
    if items.len() > 0 {
        let t = items.drop_last();
        assert forall|i: int| 0 <= i < t.len() implies #[trigger] f(t[i]) is None by {
            assert(t[i] == items[i]);
        }
        lemma_first_error_none(t, f);
        assert(f(items[items.len() - 1]) is None);
    }
}

/// Law: an age prediction decoded from a JSON object holds what the object
/// holds under each field's name (the first member of that name): the string
/// `name`, the integer `count`, the integer or `null` `age` and the string or
/// `null` `country_id`; `name` and `count` are present, and an absent `age` or
/// `country_id` is none.
pub proof fn lemma_agify_object_fields(members: Seq<(Seq<char>, JsonTree)>, p: AgifyView)
    requires
        agify_prediction(JsonTree::Object(members)) == Ok::<AgifyView, Seq<char>>(p),
    ensures
        !lacks_member(members, "name"@),
        !lacks_member(members, "count"@),
        forall|i: int| #[trigger] member_at(members, "name"@, i) ==> members[i].1 == JsonTree::Str(p.name),
        forall|i: int| #[trigger]
            member_at(members, "age"@, i) ==> holds_optional_integer(members[i].1, p.age),
        lacks_member(members, "age"@) ==> p.age is None,
        forall|i: int| #[trigger] member_at(members, "count"@, i) ==> holds_integer(members[i].1, p.count),
        forall|i: int| #[trigger]
            member_at(members, "country_id"@, i) ==> holds_optional_string(members[i].1, p.country_id),
        lacks_member(members, "country_id"@) ==> p.country_id is None,
{
    lemma_by_name_ok(members, "name"@, |t: JsonTree| check_string(t), Err(missing_field("name"@)), p.name);
    lemma_by_name_ok(members, "age"@, |t: JsonTree| check_optional_integer(t), Ok(None), p.age);
    lemma_by_name_ok(
        members,
        "count"@,
        |t: JsonTree| check_integer(t),
        Err(missing_field("count"@)),
        p.count,
    );
    lemma_by_name_ok(
        members,
        "country_id"@,
        |t: JsonTree| check_optional_string(t),
        Ok(None),
        p.country_id,
    );
}

/// Law: an age prediction decoded from a JSON array holds its elements in
/// order: `name`, `age`, `count` and, when a fourth element is there,
/// `country_id` (none otherwise); the array has three or four elements.
pub proof fn lemma_agify_array_fields(items: Seq<JsonTree>, p: AgifyView)
    requires
        agify_prediction(JsonTree::Array(items)) == Ok::<AgifyView, Seq<char>>(p),
    ensures
        3 <= items.len() <= 4,
        items[0] == JsonTree::Str(p.name),
        holds_optional_integer(items[1], p.age),
        holds_integer(items[2], p.count),
        items.len() == 4 ==> holds_optional_string(items[3], p.country_id),
        items.len() == 3 ==> p.country_id is None,
{
}

/// Law: a gender prediction decoded from a JSON object holds what the object
/// holds under each field's name (the first member of that name): the string
/// `name`, the string or `null` `gender`, the number `probability`, the
/// integer `count` and the string or `null` `country_id`; `name`,
/// `probability` and `count` are present, and an absent `gender` or
/// `country_id` is none.
pub proof fn lemma_genderize_object_fields(members: Seq<(Seq<char>, JsonTree)>, p: GenderizeView)
    requires
        genderize_prediction(JsonTree::Object(members)) == Ok::<GenderizeView, Seq<char>>(p),
    ensures
        !lacks_member(members, "name"@),
        !lacks_member(members, "probability"@),
        !lacks_member(members, "count"@),
        forall|i: int| #[trigger] member_at(members, "name"@, i) ==> members[i].1 == JsonTree::Str(p.name),
        forall|i: int| #[trigger]
            member_at(members, "gender"@, i) ==> holds_optional_string(members[i].1, p.gender),
        lacks_member(members, "gender"@) ==> p.gender is None,
        forall|i: int| #[trigger]
            member_at(members, "probability"@, i) ==> members[i].1 == JsonTree::Number(p.probability),
        forall|i: int| #[trigger] member_at(members, "count"@, i) ==> holds_integer(members[i].1, p.count),
        forall|i: int| #[trigger]
            member_at(members, "country_id"@, i) ==> holds_optional_string(members[i].1, p.country_id),
        lacks_member(members, "country_id"@) ==> p.country_id is None,
{
    lemma_by_name_ok(members, "name"@, |t: JsonTree| check_string(t), Err(missing_field("name"@)), p.name);
    lemma_by_name_ok(members, "gender"@, |t: JsonTree| check_optional_string(t), Ok(None), p.gender);
    lemma_by_name_ok(
        members,
        "probability"@,
        |t: JsonTree| check_number(t),
        Err(missing_field("probability"@)),
        p.probability,
    );
    lemma_by_name_ok(
        members,
        "count"@,
        |t: JsonTree| check_integer(t),
        Err(missing_field("count"@)),
        p.count,
    );
    lemma_by_name_ok(
        members,
        "country_id"@,
        |t: JsonTree| check_optional_string(t),
        Ok(None),
        p.country_id,
    );
}

/// Law: a gender prediction decoded from a JSON array holds its elements in
/// order: `name`, `gender`, `probability`, `count` and, when a fifth element
/// is there, `country_id` (none otherwise); the array has four or five
/// elements.
pub proof fn lemma_genderize_array_fields(items: Seq<JsonTree>, p: GenderizeView)
    requires
        genderize_prediction(JsonTree::Array(items)) == Ok::<GenderizeView, Seq<char>>(p),
    ensures
        4 <= items.len() <= 5,
        items[0] == JsonTree::Str(p.name),
        holds_optional_string(items[1], p.gender),
        items[2] == JsonTree::Number(p.probability),
        holds_integer(items[3], p.count),
        items.len() == 5 ==> holds_optional_string(items[4], p.country_id),
        items.len() == 4 ==> p.country_id is None,
{
}

/// Law: a country candidate decoded from a JSON object holds the string
/// `country_id` and the number `probability` found under those names (the
/// first member of each), both present.
pub proof fn lemma_country_object_fields(members: Seq<(Seq<char>, JsonTree)>, c: CountryView)
    requires
        nationalize_country(JsonTree::Object(members)) == Ok::<CountryView, Seq<char>>(c),
    ensures
        !lacks_member(members, "country_id"@),
        !lacks_member(members, "probability"@),
        forall|i: int| #[trigger]
            member_at(members, "country_id"@, i) ==> members[i].1 == JsonTree::Str(c.country_id),
        forall|i: int| #[trigger]
            member_at(members, "probability"@, i) ==> members[i].1 == JsonTree::Number(c.probability),
{
    lemma_by_name_ok(
        members,
        "country_id"@,
        |t: JsonTree| check_string(t),
        Err(missing_field("country_id"@)),
        c.country_id,
    );
    lemma_by_name_ok(
        members,
        "probability"@,
        |t: JsonTree| check_number(t),
        Err(missing_field("probability"@)),
        c.probability,
    );
}

/// Law: a country candidate decoded from a JSON array holds its two elements
/// in order: `country_id`, then `probability`.
pub proof fn lemma_country_array_fields(items: Seq<JsonTree>, c: CountryView)
    requires
        nationalize_country(JsonTree::Array(items)) == Ok::<CountryView, Seq<char>>(c),
    ensures
        items.len() == 2,
        items[0] == JsonTree::Str(c.country_id),
        items[1] == JsonTree::Number(c.probability),
{
}

/// `t` is a JSON array of the country candidates `countries`, one element
/// per candidate, in order.
pub open spec fn holds_countries(t: JsonTree, countries: Seq<CountryView>) -> bool {
    &&& t matches JsonTree::Array(items)
    &&& t->Array_0.len() == countries.len()
    &&& forall|k: int|
        0 <= k < t->Array_0.len() ==> #[trigger] nationalize_country(t->Array_0[k]) == Ok::<
            CountryView,
            Seq<char>,
        >(countries[k])
}

proof fn lemma_countries_held(t: JsonTree, countries: Seq<CountryView>)
    requires
        check_countries(t) == Ok::<Seq<CountryView>, Seq<char>>(countries),
    ensures
        holds_countries(t, countries),
{
    let items = t->Array_0;
    let f = |c: JsonTree| nationalize_country(c);
    lemma_decode_each_in_order(items, f);
    assert forall|k: int| 0 <= k < items.len() implies #[trigger] nationalize_country(items[k])
        == Ok::<CountryView, Seq<char>>(countries[k]) by {
        assert(f(items[k]) == Ok::<CountryView, Seq<char>>(countries[k]));
    }
}

/// `t` is a JSON array each element of which decodes as a country candidate.
pub open spec fn countries_acceptable(t: JsonTree) -> bool {
    &&& t is Array
    &&& forall|k: int|
        0 <= k < t->Array_0.len() ==> #[trigger] nationalize_country(t->Array_0[k]) is Ok
}

proof fn lemma_countries_accepted(t: JsonTree)
    ensures
        check_countries(t) is Ok <==> countries_acceptable(t),
{
    if t is Array {
        let items = t->Array_0;
        let f = |c: JsonTree| nationalize_country(c);
        lemma_decode_each_in_order(items, f);
        if countries_acceptable(t) {
            assert forall|k: int| 0 <= k < items.len() implies #[trigger] f(items[k]) is Ok by {
                assert(nationalize_country(items[k]) is Ok);
            }
        } else {
            let k = choose|k: int| 0 <= k < items.len() && !(#[trigger] nationalize_country(items[k]) is Ok);
            assert(!(f(items[k]) is Ok));
        }
    }
}

/// Law: a nationality prediction decoded from a JSON object holds what the
/// object holds under each field's name (the first member of that name): the
/// string `name`, the array `country` of candidates, each element decoded in
/// order, and the integer `count`, all three present.
pub proof fn lemma_nationalize_object_fields(members: Seq<(Seq<char>, JsonTree)>, p: NationalizeView)
    requires
        nationalize_prediction(JsonTree::Object(members)) == Ok::<NationalizeView, Seq<char>>(p),
    ensures
        !lacks_member(members, "name"@),
        !lacks_member(members, "country"@),
        !lacks_member(members, "count"@),
        forall|i: int| #[trigger] member_at(members, "name"@, i) ==> members[i].1 == JsonTree::Str(p.name),
        forall|i: int| #[trigger]
            member_at(members, "country"@, i) ==> holds_countries(members[i].1, p.country),
        forall|i: int| #[trigger] member_at(members, "count"@, i) ==> holds_integer(members[i].1, p.count),
{
    lemma_by_name_ok(members, "name"@, |t: JsonTree| check_string(t), Err(missing_field("name"@)), p.name);
    lemma_by_name_ok(
        members,
        "country"@,
        |t: JsonTree| check_countries(t),
        Err(missing_field("country"@)),
        p.country,
    );
    lemma_by_name_ok(
        members,
        "count"@,
        |t: JsonTree| check_integer(t),
        Err(missing_field("count"@)),
        p.count,
    );
    assert forall|i: int| #[trigger] member_at(members, "country"@, i) implies holds_countries(
        members[i].1,
        p.country,
    ) by {
        lemma_countries_held(members[i].1, p.country);
    }
}

/// Law: a nationality prediction decoded from a JSON array holds its three
/// elements in order: `name`, the candidates, `count`.
pub proof fn lemma_nationalize_array_fields(items: Seq<JsonTree>, p: NationalizeView)
    requires
        nationalize_prediction(JsonTree::Array(items)) == Ok::<NationalizeView, Seq<char>>(p),
    ensures
        items.len() == 3,
        items[0] == JsonTree::Str(p.name),
        holds_countries(items[1], p.country),
        holds_integer(items[2], p.count),
{
    lemma_countries_held(items[1], p.country);
}

/// Law: a JSON body with a 2xx status is accepted with the quota read from
/// the headers when all three rate-limit headers hold integers, and is a
/// transport error carrying the status and no quota otherwise.
pub proof fn lemma_success_status_envelope(resp: ResponseView)
    requires
        json_parse(resp.body) is Ok,
        200 <= resp.status < 300,
    ensures
        quota_from_headers(resp.headers) matches Some(q) ==> response_envelope(resp) == Ok::<
            (JsonTree, Quota),
            ErrorView,
        >((json_parse(resp.body)->Ok_0, q)),
        quota_from_headers(resp.headers) is None ==> response_envelope(resp) == Err::<
            (JsonTree, Quota),
            ErrorView,
        >(
            ErrorView::Transport {
                message: "response is missing rate-limit headers"@,
                status: Some(resp.status),
                quota: None,
            },
        ),
{
}

/// Law: a failed response reports the string of its body's `error` member
/// (the first member of that name) when the body is an object that has one.
pub proof fn lemma_failure_message_from_error_member(
    members: Seq<(Seq<char>, JsonTree)>,
    i: int,
    status: u16,
)
    requires
        member_at(members, "error"@, i),
        members[i].1 is Str,
    ensures
        failure_message(JsonTree::Object(members), status) == members[i].1->Str_0,
{
    lemma_first_member_at(members, "error"@, i);
}

/// Law: a failed response whose body has no string `error` member reports a
/// message naming its status.
pub proof fn lemma_failure_message_names_status(v: JsonTree, status: u16)
    requires
        v matches JsonTree::Object(members) ==> forall|i: int| #[trigger]
            member_at(members, "error"@, i) ==> !(members[i].1 is Str),
    ensures
        failure_message(v, status) == "request failed with status "@ + decimal(status as nat),
{
    if let JsonTree::Object(members) = v {
        lemma_first_member_absent(members, "error"@);
    }
}

proof fn lemma_first_error_some<A>(items: Seq<A>, f: spec_fn(A) -> Option<Seq<char>>, i: int)
    requires
        0 <= i < items.len(),
        f(items[i]) is Some,
    ensures
        first_error(items, f) is Some,
    decreases items.len(),
{
    if i < items.len() - 1 {
        assert(items.drop_last()[i] == items[i]);
        lemma_first_error_some(items.drop_last(), f, i);
    }
}

/// A member of an object read as an age prediction holds a value of its
/// field's type; members of other names always do.
pub open spec fn agify_member_typed(m: (Seq<char>, JsonTree)) -> bool {
    &&& m.0 == "name"@ ==> m.1 is Str
    &&& m.0 == "age"@ ==> m.1 is Null || is_integer(m.1)
    &&& m.0 == "count"@ ==> is_integer(m.1)
    &&& m.0 == "country_id"@ ==> m.1 is Null || m.1 is Str
}

/// An object that reads as an age prediction: it has `name` and `count`, and
/// every member holds a value of its field's type.
pub open spec fn agify_object_acceptable(members: Seq<(Seq<char>, JsonTree)>) -> bool {
    &&& !lacks_member(members, "name"@)
    &&& !lacks_member(members, "count"@)
    &&& forall|i: int| 0 <= i < members.len() ==> agify_member_typed(#[trigger] members[i])
}

/// An array that reads as an age prediction: a string, an integer or `null`,
/// an integer, and optionally a string or `null`, and nothing more.
pub open spec fn agify_array_acceptable(items: Seq<JsonTree>) -> bool {
    &&& 3 <= items.len() <= 4
    &&& items[0] is Str
    &&& items[1] is Null || is_integer(items[1])
    &&& is_integer(items[2])
    &&& items.len() == 4 ==> items[3] is Null || items[3] is Str
}

/// Law: a JSON document decodes as an age prediction exactly when it is an
/// object that has `name` and `count` members and holds under each of the
/// four field names a value of that field's type, or an array of the fields
/// in order; a document of any other kind never does.
pub proof fn lemma_agify_accepted(v: JsonTree)
    ensures
        agify_prediction(v) is Ok <==> match v {
            JsonTree::Object(members) => agify_object_acceptable(members),
            JsonTree::Array(items) => agify_array_acceptable(items),
            _ => false,
        },
{
    reveal_strlit("name");
    reveal_strlit("age");
    reveal_strlit("count");
    reveal_strlit("country_id");
    if let JsonTree::Object(members) = v {
        let f = |m: (Seq<char>, JsonTree)| crate::models::agify_member(m);
        if forall|i: int| 0 <= i < members.len() ==> agify_member_typed(#[trigger] members[i]) {
            lemma_first_error_none(members, f);
            lemma_first_member_absent(members, "name"@);
            lemma_first_member_absent(members, "count"@);
            lemma_by_name_accepts(members, "age"@, |t: JsonTree| check_optional_integer(t), Ok(None));
            lemma_by_name_accepts(
                members,
                "country_id"@,
                |t: JsonTree| check_optional_string(t),
                Ok(None),
            );
            if !lacks_member(members, "name"@) {
                lemma_by_name_accepts(
                    members,
                    "name"@,
                    |t: JsonTree| check_string(t),
                    Err(missing_field("name"@)),
                );
            }
            if !lacks_member(members, "count"@) {
                lemma_by_name_accepts(
                    members,
                    "count"@,
                    |t: JsonTree| check_integer(t),
                    Err(missing_field("count"@)),
                );
            }
        } else {
            let i = choose|i: int| 0 <= i < members.len() && !agify_member_typed(#[trigger] members[i]);
            lemma_first_error_some(members, f, i);
        }
    }
}

/// Law: an object whose members all hold values of their fields' types is
/// rejected, when it lacks `name`, with the missing-field error for `name`,
/// and when it has `name` but lacks `count`, with that for `count`.
pub proof fn lemma_agify_missing_field(members: Seq<(Seq<char>, JsonTree)>)
    requires
        forall|i: int| 0 <= i < members.len() ==> agify_member_typed(#[trigger] members[i]),
    ensures
        lacks_member(members, "name"@) ==> agify_prediction(JsonTree::Object(members)) == Err::<
            AgifyView,
            Seq<char>,
        >(missing_field("name"@)),
        !lacks_member(members, "name"@) && lacks_member(members, "count"@) ==> agify_prediction(
            JsonTree::Object(members),
        ) == Err::<AgifyView, Seq<char>>(missing_field("count"@)),
{
    reveal_strlit("name");
    reveal_strlit("age");
    reveal_strlit("count");
    reveal_strlit("country_id");
    lemma_first_error_none(members, |m: (Seq<char>, JsonTree)| crate::models::agify_member(m));
    lemma_first_member_absent(members, "name"@);
    lemma_first_member_absent(members, "count"@);
    lemma_by_name_accepts(members, "age"@, |t: JsonTree| check_optional_integer(t), Ok(None));
    if !lacks_member(members, "name"@) {
        lemma_by_name_accepts(members, "name"@, |t: JsonTree| check_string(t), Err(missing_field("name"@)));
    }
}

/// A member of an object read as a gender prediction holds a value of its
/// field's type; members of other names always do.
pub open spec fn genderize_member_typed(m: (Seq<char>, JsonTree)) -> bool {
    &&& m.0 == "name"@ ==> m.1 is Str
    &&& m.0 == "gender"@ ==> m.1 is Null || m.1 is Str
    &&& m.0 == "probability"@ ==> m.1 is Number
    &&& m.0 == "count"@ ==> is_integer(m.1)
    &&& m.0 == "country_id"@ ==> m.1 is Null || m.1 is Str
}

/// An object that reads as a gender prediction: it has `name`,
/// `probability` and `count`, and every member holds a value of its field's
/// type.
pub open spec fn genderize_object_acceptable(members: Seq<(Seq<char>, JsonTree)>) -> bool {
    &&& !lacks_member(members, "name"@)
    &&& !lacks_member(members, "probability"@)
    &&& !lacks_member(members, "count"@)
    &&& forall|i: int| 0 <= i < members.len() ==> genderize_member_typed(#[trigger] members[i])
}

/// An array that reads as a gender prediction: a string, a string or `null`,
/// a number, an integer, and optionally a string or `null`, and nothing more.
pub open spec fn genderize_array_acceptable(items: Seq<JsonTree>) -> bool {
    &&& 4 <= items.len() <= 5
    &&& items[0] is Str
    &&& items[1] is Null || items[1] is Str
    &&& items[2] is Number
    &&& is_integer(items[3])
    &&& items.len() == 5 ==> items[4] is Null || items[4] is Str
}

/// Law: a JSON document decodes as a gender prediction exactly when it is an
/// object that has `name`, `probability` and `count` members and holds under
/// each of the five field names a value of that field's type, or an array of
/// the fields in order; a document of any other kind never does.
pub proof fn lemma_genderize_accepted(v: JsonTree)
    ensures
        genderize_prediction(v) is Ok <==> match v {
            JsonTree::Object(members) => genderize_object_acceptable(members),
            JsonTree::Array(items) => genderize_array_acceptable(items),
            _ => false,
        },
{
    reveal_strlit("name");
    reveal_strlit("gender");
    reveal_strlit("probability");
    reveal_strlit("count");
    reveal_strlit("country_id");
    if let JsonTree::Object(members) = v {
        let f = |m: (Seq<char>, JsonTree)| crate::models::genderize_member(m);
        if forall|i: int| 0 <= i < members.len() ==> genderize_member_typed(#[trigger] members[i]) {
            lemma_first_error_none(members, f);
            lemma_first_member_absent(members, "name"@);
            lemma_first_member_absent(members, "probability"@);
            lemma_first_member_absent(members, "count"@);
            lemma_by_name_accepts(members, "gender"@, |t: JsonTree| check_optional_string(t), Ok(None));
            lemma_by_name_accepts(
                members,
                "country_id"@,
                |t: JsonTree| check_optional_string(t),
                Ok(None),
            );
            if !lacks_member(members, "name"@) {
                lemma_by_name_accepts(
                    members,
                    "name"@,
                    |t: JsonTree| check_string(t),
                    Err(missing_field("name"@)),
                );
            }
            if !lacks_member(members, "probability"@) {
                lemma_by_name_accepts(
                    members,
                    "probability"@,
                    |t: JsonTree| check_number(t),
                    Err(missing_field("probability"@)),
                );
            }
            if !lacks_member(members, "count"@) {
                lemma_by_name_accepts(
                    members,
                    "count"@,
                    |t: JsonTree| check_integer(t),
                    Err(missing_field("count"@)),
                );
            }
        } else {
            let i = choose|i: int|
                0 <= i < members.len() && !genderize_member_typed(#[trigger] members[i]);
            lemma_first_error_some(members, f, i);
        }
    }
}

/// Law: an object whose members all hold values of their fields' types is
/// rejected with the missing-field error for the first of `name`,
/// `probability` and `count` that it lacks.
pub proof fn lemma_genderize_missing_field(members: Seq<(Seq<char>, JsonTree)>)
    requires
        forall|i: int| 0 <= i < members.len() ==> genderize_member_typed(#[trigger] members[i]),
    ensures
        lacks_member(members, "name"@) ==> genderize_prediction(JsonTree::Object(members)) == Err::<
            GenderizeView,
            Seq<char>,
        >(missing_field("name"@)),
        !lacks_member(members, "name"@) && lacks_member(members, "probability"@)
            ==> genderize_prediction(JsonTree::Object(members)) == Err::<GenderizeView, Seq<char>>(
            missing_field("probability"@),
        ),
        !lacks_member(members, "name"@) && !lacks_member(members, "probability"@) && lacks_member(
            members,
            "count"@,
        ) ==> genderize_prediction(JsonTree::Object(members)) == Err::<GenderizeView, Seq<char>>(
            missing_field("count"@),
        ),
{
    reveal_strlit("name");
    reveal_strlit("gender");
    reveal_strlit("probability");
    reveal_strlit("count");
    reveal_strlit("country_id");
    lemma_first_error_none(members, |m: (Seq<char>, JsonTree)| crate::models::genderize_member(m));
    lemma_first_member_absent(members, "name"@);
    lemma_first_member_absent(members, "probability"@);
    lemma_first_member_absent(members, "count"@);
    lemma_by_name_accepts(members, "gender"@, |t: JsonTree| check_optional_string(t), Ok(None));
    if !lacks_member(members, "name"@) {
        lemma_by_name_accepts(members, "name"@, |t: JsonTree| check_string(t), Err(missing_field("name"@)));
    }
    if !lacks_member(members, "probability"@) {
        lemma_by_name_accepts(
            members,
            "probability"@,
            |t: JsonTree| check_number(t),
            Err(missing_field("probability"@)),
        );
    }
}

/// A member of an object read as a country candidate holds a value of its
/// field's type; members of other names always do.
pub open spec fn country_member_typed(m: (Seq<char>, JsonTree)) -> bool {
    &&& m.0 == "country_id"@ ==> m.1 is Str
    &&& m.0 == "probability"@ ==> m.1 is Number
}

/// Law: a JSON document decodes as a country candidate exactly when it is an
/// object that has `country_id` and `probability` members and holds under
/// both names values of their types, or an array of a string and a number;
/// a document of any other kind never does.
pub proof fn lemma_country_accepted(v: JsonTree)
    ensures
        nationalize_country(v) is Ok <==> match v {
            JsonTree::Object(members) => {
                &&& !lacks_member(members, "country_id"@)
                &&& !lacks_member(members, "probability"@)
                &&& forall|i: int| 0 <= i < members.len() ==> country_member_typed(#[trigger] members[i])
            },
            JsonTree::Array(items) => items.len() == 2 && items[0] is Str && items[1] is Number,
            _ => false,
        },
{
    reveal_strlit("country_id");
    reveal_strlit("probability");
    if let JsonTree::Object(members) = v {
        let f = |m: (Seq<char>, JsonTree)| crate::models::country_member(m);
        if forall|i: int| 0 <= i < members.len() ==> country_member_typed(#[trigger] members[i]) {
            lemma_first_error_none(members, f);
            lemma_first_member_absent(members, "country_id"@);
            lemma_first_member_absent(members, "probability"@);
            if !lacks_member(members, "country_id"@) {
                lemma_by_name_accepts(
                    members,
                    "country_id"@,
                    |t: JsonTree| check_string(t),
                    Err(missing_field("country_id"@)),
                );
            }
            if !lacks_member(members, "probability"@) {
                lemma_by_name_accepts(
                    members,
                    "probability"@,
                    |t: JsonTree| check_number(t),
                    Err(missing_field("probability"@)),
                );
            }
        } else {
            let i = choose|i: int| 0 <= i < members.len() && !country_member_typed(#[trigger] members[i]);
            lemma_first_error_some(members, f, i);
        }
    }
}

/// A member of an object read as a nationality prediction holds a value of
/// its field's type; members of other names always do.
pub open spec fn nationalize_member_typed(m: (Seq<char>, JsonTree)) -> bool {
    &&& m.0 == "name"@ ==> m.1 is Str
    &&& m.0 == "country"@ ==> countries_acceptable(m.1)
    &&& m.0 == "count"@ ==> is_integer(m.1)
}

/// An object that reads as a nationality prediction: it has `name`,
/// `country` and `count`, and every member holds a value of its field's type.
pub open spec fn nationalize_object_acceptable(members: Seq<(Seq<char>, JsonTree)>) -> bool {
    &&& !lacks_member(members, "name"@)
    &&& !lacks_member(members, "country"@)
    &&& !lacks_member(members, "count"@)
    &&& forall|i: int| 0 <= i < members.len() ==> nationalize_member_typed(#[trigger] members[i])
}

/// Law: a JSON document decodes as a nationality prediction exactly when it
/// is an object that has `name`, `country` and `count` members and holds
/// under each of those names a value of that field's type (for `country`, an
/// array of candidates), or an array of the three fields in order; a
/// document of any other kind never does.
pub proof fn lemma_nationalize_accepted(v: JsonTree)
    ensures
        nationalize_prediction(v) is Ok <==> match v {
            JsonTree::Object(members) => nationalize_object_acceptable(members),
            JsonTree::Array(items) => items.len() == 3 && items[0] is Str && countries_acceptable(
                items[1],
            ) && is_integer(items[2]),
            _ => false,
        },
{
    reveal_strlit("name");
    reveal_strlit("country");
    reveal_strlit("count");
    match v {
        JsonTree::Object(members) => {
            assert forall|i: int| 0 <= i < members.len() implies (check_countries(
                #[trigger] members[i].1,
            ) is Ok <==> countries_acceptable(members[i].1)) by {
                lemma_countries_accepted(members[i].1);
            }
            let f = |m: (Seq<char>, JsonTree)| crate::models::nationalize_member(m);
            if forall|i: int|
                0 <= i < members.len() ==> nationalize_member_typed(#[trigger] members[i]) {
                lemma_first_error_none(members, f);
                lemma_first_member_absent(members, "name"@);
                lemma_first_member_absent(members, "country"@);
                lemma_first_member_absent(members, "count"@);
                if !lacks_member(members, "name"@) {
                    lemma_by_name_accepts(
                        members,
                        "name"@,
                        |t: JsonTree| check_string(t),
                        Err(missing_field("name"@)),
                    );
                }
                if !lacks_member(members, "country"@) {
                    lemma_by_name_accepts(
                        members,
                        "country"@,
                        |t: JsonTree| check_countries(t),
                        Err(missing_field("country"@)),
                    );
                }
                if !lacks_member(members, "count"@) {
                    lemma_by_name_accepts(
                        members,
                        "count"@,
                        |t: JsonTree| check_integer(t),
                        Err(missing_field("count"@)),
                    );
                }
            } else {
                let i = choose|i: int|
                    0 <= i < members.len() && !nationalize_member_typed(#[trigger] members[i]);
                lemma_first_error_some(members, f, i);
            }
        },
        JsonTree::Array(items) => {
            if items.len() >= 2 {
                lemma_countries_accepted(items[1]);
            }
        },
        _ => {},
    }
}

/// Law: an object whose members all hold values of their fields' types is
/// rejected with the missing-field error for the first of `name`, `country`
/// and `count` that it lacks.
pub proof fn lemma_nationalize_missing_field(members: Seq<(Seq<char>, JsonTree)>)
    requires
        forall|i: int| 0 <= i < members.len() ==> nationalize_member_typed(#[trigger] members[i]),
    ensures
        lacks_member(members, "name"@) ==> nationalize_prediction(JsonTree::Object(members))
            == Err::<NationalizeView, Seq<char>>(missing_field("name"@)),
        !lacks_member(members, "name"@) && lacks_member(members, "country"@)
            ==> nationalize_prediction(JsonTree::Object(members)) == Err::<
            NationalizeView,
            Seq<char>,
        >(missing_field("country"@)),
        !lacks_member(members, "name"@) && !lacks_member(members, "country"@) && lacks_member(
            members,
            "count"@,
        ) ==> nationalize_prediction(JsonTree::Object(members)) == Err::<NationalizeView, Seq<char>>(
            missing_field("count"@),
        ),
{
    reveal_strlit("name");
    reveal_strlit("country");
    reveal_strlit("count");
    assert forall|i: int| 0 <= i < members.len() implies (check_countries(#[trigger] members[i].1) is Ok
        <==> countries_acceptable(members[i].1)) by {
        lemma_countries_accepted(members[i].1);
    }
    lemma_first_error_none(members, |m: (Seq<char>, JsonTree)| crate::models::nationalize_member(m));
    lemma_first_member_absent(members, "name"@);
    lemma_first_member_absent(members, "country"@);
    lemma_first_member_absent(members, "count"@);
    if !lacks_member(members, "name"@) {
        lemma_by_name_accepts(members, "name"@, |t: JsonTree| check_string(t), Err(missing_field("name"@)));
    }
    if !lacks_member(members, "country"@) {
        lemma_by_name_accepts(
            members,
            "country"@,
            |t: JsonTree| check_countries(t),
            Err(missing_field("country"@)),
        );
    }
}

} // verus!
