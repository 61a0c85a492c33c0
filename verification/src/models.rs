//! Response models for the Demografix APIs.

use vstd::prelude::*;
use crate::json::{
    by_name, by_position, check_integer, check_number, check_optional_integer,
    check_optional_string, check_string, element, error_of, first_error, first_member_error,
    get_member, invalid_type, invalid_type_message, lemma_array_tree, lemma_object_tree,
    missing_field, missing_field_message, read_integer, read_number, read_optional_integer,
    read_optional_string, read_string, too_few_elements, too_few_elements_message,
    too_many_elements, too_many_elements_message, view_opt_string, JsonNumber, JsonTree,
    JsonValue, NumberView,
};
use crate::text::str_eq;

verus! {

/// Remaining request budget, read from the rate-limit response headers.
///
/// Quota is read off a returned value or a returned error. It is never cached
/// on the client.
#[derive(Debug, Clone, PartialEq, Eq)]
#[non_exhaustive]
pub struct Quota {
    /// Names allowed in the current window.
    pub limit: i64,
    /// Names left in the current window. The server clamps this to 0.
    pub remaining: i64,
    /// Seconds until the window resets.
    pub reset: i64,
}


/// The mathematical value of a result: its success or its error, each by
/// its view.
pub open spec fn view_result<T: View, E: View>(r: Result<T, E>) -> Result<T::V, E::V> {
    match r {
        Ok(t) => Ok(t@),
        Err(e) => Err(e@),
    }
}

/// A single gender prediction.
#[derive(Debug, Clone, PartialEq)]
#[non_exhaustive]
pub struct GenderizePrediction {
    /// The input name, echoed back.
    pub name: String,
    /// `"male"`, `"female"`, or `None` when there is no match.
    pub gender: Option<String>,
    /// Probability between 0 and 1, rounded to 2 decimals.
    pub probability: JsonNumber,
    /// Source rows behind the prediction.
    pub count: i64,
    /// The country scope, uppercase, present only when the request sent one.
    pub country_id: Option<String>,
}

/// The mathematical value of a [`GenderizePrediction`].
pub struct GenderizeView {
    pub name: Seq<char>,
    pub gender: Option<Seq<char>>,
    pub probability: NumberView,
    pub count: i64,
    pub country_id: Option<Seq<char>>,
}

impl View for GenderizePrediction {
    type V = GenderizeView;

    open spec fn view(&self) -> GenderizeView {
        GenderizeView {
            name: self.name@,
            gender: view_opt_string(self.gender),
            probability: self.probability@,
            count: self.count,
            country_id: view_opt_string(self.country_id),
        }
    }
}

/// A single age prediction.
#[derive(Debug, Clone, PartialEq)]
#[non_exhaustive]
pub struct AgifyPrediction {
    /// The input name, echoed back.
    pub name: String,
    /// Predicted age, or `None` when there is no match.
    pub age: Option<i64>,
    /// Source rows behind the prediction.
    pub count: i64,
    /// The country scope, uppercase, present only when the request sent one.
    pub country_id: Option<String>,
}

/// The mathematical value of an [`AgifyPrediction`].
pub struct AgifyView {
    pub name: Seq<char>,
    pub age: Option<i64>,
    pub count: i64,
    pub country_id: Option<Seq<char>>,
}

impl View for AgifyPrediction {
    type V = AgifyView;

    open spec fn view(&self) -> AgifyView {
        AgifyView {
            name: self.name@,
            age: self.age,
            count: self.count,
            country_id: view_opt_string(self.country_id),
        }
    }
}

/// One country candidate within a nationality prediction.
#[derive(Debug, Clone, PartialEq)]
#[non_exhaustive]
pub struct NationalizeCountry {
    /// ISO 3166-1 alpha-2 country code.
    pub country_id: String,
    /// Probability between 0 and 1, rounded to 6 decimals.
    pub probability: JsonNumber,
}

/// The mathematical value of a [`NationalizeCountry`].
pub struct CountryView {
    pub country_id: Seq<char>,
    pub probability: NumberView,
}

impl View for NationalizeCountry {
    type V = CountryView;

    open spec fn view(&self) -> CountryView {
        CountryView { country_id: self.country_id@, probability: self.probability@ }
    }
}

/// A single nationality prediction.
#[derive(Debug, Clone, PartialEq)]
#[non_exhaustive]
pub struct NationalizePrediction {
    /// The input name, echoed back.
    pub name: String,
    /// Up to 5 candidates, descending probability. Empty when there is no match.
    pub country: Vec<NationalizeCountry>,
    /// Source rows behind the prediction.
    pub count: i64,
}

/// The mathematical value of a [`NationalizePrediction`].
pub struct NationalizeView {
    pub name: Seq<char>,
    pub country: Seq<CountryView>,
    pub count: i64,
}

impl View for NationalizePrediction {
    type V = NationalizeView;

    open spec fn view(&self) -> NationalizeView {
        NationalizeView {
            name: self.name@,
            country: self.country@.map_values(|c: NationalizeCountry| c@),
            count: self.count,
        }
    }
}

/// What serde expects of a gender prediction, by name and by position.
pub open spec fn genderize_expected() -> Seq<char> {
    "struct GenderizePrediction"@
}

/// The same, for an array of too few elements.
pub open spec fn genderize_elements() -> Seq<char> {
    "struct GenderizePrediction with 5 elements"@
}

/// The gender prediction from its fields' reads; the first field that fails
/// gives the error.
pub open spec fn genderize_fields(
    name: Result<Seq<char>, Seq<char>>,
    gender: Result<Option<Seq<char>>, Seq<char>>,
    probability: Result<NumberView, Seq<char>>,
    count: Result<i64, Seq<char>>,
    country_id: Result<Option<Seq<char>>, Seq<char>>,
) -> Result<GenderizeView, Seq<char>> {
    if name is Err {
        Err(name->Err_0)
    } else if gender is Err {
        Err(gender->Err_0)
    } else if probability is Err {
        Err(probability->Err_0)
    } else if count is Err {
        Err(count->Err_0)
    } else if country_id is Err {
        Err(country_id->Err_0)
    } else {
        Ok(
            GenderizeView {
                name: name->Ok_0,
                gender: gender->Ok_0,
                probability: probability->Ok_0,
                count: count->Ok_0,
                country_id: country_id->Ok_0,
            },
        )
    }
}

/// The error an object member gives for a gender prediction: a known field
/// whose value has the wrong type; other members give none.
pub open spec fn genderize_member(m: (Seq<char>, JsonTree)) -> Option<Seq<char>> {
    if m.0 == "name"@ {
        error_of(check_string(m.1))
    } else if m.0 == "gender"@ {
        error_of(check_optional_string(m.1))
    } else if m.0 == "probability"@ {
        error_of(check_number(m.1))
    } else if m.0 == "count"@ {
        error_of(check_integer(m.1))
    } else if m.0 == "country_id"@ {
        error_of(check_optional_string(m.1))
    } else {
        None
    }
}

/// The gender prediction a JSON document holds, as serde's derived
/// `Deserialize` reads it: from an object, the members in order (a known
/// field of the wrong type is the error, others are ignored), then a missing
/// `name`, `probability` or `count` (`gender` and `country_id` default to
/// `None`); from an array, the fields `name`, `gender`, `probability`,
/// `count`, `country_id` in that order (only `country_id` may be left out),
/// and no more elements.
pub open spec fn genderize_prediction(v: JsonTree) -> Result<GenderizeView, Seq<char>> {
    match v {
        JsonTree::Object(ms) => match first_error(ms, |m: (Seq<char>, JsonTree)| genderize_member(m)) {
            Some(e) => Err(e),
            None => genderize_fields(
                by_name(ms, "name"@, |t: JsonTree| check_string(t), Err(missing_field("name"@))),
                by_name(ms, "gender"@, |t: JsonTree| check_optional_string(t), Ok(None)),
                by_name(
                    ms,
                    "probability"@,
                    |t: JsonTree| check_number(t),
                    Err(missing_field("probability"@)),
                ),
                by_name(ms, "count"@, |t: JsonTree| check_integer(t), Err(missing_field("count"@))),
                by_name(ms, "country_id"@, |t: JsonTree| check_optional_string(t), Ok(None)),
            ),
        },
        JsonTree::Array(items) => match genderize_fields(
            by_position(
                items,
                0,
                |t: JsonTree| check_string(t),
                Err(too_few_elements(0, genderize_elements())),
            ),
            by_position(
                items,
                1,
                |t: JsonTree| check_optional_string(t),
                Err(too_few_elements(1, genderize_elements())),
            ),
            by_position(
                items,
                2,
                |t: JsonTree| check_number(t),
                Err(too_few_elements(2, genderize_elements())),
            ),
            by_position(
                items,
                3,
                |t: JsonTree| check_integer(t),
                Err(too_few_elements(3, genderize_elements())),
            ),
            by_position(items, 4, |t: JsonTree| check_optional_string(t), Ok(None)),
        ) {
            Err(e) => Err(e),
            Ok(p) => if items.len() > 5 {
                Err(too_many_elements(items.len()))
            } else {
                Ok(p)
            },
        },
        _ => Err(invalid_type(v, genderize_expected())),
    }
}

/// What serde expects of an age prediction, by name.
pub open spec fn agify_expected() -> Seq<char> {
    "struct AgifyPrediction"@
}

/// The same, for an array of too few elements.
pub open spec fn agify_elements() -> Seq<char> {
    "struct AgifyPrediction with 4 elements"@
}

/// The age prediction from its fields' reads; the first field that fails
/// gives the error.
pub open spec fn agify_fields(
    name: Result<Seq<char>, Seq<char>>,
    age: Result<Option<i64>, Seq<char>>,
    count: Result<i64, Seq<char>>,
    country_id: Result<Option<Seq<char>>, Seq<char>>,
) -> Result<AgifyView, Seq<char>> {
    if name is Err {
        Err(name->Err_0)
    } else if age is Err {
        Err(age->Err_0)
    } else if count is Err {
        Err(count->Err_0)
    } else if country_id is Err {
        Err(country_id->Err_0)
    } else {
        Ok(
            AgifyView {
                name: name->Ok_0,
                age: age->Ok_0,
                count: count->Ok_0,
                country_id: country_id->Ok_0,
            },
        )
    }
}

/// The error an object member gives for an age prediction.
pub open spec fn agify_member(m: (Seq<char>, JsonTree)) -> Option<Seq<char>> {
    if m.0 == "name"@ {
        error_of(check_string(m.1))
    } else if m.0 == "age"@ {
        error_of(check_optional_integer(m.1))
    } else if m.0 == "count"@ {
        error_of(check_integer(m.1))
    } else if m.0 == "country_id"@ {
        error_of(check_optional_string(m.1))
    } else {
        None
    }
}

/// The age prediction a JSON document holds, as serde's derived
/// `Deserialize` reads it: from an object (`age` and `country_id` default to
/// `None`), or from an array of `name`, `age`, `count`, `country_id` (only
/// `country_id` may be left out).
pub open spec fn agify_prediction(v: JsonTree) -> Result<AgifyView, Seq<char>> {
    match v {
        JsonTree::Object(ms) => match first_error(ms, |m: (Seq<char>, JsonTree)| agify_member(m)) {
            Some(e) => Err(e),
            None => agify_fields(
                by_name(ms, "name"@, |t: JsonTree| check_string(t), Err(missing_field("name"@))),
                by_name(ms, "age"@, |t: JsonTree| check_optional_integer(t), Ok(None)),
                by_name(ms, "count"@, |t: JsonTree| check_integer(t), Err(missing_field("count"@))),
                by_name(ms, "country_id"@, |t: JsonTree| check_optional_string(t), Ok(None)),
            ),
        },
        JsonTree::Array(items) => match agify_fields(
            by_position(
                items,
                0,
                |t: JsonTree| check_string(t),
                Err(too_few_elements(0, agify_elements())),
            ),
            by_position(
                items,
                1,
                |t: JsonTree| check_optional_integer(t),
                Err(too_few_elements(1, agify_elements())),
            ),
            by_position(
                items,
                2,
                |t: JsonTree| check_integer(t),
                Err(too_few_elements(2, agify_elements())),
            ),
            by_position(items, 3, |t: JsonTree| check_optional_string(t), Ok(None)),
        ) {
            Err(e) => Err(e),
            Ok(p) => if items.len() > 4 {
                Err(too_many_elements(items.len()))
            } else {
                Ok(p)
            },
        },
        _ => Err(invalid_type(v, agify_expected())),
    }
}

/// What serde expects of a country candidate, by name.
pub open spec fn country_expected() -> Seq<char> {
    "struct NationalizeCountry"@
}

/// The same, for an array of too few elements.
pub open spec fn country_elements() -> Seq<char> {
    "struct NationalizeCountry with 2 elements"@
}

/// The country candidate from its fields' reads.
pub open spec fn country_fields(
    country_id: Result<Seq<char>, Seq<char>>,
    probability: Result<NumberView, Seq<char>>,
) -> Result<CountryView, Seq<char>> {
    if country_id is Err {
        Err(country_id->Err_0)
    } else if probability is Err {
        Err(probability->Err_0)
    } else {
        Ok(CountryView { country_id: country_id->Ok_0, probability: probability->Ok_0 })
    }
}

/// The error an object member gives for a country candidate.
pub open spec fn country_member(m: (Seq<char>, JsonTree)) -> Option<Seq<char>> {
    if m.0 == "country_id"@ {
        error_of(check_string(m.1))
    } else if m.0 == "probability"@ {
        error_of(check_number(m.1))
    } else {
        None
    }
}

/// A country candidate a JSON document holds: a string `country_id` and a
/// number `probability`, by name in an object or in that order in an array.
pub open spec fn nationalize_country(v: JsonTree) -> Result<CountryView, Seq<char>> {
    match v {
        JsonTree::Object(ms) => match first_error(ms, |m: (Seq<char>, JsonTree)| country_member(m)) {
            Some(e) => Err(e),
            None => country_fields(
                by_name(
                    ms,
                    "country_id"@,
                    |t: JsonTree| check_string(t),
                    Err(missing_field("country_id"@)),
                ),
                by_name(
                    ms,
                    "probability"@,
                    |t: JsonTree| check_number(t),
                    Err(missing_field("probability"@)),
                ),
            ),
        },
        JsonTree::Array(items) => match country_fields(
            by_position(
                items,
                0,
                |t: JsonTree| check_string(t),
                Err(too_few_elements(0, country_elements())),
            ),
            by_position(
                items,
                1,
                |t: JsonTree| check_number(t),
                Err(too_few_elements(1, country_elements())),
            ),
        ) {
            Err(e) => Err(e),
            Ok(p) => if items.len() > 2 {
                Err(too_many_elements(items.len()))
            } else {
                Ok(p)
            },
        },
        _ => Err(invalid_type(v, country_expected())),
    }
}

/// Decode every item in order; the first item that fails gives the error.
pub open spec fn decode_each<V>(items: Seq<JsonTree>, f: spec_fn(JsonTree) -> Result<V, Seq<char>>) -> Result<
    Seq<V>,
    Seq<char>,
>
    decreases items.len(),
{
    if items.len() == 0 {
        Ok(Seq::empty())
    } else {
        match decode_each(items.drop_last(), f) {
            Err(e) => Err(e),
            Ok(vs) => match f(items.last()) {
                Err(e) => Err(e),
                Ok(x) => Ok(vs.push(x)),
            },
        }
    }
}

/// A list of country candidates.
pub open spec fn check_countries(t: JsonTree) -> Result<Seq<CountryView>, Seq<char>> {
    match t {
        JsonTree::Array(items) => decode_each(items, |c: JsonTree| nationalize_country(c)),
        _ => Err(invalid_type(t, "a sequence"@)),
    }
}

/// What serde expects of a nationality prediction, by name.
pub open spec fn nationalize_expected() -> Seq<char> {
    "struct NationalizePrediction"@
}

/// The same, for an array of too few elements.
pub open spec fn nationalize_elements() -> Seq<char> {
    "struct NationalizePrediction with 3 elements"@
}

/// The nationality prediction from its fields' reads.
pub open spec fn nationalize_fields(
    name: Result<Seq<char>, Seq<char>>,
    country: Result<Seq<CountryView>, Seq<char>>,
    count: Result<i64, Seq<char>>,
) -> Result<NationalizeView, Seq<char>> {
    if name is Err {
        Err(name->Err_0)
    } else if country is Err {
        Err(country->Err_0)
    } else if count is Err {
        Err(count->Err_0)
    } else {
        Ok(NationalizeView { name: name->Ok_0, country: country->Ok_0, count: count->Ok_0 })
    }
}

/// The error an object member gives for a nationality prediction.
pub open spec fn nationalize_member(m: (Seq<char>, JsonTree)) -> Option<Seq<char>> {
    if m.0 == "name"@ {
        error_of(check_string(m.1))
    } else if m.0 == "country"@ {
        error_of(check_countries(m.1))
    } else if m.0 == "count"@ {
        error_of(check_integer(m.1))
    } else {
        None
    }
}

/// The nationality prediction a JSON document holds: a string `name`, an
/// array `country` of candidates and an integer `count`, by name in an
/// object or in that order in an array.
pub open spec fn nationalize_prediction(v: JsonTree) -> Result<NationalizeView, Seq<char>> {
    match v {
        JsonTree::Object(ms) => match first_error(ms, |m: (Seq<char>, JsonTree)| nationalize_member(m)) {
            Some(e) => Err(e),
            None => nationalize_fields(
                by_name(ms, "name"@, |t: JsonTree| check_string(t), Err(missing_field("name"@))),
                by_name(
                    ms,
                    "country"@,
                    |t: JsonTree| check_countries(t),
                    Err(missing_field("country"@)),
                ),
                by_name(ms, "count"@, |t: JsonTree| check_integer(t), Err(missing_field("count"@))),
            ),
        },
        JsonTree::Array(items) => match nationalize_fields(
            by_position(
                items,
                0,
                |t: JsonTree| check_string(t),
                Err(too_few_elements(0, nationalize_elements())),
            ),
            by_position(
                items,
                1,
                |t: JsonTree| check_countries(t),
                Err(too_few_elements(1, nationalize_elements())),
            ),
            by_position(
                items,
                2,
                |t: JsonTree| check_integer(t),
                Err(too_few_elements(2, nationalize_elements())),
            ),
        ) {
            Err(e) => Err(e),
            Ok(p) => if items.len() > 3 {
                Err(too_many_elements(items.len()))
            } else {
                Ok(p)
            },
        },
        _ => Err(invalid_type(v, nationalize_expected())),
    }
}

/// The predictions a JSON array holds, in order.
pub open spec fn prediction_list<V>(v: JsonTree, f: spec_fn(JsonTree) -> Result<V, Seq<char>>) -> Result<
    Seq<V>,
    Seq<char>,
> {
    match v {
        JsonTree::Array(items) => decode_each(items, f),
        _ => Err(invalid_type(v, "a sequence"@)),
    }
}

proof fn lemma_decode_each_step<V>(
    items: Seq<JsonTree>,
    f: spec_fn(JsonTree) -> Result<V, Seq<char>>,
    i: int,
)
    requires
        0 <= i < items.len(),
    ensures
        decode_each(items.take(i + 1), f) == (match decode_each(items.take(i), f) {
            Err(e) => Err(e),
            Ok(vs) => match f(items[i]) {
                Err(e) => Err(e),
                Ok(x) => Ok(vs.push(x)),
            },
        }),
{
    assert(items.take(i + 1).drop_last() =~= items.take(i));
    assert(items.take(i + 1).last() == items[i]);
}

proof fn lemma_decode_each_fails<V>(
    items: Seq<JsonTree>,
    f: spec_fn(JsonTree) -> Result<V, Seq<char>>,
    k: int,
)
    requires
        0 <= k <= items.len(),
        decode_each(items.take(k), f) is Err,
    ensures
        decode_each(items, f) == decode_each(items.take(k), f),
    decreases items.len(),
{
    if k == items.len() {
        assert(items.take(k) =~= items);
    } else {
        let t = items.drop_last();
        assert(t.take(k) =~= items.take(k));
        lemma_decode_each_fails(t, f, k);
    }
}

/// Decode every item with `f`, in order; the first item that fails gives the
/// error.
fn decode_list<T: View, F: Fn(&JsonValue) -> Result<T, String>>(
    items: &Vec<JsonValue>,
    f: F,
    Ghost(spec_f): Ghost<spec_fn(JsonTree) -> Result<T::V, Seq<char>>>,
) -> (r: Result<Vec<T>, String>)
    requires
        forall|x: &JsonValue| #[trigger] f.requires((x,)),
        forall|x: &JsonValue, y: Result<T, String>|
            #[trigger] f.ensures((x,), y) ==> view_result(y) == spec_f(x@),
    ensures
        match r {
            Ok(vs) => decode_each(items@.map_values(|x: JsonValue| x@), spec_f) == Ok::<
                Seq<T::V>,
                Seq<char>,
            >(vs@.map_values(|x: T| x@)),
            Err(e) => decode_each(items@.map_values(|x: JsonValue| x@), spec_f) == Err::<
                Seq<T::V>,
                Seq<char>,
            >(e@),
        },
{
    let ghost trees = items@.map_values(|x: JsonValue| x@);
    let n = items.len();
    let mut out: Vec<T> = Vec::new();
    let mut i: usize = 0;
    assert(trees.take(0) =~= Seq::<JsonTree>::empty());
    assert(out@.map_values(|x: T| x@) =~= Seq::<T::V>::empty());
    while i < n
        invariant
            n == items@.len(),
            trees == items@.map_values(|x: JsonValue| x@),
            i <= n,
            forall|x: &JsonValue| #[trigger] f.requires((x,)),
            forall|x: &JsonValue, y: Result<T, String>|
                #[trigger] f.ensures((x,), y) ==> view_result(y) == spec_f(x@),
            decode_each(trees.take(i as int), spec_f) == Ok::<Seq<T::V>, Seq<char>>(
                out@.map_values(|x: T| x@),
            ),
        decreases n - i,
    {
        let item = &items[i];
        let decoded = f(item);
        proof {
            lemma_decode_each_step(trees, spec_f, i as int);
        }
        match decoded {
            Ok(x) => {
                let ghost before = out@;
                out.push(x);
                assert(out@.map_values(|x: T| x@) =~= before.map_values(|x: T| x@).push(x@));
            },
            Err(e) => {
                proof {
                    lemma_decode_each_fails(trees, spec_f, i + 1);
                }
                return Err(e);
            },
        }
        i = i + 1;
    }
    assert(trees.take(n as int) =~= trees);
    Ok(out)
}

/// The error `read` gives, if any.
fn error_text<A>(r: Result<A, String>) -> (e: Option<String>)
    ensures
        match r {
            Ok(_) => e is None,
            Err(x) => e == Some(x),
        },
{
    match r {
        Ok(_) => None,
        Err(x) => Some(x),
    }
}

/// The error an object member gives for a gender prediction.
fn genderize_member_check(key: &String, value: &JsonValue) -> (r: Option<String>)
    ensures
        view_opt_string(r) == genderize_member((key@, value@)),
{
    if str_eq(key.as_str(), "name") {
        error_text(read_string(value))
    } else if str_eq(key.as_str(), "gender") {
        error_text(read_optional_string(value))
    } else if str_eq(key.as_str(), "probability") {
        error_text(read_number(value))
    } else if str_eq(key.as_str(), "count") {
        error_text(read_integer(value))
    } else if str_eq(key.as_str(), "country_id") {
        error_text(read_optional_string(value))
    } else {
        None
    }
}

/// Decode a gender prediction from a JSON document, as serde's derived
/// `Deserialize` does.
pub fn decode_genderize_prediction(v: &JsonValue) -> (r: Result<GenderizePrediction, String>)
    ensures
        view_result(r) == genderize_prediction(v@),
{
    match v {
        JsonValue::Object(members) => {
            proof {
                lemma_object_tree(v, members);
            }
            let found = first_member_error(
                members,
                genderize_member_check,
                Ghost(|m: (Seq<char>, JsonTree)| genderize_member(m)),
            );
            if let Some(e) = found {
                return Err(e);
            }
            let name = match get_member(v, "name") {
                None => {
                    return Err(missing_field_message("name"));
                },
                Some(t) => read_string(t)?,
            };
            let gender = match get_member(v, "gender") {
                None => None,
                Some(t) => read_optional_string(t)?,
            };
            let probability = match get_member(v, "probability") {
                None => {
                    return Err(missing_field_message("probability"));
                },
                Some(t) => read_number(t)?,
            };
            let count = match get_member(v, "count") {
                None => {
                    return Err(missing_field_message("count"));
                },
                Some(t) => read_integer(t)?,
            };
            let country_id = match get_member(v, "country_id") {
                None => None,
                Some(t) => read_optional_string(t)?,
            };
            Ok(GenderizePrediction { name, gender, probability, count, country_id })
        },
        JsonValue::Array(items) => {
            proof {
                lemma_array_tree(v, items);
            }
            let expected = "struct GenderizePrediction with 5 elements";
            let name = match element(items, 0) {
                None => {
                    return Err(too_few_elements_message(0, expected));
                },
                Some(t) => read_string(t)?,
            };
            let gender = match element(items, 1) {
                None => {
                    return Err(too_few_elements_message(1, expected));
                },
                Some(t) => read_optional_string(t)?,
            };
            let probability = match element(items, 2) {
                None => {
                    return Err(too_few_elements_message(2, expected));
                },
                Some(t) => read_number(t)?,
            };
            let count = match element(items, 3) {
                None => {
                    return Err(too_few_elements_message(3, expected));
                },
                Some(t) => read_integer(t)?,
            };
            let country_id = match element(items, 4) {
                None => None,
                Some(t) => read_optional_string(t)?,
            };
            if items.len() > 5 {
                return Err(too_many_elements_message(items.len()));
            }
            Ok(GenderizePrediction { name, gender, probability, count, country_id })
        },
        _ => Err(invalid_type_message(v, "struct GenderizePrediction")),
    }
}

/// The error an object member gives for an age prediction.
fn agify_member_check(key: &String, value: &JsonValue) -> (r: Option<String>)
    ensures
        view_opt_string(r) == agify_member((key@, value@)),
{
    if str_eq(key.as_str(), "name") {
        error_text(read_string(value))
    } else if str_eq(key.as_str(), "age") {
        error_text(read_optional_integer(value))
    } else if str_eq(key.as_str(), "count") {
        error_text(read_integer(value))
    } else if str_eq(key.as_str(), "country_id") {
        error_text(read_optional_string(value))
    } else {
        None
    }
}

/// Decode an age prediction from a JSON document, as serde's derived
/// `Deserialize` does.
pub fn decode_agify_prediction(v: &JsonValue) -> (r: Result<AgifyPrediction, String>)
    ensures
        view_result(r) == agify_prediction(v@),
{
    match v {
        JsonValue::Object(members) => {
            proof {
                lemma_object_tree(v, members);
            }
            let found = first_member_error(
                members,
                agify_member_check,
                Ghost(|m: (Seq<char>, JsonTree)| agify_member(m)),
            );
            if let Some(e) = found {
                return Err(e);
            }
            let name = match get_member(v, "name") {
                None => {
                    return Err(missing_field_message("name"));
                },
                Some(t) => read_string(t)?,
            };
            let age = match get_member(v, "age") {
                None => None,
                Some(t) => read_optional_integer(t)?,
            };
            let count = match get_member(v, "count") {
                None => {
                    return Err(missing_field_message("count"));
                },
                Some(t) => read_integer(t)?,
            };
            let country_id = match get_member(v, "country_id") {
                None => None,
                Some(t) => read_optional_string(t)?,
            };
            Ok(AgifyPrediction { name, age, count, country_id })
        },
        JsonValue::Array(items) => {
            proof {
                lemma_array_tree(v, items);
            }
            let expected = "struct AgifyPrediction with 4 elements";
            let name = match element(items, 0) {
                None => {
                    return Err(too_few_elements_message(0, expected));
                },
                Some(t) => read_string(t)?,
            };
            let age = match element(items, 1) {
                None => {
                    return Err(too_few_elements_message(1, expected));
                },
                Some(t) => read_optional_integer(t)?,
            };
            let count = match element(items, 2) {
                None => {
                    return Err(too_few_elements_message(2, expected));
                },
                Some(t) => read_integer(t)?,
            };
            let country_id = match element(items, 3) {
                None => None,
                Some(t) => read_optional_string(t)?,
            };
            if items.len() > 4 {
                return Err(too_many_elements_message(items.len()));
            }
            Ok(AgifyPrediction { name, age, count, country_id })
        },
        _ => Err(invalid_type_message(v, "struct AgifyPrediction")),
    }
}

/// The error an object member gives for a country candidate.
fn country_member_check(key: &String, value: &JsonValue) -> (r: Option<String>)
    ensures
        view_opt_string(r) == country_member((key@, value@)),
{
    if str_eq(key.as_str(), "country_id") {
        error_text(read_string(value))
    } else if str_eq(key.as_str(), "probability") {
        error_text(read_number(value))
    } else {
        None
    }
}

/// Decode a country candidate from a JSON document, as serde's derived
/// `Deserialize` does.
pub fn decode_nationalize_country(v: &JsonValue) -> (r: Result<NationalizeCountry, String>)
    ensures
        view_result(r) == nationalize_country(v@),
{
    match v {
        JsonValue::Object(members) => {
            proof {
                lemma_object_tree(v, members);
            }
            let found = first_member_error(
                members,
                country_member_check,
                Ghost(|m: (Seq<char>, JsonTree)| country_member(m)),
            );
            if let Some(e) = found {
                return Err(e);
            }
            let country_id = match get_member(v, "country_id") {
                None => {
                    return Err(missing_field_message("country_id"));
                },
                Some(t) => read_string(t)?,
            };
            let probability = match get_member(v, "probability") {
                None => {
                    return Err(missing_field_message("probability"));
                },
                Some(t) => read_number(t)?,
            };
            Ok(NationalizeCountry { country_id, probability })
        },
        JsonValue::Array(items) => {
            proof {
                lemma_array_tree(v, items);
            }
            let expected = "struct NationalizeCountry with 2 elements";
            let country_id = match element(items, 0) {
                None => {
                    return Err(too_few_elements_message(0, expected));
                },
                Some(t) => read_string(t)?,
            };
            let probability = match element(items, 1) {
                None => {
                    return Err(too_few_elements_message(1, expected));
                },
                Some(t) => read_number(t)?,
            };
            if items.len() > 2 {
                return Err(too_many_elements_message(items.len()));
            }
            Ok(NationalizeCountry { country_id, probability })
        },
        _ => Err(invalid_type_message(v, "struct NationalizeCountry")),
    }
}

/// Read a list of country candidates.
fn read_countries(v: &JsonValue) -> (r: Result<Vec<NationalizeCountry>, String>)
    ensures
        match r {
            Ok(vs) => check_countries(v@) == Ok::<Seq<CountryView>, Seq<char>>(
                vs@.map_values(|x: NationalizeCountry| x@),
            ),
            Err(e) => check_countries(v@) == Err::<Seq<CountryView>, Seq<char>>(e@),
        },
{
    match v {
        JsonValue::Array(items) => {
            proof {
                lemma_array_tree(v, items);
            }
            decode_list(items, decode_nationalize_country, Ghost(|c: JsonTree| nationalize_country(c)))
        },
        _ => Err(invalid_type_message(v, "a sequence")),
    }
}

/// The error an object member gives for a nationality prediction.
fn nationalize_member_check(key: &String, value: &JsonValue) -> (r: Option<String>)
    ensures
        view_opt_string(r) == nationalize_member((key@, value@)),
{
    if str_eq(key.as_str(), "name") {
        error_text(read_string(value))
    } else if str_eq(key.as_str(), "country") {
        error_text(read_countries(value))
    } else if str_eq(key.as_str(), "count") {
        error_text(read_integer(value))
    } else {
        None
    }
}

/// Decode a nationality prediction from a JSON document, as serde's derived
/// `Deserialize` does.
pub fn decode_nationalize_prediction(v: &JsonValue) -> (r: Result<NationalizePrediction, String>)
    ensures
        view_result(r) == nationalize_prediction(v@),
{
    match v {
        JsonValue::Object(members) => {
            proof {
                lemma_object_tree(v, members);
            }
            let found = first_member_error(
                members,
                nationalize_member_check,
                Ghost(|m: (Seq<char>, JsonTree)| nationalize_member(m)),
            );
            if let Some(e) = found {
                return Err(e);
            }
            let name = match get_member(v, "name") {
                None => {
                    return Err(missing_field_message("name"));
                },
                Some(t) => read_string(t)?,
            };
            let country = match get_member(v, "country") {
                None => {
                    return Err(missing_field_message("country"));
                },
                Some(t) => read_countries(t)?,
            };
            let count = match get_member(v, "count") {
                None => {
                    return Err(missing_field_message("count"));
                },
                Some(t) => read_integer(t)?,
            };
            Ok(NationalizePrediction { name, country, count })
        },
        JsonValue::Array(items) => {
            proof {
                lemma_array_tree(v, items);
            }
            let expected = "struct NationalizePrediction with 3 elements";
            let name = match element(items, 0) {
                None => {
                    return Err(too_few_elements_message(0, expected));
                },
                Some(t) => read_string(t)?,
            };
            let country = match element(items, 1) {
                None => {
                    return Err(too_few_elements_message(1, expected));
                },
                Some(t) => read_countries(t)?,
            };
            let count = match element(items, 2) {
                None => {
                    return Err(too_few_elements_message(2, expected));
                },
                Some(t) => read_integer(t)?,
            };
            if items.len() > 3 {
                return Err(too_many_elements_message(items.len()));
            }
            Ok(NationalizePrediction { name, country, count })
        },
        _ => Err(invalid_type_message(v, "struct NationalizePrediction")),
    }
}

/// A gender prediction plus the quota for the response.
///
/// Derefs to [`GenderizePrediction`], so the prediction fields read directly
/// off the result: `result.gender`, `result.probability`, `result.count`.
#[derive(Debug, Clone, PartialEq)]
pub struct GenderizeResult {
    /// The prediction fields. Also reachable directly through `Deref`.
    pub prediction: GenderizePrediction,
    /// Remaining request budget after this call.
    pub quota: Quota,
}

impl View for GenderizeResult {
    type V = (GenderizeView, Quota);

    open spec fn view(&self) -> (GenderizeView, Quota) {
        (self.prediction@, self.quota)
    }
}

impl core::ops::Deref for GenderizeResult {
    type Target = GenderizePrediction;

    fn deref(&self) -> (r: &GenderizePrediction)
        ensures
            *r == self.prediction,
    {
        &self.prediction
    }
}

/// An age prediction plus the quota for the response.
///
/// Derefs to [`AgifyPrediction`], so the prediction fields read directly off
/// the result: `result.age`, `result.count`.
#[derive(Debug, Clone, PartialEq)]
pub struct AgifyResult {
    /// The prediction fields. Also reachable directly through `Deref`.
    pub prediction: AgifyPrediction,
    /// Remaining request budget after this call.
    pub quota: Quota,
}

impl View for AgifyResult {
    type V = (AgifyView, Quota);

    open spec fn view(&self) -> (AgifyView, Quota) {
        (self.prediction@, self.quota)
    }
}

impl core::ops::Deref for AgifyResult {
    type Target = AgifyPrediction;

    fn deref(&self) -> (r: &AgifyPrediction)
        ensures
            *r == self.prediction,
    {
        &self.prediction
    }
}

/// A nationality prediction plus the quota for the response.
///
/// Derefs to [`NationalizePrediction`], so the prediction fields read
/// directly off the result: `result.country`, `result.count`.
#[derive(Debug, Clone, PartialEq)]
pub struct NationalizeResult {
    /// The prediction fields. Also reachable directly through `Deref`.
    pub prediction: NationalizePrediction,
    /// Remaining request budget after this call.
    pub quota: Quota,
}

impl View for NationalizeResult {
    type V = (NationalizeView, Quota);

    open spec fn view(&self) -> (NationalizeView, Quota) {
        (self.prediction@, self.quota)
    }
}

impl core::ops::Deref for NationalizeResult {
    type Target = NationalizePrediction;

    fn deref(&self) -> (r: &NationalizePrediction)
        ensures
            *r == self.prediction,
    {
        &self.prediction
    }
}

/// A batch response: the per-name predictions in input order, plus one quota
/// for the whole response.
#[derive(Debug, Clone, PartialEq)]
pub struct Batch<T> {
    /// Predictions in input order, without their own quota.
    pub results: Vec<T>,
    /// Remaining request budget after this call.
    pub quota: Quota,
}

impl<T: View> View for Batch<T> {
    type V = (Seq<T::V>, Quota);

    open spec fn view(&self) -> (Seq<T::V>, Quota) {
        (self.results@.map_values(|x: T| x@), self.quota)
    }
}

/// Decode a JSON array of gender predictions, in order.
pub fn decode_genderize_list(v: &JsonValue) -> (r: Result<Vec<GenderizePrediction>, String>)
    ensures
        match r {
            Ok(vs) => prediction_list(v@, |t: JsonTree| genderize_prediction(t)) == Ok::<
                Seq<GenderizeView>,
                Seq<char>,
            >(vs@.map_values(|x: GenderizePrediction| x@)),
            Err(e) => prediction_list(v@, |t: JsonTree| genderize_prediction(t)) == Err::<
                Seq<GenderizeView>,
                Seq<char>,
            >(e@),
        },
{
    match v {
        JsonValue::Array(items) => {
            proof {
                lemma_array_tree(v, items);
            }
            decode_list(items, decode_genderize_prediction, Ghost(|t: JsonTree| genderize_prediction(t)))
        },
        _ => Err(invalid_type_message(v, "a sequence")),
    }
}

/// Decode a JSON array of age predictions, in order.
pub fn decode_agify_list(v: &JsonValue) -> (r: Result<Vec<AgifyPrediction>, String>)
    ensures
        match r {
            Ok(vs) => prediction_list(v@, |t: JsonTree| agify_prediction(t)) == Ok::<
                Seq<AgifyView>,
                Seq<char>,
            >(vs@.map_values(|x: AgifyPrediction| x@)),
            Err(e) => prediction_list(v@, |t: JsonTree| agify_prediction(t)) == Err::<
                Seq<AgifyView>,
                Seq<char>,
            >(e@),
        },
{
    match v {
        JsonValue::Array(items) => {
            proof {
                lemma_array_tree(v, items);
            }
            decode_list(items, decode_agify_prediction, Ghost(|t: JsonTree| agify_prediction(t)))
        },
        _ => Err(invalid_type_message(v, "a sequence")),
    }
}

/// Decode a JSON array of nationality predictions, in order.
pub fn decode_nationalize_list(v: &JsonValue) -> (r: Result<Vec<NationalizePrediction>, String>)
    ensures
        match r {
            Ok(vs) => prediction_list(v@, |t: JsonTree| nationalize_prediction(t)) == Ok::<
                Seq<NationalizeView>,
                Seq<char>,
            >(vs@.map_values(|x: NationalizePrediction| x@)),
            Err(e) => prediction_list(v@, |t: JsonTree| nationalize_prediction(t)) == Err::<
                Seq<NationalizeView>,
                Seq<char>,
            >(e@),
        },
{
    match v {
        JsonValue::Array(items) => {
            proof {
                lemma_array_tree(v, items);
            }
            decode_list(
                items,
                decode_nationalize_prediction,
                Ghost(|t: JsonTree| nationalize_prediction(t)),
            )
        },
        _ => Err(invalid_type_message(v, "a sequence")),
    }
}

/// Law: decoding a list keeps its order and its length: it succeeds exactly
/// when every item decodes, and then the i-th value is the decoding of the
/// i-th item.
pub proof fn lemma_decode_each_in_order<V>(
    items: Seq<JsonTree>,
    f: spec_fn(JsonTree) -> Result<V, Seq<char>>,
)
    ensures
        decode_each(items, f) is Ok <==> (forall|i: int| 0 <= i < items.len() ==> #[trigger] f(items[i]) is Ok),
        decode_each(items, f) is Ok ==> {
            let vs = decode_each(items, f)->Ok_0;
            &&& vs.len() == items.len()
            &&& forall|i: int| 0 <= i < items.len() ==> #[trigger] f(items[i]) == Ok::<V, Seq<char>>(vs[i])
        },
    decreases items.len(),
{
    if items.len() > 0 {
        let t = items.drop_last();
        lemma_decode_each_in_order(t, f);
        assert forall|i: int| 0 <= i < t.len() implies #[trigger] t[i] == items[i] by {}
        if decode_each(t, f) is Ok {
            let vs = decode_each(t, f)->Ok_0;
            if f(items.last()) is Ok {
                let ws = vs.push(f(items.last())->Ok_0);
                assert forall|i: int| 0 <= i < items.len() implies #[trigger] f(items[i]) == Ok::<V, Seq<char>>(ws[i]) by {
                    if i < t.len() {
                        assert(f(t[i]) == Ok::<V, Seq<char>>(vs[i]));
                    }
                }
            }
        } else {
            let k = choose|i: int| 0 <= i < t.len() && !(#[trigger] f(t[i]) is Ok);
            assert(!(f(items[k]) is Ok));
        }
    }
}

} // verus!
