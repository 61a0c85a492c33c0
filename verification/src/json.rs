//! JSON documents as the library reads them.
//!
//! serde_json parses a body; the library holds the parsed document in
//! [`JsonValue`], a tree of plain values, and reads fields out of it.

use vstd::prelude::*;
use crate::text::{decimal, decimal_string, str_eq};

verus! {

/// `serde_json::Value`, which [`parse_json`] converts; opaque here.
#[verifier::external_type_specification]
#[verifier::external_body]
pub struct ExSerdeJsonValue(serde_json::Value);

/// `serde_json::Number`, which [`parse_json`] converts; opaque here.
#[verifier::external_type_specification]
#[verifier::external_body]
pub struct ExSerdeJsonNumber(serde_json::Number);

/// A JSON number: its integer value when it is an integer in the range of
/// `i64`, whether it is a floating-point number, its decimal rendering, and
/// how serde describes it in an error message.
#[derive(Debug, Clone, PartialEq)]
pub struct JsonNumber {
    /// The value, when the number is an integer that fits in `i64`.
    pub integer: Option<i64>,
    /// Whether the number is held as a floating-point value (not an integer).
    pub float: bool,
    /// The number in decimal notation, as serde_json renders it.
    pub text: String,
    /// serde's description of the number as an unexpected value, such as
    /// ``integer `5` `` or ``floating point `1.5` ``.
    pub description: String,
}

/// A parsed JSON document.
#[derive(Debug)]
pub enum JsonValue {
    /// `null`.
    Null,
    /// `true` or `false`.
    Bool(bool),
    /// A number.
    Number(JsonNumber),
    /// A string.
    Str(String),
    /// An array, in document order.
    Array(Vec<JsonValue>),
    /// An object's members, one per key.
    Object(Vec<(String, JsonValue)>),
}

/// The mathematical value of a [`JsonNumber`].
pub struct NumberView {
    pub integer: Option<i64>,
    pub float: bool,
    pub text: Seq<char>,
    pub description: Seq<char>,
}

/// The mathematical value of a [`JsonValue`].
pub enum JsonTree {
    Null,
    Bool(bool),
    Number(NumberView),
    Str(Seq<char>),
    Array(Seq<JsonTree>),
    Object(Seq<(Seq<char>, JsonTree)>),
}

impl View for JsonNumber {
    type V = NumberView;

    open spec fn view(&self) -> NumberView {
        NumberView {
            integer: self.integer,
            float: self.float,
            text: self.text@,
            description: self.description@,
        }
    }
}

/// The tree of a [`JsonValue`].
pub open spec fn json_tree(v: JsonValue) -> JsonTree
    decreases v,
{
    match v {
        JsonValue::Null => JsonTree::Null,
        JsonValue::Bool(b) => JsonTree::Bool(b),
        JsonValue::Number(n) => JsonTree::Number(n@),
        JsonValue::Str(s) => JsonTree::Str(s@),
        JsonValue::Array(items) => JsonTree::Array(
            Seq::new(
                items@.len(),
                |i: int|
                    if 0 <= i < items@.len() {
                        proof {
                            assert(decreases_to!(items@ => items@[i]));
                        }
                        json_tree(items@[i])
                    } else {
                        JsonTree::Null
                    },
            ),
        ),
        JsonValue::Object(members) => JsonTree::Object(
            Seq::new(
                members@.len(),
                |i: int|
                    if 0 <= i < members@.len() {
                        proof {
                            assert(decreases_to!(members@ => members@[i]));
                        }
                        (members@[i].0@, json_tree(members@[i].1))
                    } else {
                        (Seq::empty(), JsonTree::Null)
                    },
            ),
        ),
    }
}

impl View for JsonValue {
    type V = JsonTree;

    open spec fn view(&self) -> JsonTree {
        json_tree(*self)
    }
}

/// What `serde_json::from_str::<serde_json::Value>` makes of a body: the
/// parsed document, or the text of its error.
pub uninterp spec fn json_parse(body: Seq<char>) -> Result<JsonTree, Seq<char>>;

/// Parse `body` with `serde_json::from_str` into a `serde_json::Value`, and
/// hold the result as a [`JsonValue`]; on failure, the error's display text.
///
/// Trusted: the result is `json_parse(body)`, a function of the body alone.
#[verifier::external_body]
pub fn parse_json(body: &str) -> (r: Result<JsonValue, String>)
    ensures
        match r {
            Ok(v) => json_parse(body@) == Ok::<JsonTree, Seq<char>>(v@),
            Err(e) => json_parse(body@) == Err::<JsonTree, Seq<char>>(e@),
        },
{
    match serde_json::from_str::<serde_json::Value>(body) {
        Ok(value) => Ok(from_serde(value)),
        Err(err) => Err(err.to_string()),
    }
}

/// The conversion half of [`parse_json`]: a `serde_json::Value` as a
/// [`JsonValue`], one arm per variant, each moving its fields (object members
/// come in the order of serde_json's map). Nothing is claimed of it here:
/// [`parse_json`]'s contract covers the parse and this conversion together.
#[verifier::external_body]
fn from_serde(value: serde_json::Value) -> JsonValue {
    match value {
        serde_json::Value::Null => JsonValue::Null,
        serde_json::Value::Bool(b) => JsonValue::Bool(b),
        serde_json::Value::Number(n) => JsonValue::Number(from_serde_number(n)),
        serde_json::Value::String(s) => JsonValue::Str(s),
        serde_json::Value::Array(items) => JsonValue::Array(items.into_iter().map(from_serde).collect()),
        serde_json::Value::Object(map) => JsonValue::Object(
            map.into_iter().map(|(k, v)| (k, from_serde(v))).collect(),
        ),
    }
}

/// The number half of [`from_serde`]: `Number::as_i64`, `Number::is_f64`,
/// the number's `Display` text, and the `Display` of the
/// `serde::de::Unexpected` that serde_json reports for it (unsigned, signed
/// or floating point, as the number is held). Covered by [`parse_json`]'s
/// contract.
#[verifier::external_body]
fn from_serde_number(n: serde_json::Number) -> JsonNumber {
    let unexpected = match (n.as_u64(), n.as_i64(), n.as_f64()) {
        (Some(u), _, _) => serde::de::Unexpected::Unsigned(u),
        (None, Some(i), _) => serde::de::Unexpected::Signed(i),
        (None, None, Some(f)) => serde::de::Unexpected::Float(f),
        (None, None, None) => serde::de::Unexpected::Other("number"),
    };
    let description = unexpected.to_string();
    JsonNumber { integer: n.as_i64(), float: n.is_f64(), text: n.to_string(), description }
}

/// What `<str as Debug>::fmt` writes for a string: the string quoted, with
/// escapes.
pub uninterp spec fn debug_text(s: Seq<char>) -> Seq<char>;

/// The `Debug` rendering of `s`, as `format!("{:?}", s)` gives it.
///
/// Trusted: the result is `debug_text(s)`, a function of `s` alone.
#[verifier::external_body]
pub fn debug_string(s: &str) -> (r: String)
    ensures
        r@ == debug_text(s@),
{
    format!("{:?}", s)
}

/// The value of the first member named `key`.
pub open spec fn first_member(members: Seq<(Seq<char>, JsonTree)>, key: Seq<char>) -> Option<
    JsonTree,
>
    decreases members.len(),
{
    if members.len() == 0 {
        None
    } else if members[0].0 == key {
        Some(members[0].1)
    } else {
        first_member(members.drop_first(), key)
    }
}

/// The member `key` of an object; `None` for a missing key or a value that
/// is not an object (as `serde_json::Value::get` answers).
pub open spec fn json_get(v: JsonTree, key: Seq<char>) -> Option<JsonTree> {
    match v {
        JsonTree::Object(members) => first_member(members, key),
        _ => None,
    }
}

/// An optional string, by its characters.
pub open spec fn view_opt_string(o: Option<String>) -> Option<Seq<char>> {
    match o {
        Some(s) => Some(s@),
        None => None,
    }
}

/// The message for a required member that is absent.
pub open spec fn missing_field(key: Seq<char>) -> Seq<char> {
    "missing field `"@ + key + "`"@
}

/// How serde describes a value it did not expect.
pub open spec fn description(v: JsonTree) -> Seq<char> {
    match v {
        JsonTree::Null => "unit value"@,
        JsonTree::Bool(b) => if b {
            "boolean `true`"@
        } else {
            "boolean `false`"@
        },
        JsonTree::Number(n) => n.description,
        JsonTree::Str(s) => "string "@ + debug_text(s),
        JsonTree::Array(_) => "sequence"@,
        JsonTree::Object(_) => "map"@,
    }
}

/// The message for a value of the wrong type, where `expected` was.
pub open spec fn invalid_type(v: JsonTree, expected: Seq<char>) -> Seq<char> {
    "invalid type: "@ + description(v) + ", expected "@ + expected
}

/// The message for an array that ends at `index`, where `expected` was.
pub open spec fn too_few_elements(index: nat, expected: Seq<char>) -> Seq<char> {
    "invalid length "@ + decimal(index) + ", expected "@ + expected
}

/// The message for an array of `len` elements, longer than a record.
pub open spec fn too_many_elements(len: nat) -> Seq<char> {
    "invalid length "@ + decimal(len) + ", expected fewer elements in array"@
}

/// A string value.
pub open spec fn check_string(t: JsonTree) -> Result<Seq<char>, Seq<char>> {
    match t {
        JsonTree::Str(s) => Ok(s),
        _ => Err(invalid_type(t, "a string"@)),
    }
}

/// An optional string value: `null` is `None`.
pub open spec fn check_optional_string(t: JsonTree) -> Result<Option<Seq<char>>, Seq<char>> {
    match t {
        JsonTree::Null => Ok(None),
        JsonTree::Str(s) => Ok(Some(s)),
        _ => Err(invalid_type(t, "a string"@)),
    }
}

/// An integer value in the range of `i64`. A floating-point number or a
/// value of another type is of the wrong type; an integer out of range is
/// an invalid value.
pub open spec fn check_integer(t: JsonTree) -> Result<i64, Seq<char>> {
    match t {
        JsonTree::Number(n) => match n.integer {
            Some(i) => Ok(i),
            None => if n.float {
                Err(invalid_type(t, "i64"@))
            } else {
                Err("invalid value: "@ + n.description + ", expected i64"@)
            },
        },
        _ => Err(invalid_type(t, "i64"@)),
    }
}

/// An optional integer value: `null` is `None`.
pub open spec fn check_optional_integer(t: JsonTree) -> Result<Option<i64>, Seq<char>> {
    match t {
        JsonTree::Null => Ok(None),
        _ => match check_integer(t) {
            Ok(i) => Ok(Some(i)),
            Err(e) => Err(e),
        },
    }
}

/// A number value.
pub open spec fn check_number(t: JsonTree) -> Result<NumberView, Seq<char>> {
    match t {
        JsonTree::Number(n) => Ok(n),
        _ => Err(invalid_type(t, "f64"@)),
    }
}

/// The error of a result, if it has one.
pub open spec fn error_of<A>(r: Result<A, Seq<char>>) -> Option<Seq<char>> {
    match r {
        Ok(_) => None,
        Err(e) => Some(e),
    }
}

/// The first error `f` finds among `items`, in order.
pub open spec fn first_error<A>(items: Seq<A>, f: spec_fn(A) -> Option<Seq<char>>) -> Option<
    Seq<char>,
>
    decreases items.len(),
{
    if items.len() == 0 {
        None
    } else {
        match first_error(items.drop_last(), f) {
            Some(e) => Some(e),
            None => f(items.last()),
        }
    }
}

/// A field read by name: `check` on the first member named `key`, or
/// `absent` when there is none.
pub open spec fn by_name<A>(
    members: Seq<(Seq<char>, JsonTree)>,
    key: Seq<char>,
    check: spec_fn(JsonTree) -> Result<A, Seq<char>>,
    absent: Result<A, Seq<char>>,
) -> Result<A, Seq<char>> {
    match first_member(members, key) {
        None => absent,
        Some(t) => check(t),
    }
}

/// A field read by position: `check` on the element at `index`, or `absent`
/// when the array is shorter.
pub open spec fn by_position<A>(
    items: Seq<JsonTree>,
    index: int,
    check: spec_fn(JsonTree) -> Result<A, Seq<char>>,
    absent: Result<A, Seq<char>>,
) -> Result<A, Seq<char>> {
    if 0 <= index < items.len() {
        check(items[index])
    } else {
        absent
    }
}

/// The trees of an array's elements.
pub open spec fn item_trees(items: Seq<JsonValue>) -> Seq<JsonTree> {
    items.map_values(|x: JsonValue| x@)
}

/// The trees of an object's members.
pub open spec fn member_trees(members: Seq<(String, JsonValue)>) -> Seq<(Seq<char>, JsonTree)> {
    members.map_values(|m: (String, JsonValue)| (m.0@, m.1@))
}

/// The tree of an array is the array of its elements' trees.
pub proof fn lemma_array_tree(v: &JsonValue, items: &Vec<JsonValue>)
    requires
        *v == JsonValue::Array(*items),
    ensures
        v@ == JsonTree::Array(item_trees(items@)),
{
    assert(item_trees(items@) =~= (match v@ {
        JsonTree::Array(t) => t,
        _ => Seq::empty(),
    }));
}

/// The tree of an object is the object of its members' trees.
pub proof fn lemma_object_tree(v: &JsonValue, members: &Vec<(String, JsonValue)>)
    requires
        *v == JsonValue::Object(*members),
    ensures
        v@ == JsonTree::Object(member_trees(members@)),
{
    assert(member_trees(members@) =~= (match v@ {
        JsonTree::Object(t) => t,
        _ => Seq::empty(),
    }));
}

proof fn lemma_first_error_step<A>(items: Seq<A>, f: spec_fn(A) -> Option<Seq<char>>, i: int)
    requires
        0 <= i < items.len(),
    ensures
        first_error(items.take(i + 1), f) == (match first_error(items.take(i), f) {
            Some(e) => Some(e),
            None => f(items[i]),
        }),
{
    assert(items.take(i + 1).drop_last() =~= items.take(i));
    assert(items.take(i + 1).last() == items[i]);
}

proof fn lemma_first_error_found<A>(items: Seq<A>, f: spec_fn(A) -> Option<Seq<char>>, k: int)
    requires
        0 <= k <= items.len(),
        first_error(items.take(k), f) is Some,
    ensures
        first_error(items, f) == first_error(items.take(k), f),
    decreases items.len(),
{
    if k == items.len() {
        assert(items.take(k) =~= items);
    } else {
        let t = items.drop_last();
        assert(t.take(k) =~= items.take(k));
        lemma_first_error_found(t, f, k);
    }
}

proof fn lemma_first_member_skip(members: Seq<(Seq<char>, JsonTree)>, key: Seq<char>, i: int)
    requires
        0 <= i < members.len(),
        members[i].0 != key,
    ensures
        first_member(members.subrange(i, members.len() as int), key) == first_member(
            members.subrange(i + 1, members.len() as int),
            key,
        ),
{
    assert(members.subrange(i, members.len() as int).drop_first() =~= members.subrange(
        i + 1,
        members.len() as int,
    ));
}

/// The member `key` of `v`, when `v` is an object that has one.
pub fn get_member<'a>(v: &'a JsonValue, key: &str) -> (r: Option<&'a JsonValue>)
    ensures
        match r {
            Some(m) => json_get(v@, key@) == Some(m@),
            None => json_get(v@, key@) is None,
        },
{
    match v {
        JsonValue::Object(members) => {
            let ghost tm = match v@ {
                JsonTree::Object(m) => m,
                _ => Seq::empty(),
            };
            assert(v@ == JsonTree::Object(tm));
            assert(tm.len() == members@.len());
            assert(forall|k: int|
                0 <= k < members@.len() ==> #[trigger] tm[k] == (
                    members@[k].0@,
                    json_tree(members@[k].1),
                ));
            let n = members.len();
            let mut i: usize = 0;
            assert(tm.subrange(0, n as int) =~= tm);
            while i < n
                invariant
                    n == members@.len(),
                    n == tm.len(),
                    i <= n,
                    v@ == JsonTree::Object(tm),
                    forall|k: int|
                        0 <= k < members@.len() ==> #[trigger] tm[k] == (
                            members@[k].0@,
                            json_tree(members@[k].1),
                        ),
                    first_member(tm, key@) == first_member(tm.subrange(i as int, n as int), key@),
                decreases n - i,
            {
                let entry = &members[i];
                assert(tm[i as int] == (entry.0@, json_tree(entry.1)));
                if str_eq(entry.0.as_str(), key) {
                    assert(tm.subrange(i as int, n as int)[0] == tm[i as int]);
                    return Some(&entry.1);
                }
                proof {
                    lemma_first_member_skip(tm, key@, i as int);
                }
                i = i + 1;
            }
            None
        },
        _ => None,
    }
}

/// `a`, `b` and `c` joined in order.
fn concat3(a: &str, b: &str, c: &str) -> (r: String)
    ensures
        r@ == a@ + b@ + c@,
{
    let mut m = String::from_str(a);
    m.append(b);
    m.append(c);
    m
}

/// The message for a required member that is absent.
pub fn missing_field_message(key: &str) -> (r: String)
    ensures
        r@ == missing_field(key@),
{
    concat3("missing field `", key, "`")
}

/// How serde describes `v` as a value it did not expect.
pub fn description_of(v: &JsonValue) -> (r: String)
    ensures
        r@ == description(v@),
{
    match v {
        JsonValue::Null => String::from_str("unit value"),
        JsonValue::Bool(b) => if *b {
            String::from_str("boolean `true`")
        } else {
            String::from_str("boolean `false`")
        },
        JsonValue::Number(n) => n.description.clone(),
        JsonValue::Str(s) => {
            let text = debug_string(s.as_str());
            let mut m = String::from_str("string ");
            m.append(text.as_str());
            m
        },
        JsonValue::Array(_) => String::from_str("sequence"),
        JsonValue::Object(_) => String::from_str("map"),
    }
}

/// The message for `v`, of the wrong type where `expected` was.
pub fn invalid_type_message(v: &JsonValue, expected: &str) -> (r: String)
    ensures
        r@ == invalid_type(v@, expected@),
{
    let d = description_of(v);
    let mut m = concat3("invalid type: ", d.as_str(), ", expected ");
    m.append(expected);
    m
}

/// The message for an array that ends at `index`, where `expected` was.
pub fn too_few_elements_message(index: usize, expected: &str) -> (r: String)
    ensures
        r@ == too_few_elements(index as nat, expected@),
{
    let digits = decimal_string(index as u64);
    let mut m = concat3("invalid length ", digits.as_str(), ", expected ");
    m.append(expected);
    m
}

/// The message for an array of `len` elements, longer than a record.
pub fn too_many_elements_message(len: usize) -> (r: String)
    ensures
        r@ == too_many_elements(len as nat),
{
    let digits = decimal_string(len as u64);
    concat3("invalid length ", digits.as_str(), ", expected fewer elements in array")
}

/// Read a string value.
pub fn read_string(v: &JsonValue) -> (r: Result<String, String>)
    ensures
        match r {
            Ok(s) => check_string(v@) == Ok::<Seq<char>, Seq<char>>(s@),
            Err(e) => check_string(v@) == Err::<Seq<char>, Seq<char>>(e@),
        },
{
    match v {
        JsonValue::Str(s) => Ok(s.clone()),
        _ => Err(invalid_type_message(v, "a string")),
    }
}

/// Read an optional string value: `null` is `None`.
pub fn read_optional_string(v: &JsonValue) -> (r: Result<Option<String>, String>)
    ensures
        match r {
            Ok(s) => check_optional_string(v@) == Ok::<Option<Seq<char>>, Seq<char>>(
                view_opt_string(s),
            ),
            Err(e) => check_optional_string(v@) == Err::<Option<Seq<char>>, Seq<char>>(e@),
        },
{
    match v {
        JsonValue::Null => Ok(None),
        JsonValue::Str(s) => Ok(Some(s.clone())),
        _ => Err(invalid_type_message(v, "a string")),
    }
}

/// Read an integer value in the range of `i64`.
pub fn read_integer(v: &JsonValue) -> (r: Result<i64, String>)
    ensures
        match r {
            Ok(i) => check_integer(v@) == Ok::<i64, Seq<char>>(i),
            Err(e) => check_integer(v@) == Err::<i64, Seq<char>>(e@),
        },
{
    match v {
        JsonValue::Number(n) => match n.integer {
            Some(i) => Ok(i),
            None => if n.float {
                Err(invalid_type_message(v, "i64"))
            } else {
                Err(concat3("invalid value: ", n.description.as_str(), ", expected i64"))
            },
        },
        _ => Err(invalid_type_message(v, "i64")),
    }
}

/// Read an optional integer value: `null` is `None`.
pub fn read_optional_integer(v: &JsonValue) -> (r: Result<Option<i64>, String>)
    ensures
        match r {
            Ok(i) => check_optional_integer(v@) == Ok::<Option<i64>, Seq<char>>(i),
            Err(e) => check_optional_integer(v@) == Err::<Option<i64>, Seq<char>>(e@),
        },
{
    match v {
        JsonValue::Null => Ok(None),
        _ => {
            let i = read_integer(v)?;
            Ok(Some(i))
        },
    }
}

/// Read a number value.
pub fn read_number(v: &JsonValue) -> (r: Result<JsonNumber, String>)
    ensures
        match r {
            Ok(n) => check_number(v@) == Ok::<NumberView, Seq<char>>(n@),
            Err(e) => check_number(v@) == Err::<NumberView, Seq<char>>(e@),
        },
{
    match v {
        JsonValue::Number(n) => Ok(
            JsonNumber {
                integer: n.integer,
                float: n.float,
                text: n.text.clone(),
                description: n.description.clone(),
            },
        ),
        _ => Err(invalid_type_message(v, "f64")),
    }
}

/// The element at `index`, when the array has one.
pub fn element<'a>(items: &'a Vec<JsonValue>, index: usize) -> (r: Option<&'a JsonValue>)
    ensures
        r is Some <==> index < items@.len(),
        r matches Some(x) ==> x@ == item_trees(items@)[index as int],
{
    if index < items.len() {
        Some(&items[index])
    } else {
        None
    }
}

/// The first error `f` finds among `members`, in order.
pub fn first_member_error<F: Fn(&String, &JsonValue) -> Option<String>>(
    members: &Vec<(String, JsonValue)>,
    f: F,
    Ghost(spec_f): Ghost<spec_fn((Seq<char>, JsonTree)) -> Option<Seq<char>>>,
) -> (r: Option<String>)
    requires
        forall|k: &String, x: &JsonValue| #[trigger] f.requires((k, x)),
        forall|k: &String, x: &JsonValue, y: Option<String>|
            #[trigger] f.ensures((k, x), y) ==> view_opt_string(y) == spec_f((k@, x@)),
    ensures
        view_opt_string(r) == first_error(member_trees(members@), spec_f),
{
    let ghost trees = member_trees(members@);
    let n = members.len();
    let mut i: usize = 0;
    assert(trees.take(0) =~= Seq::<(Seq<char>, JsonTree)>::empty());
    while i < n
        invariant
            n == members@.len(),
            trees == member_trees(members@),
            i <= n,
            forall|k: &String, x: &JsonValue| #[trigger] f.requires((k, x)),
            forall|k: &String, x: &JsonValue, y: Option<String>|
                #[trigger] f.ensures((k, x), y) ==> view_opt_string(y) == spec_f((k@, x@)),
            first_error(trees.take(i as int), spec_f) is None,
        decreases n - i,
    {
        let m = &members[i];
        let found = f(&m.0, &m.1);
        proof {
            lemma_first_error_step(trees, spec_f, i as int);
            assert(trees[i as int] == (m.0@, m.1@));
        }
        match found {
            Some(e) => {
                proof {
                    lemma_first_error_found(trees, spec_f, i + 1);
                }
                return Some(e);
            },
            None => {},
        }
        i = i + 1;
    }
    assert(trees.take(n as int) =~= trees);
    None
}

} // verus!
