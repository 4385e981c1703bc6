//! JSON text, read and written by `serde_json`.

use crate::error::DbError;
use crate::error::DbErrorView;
use crate::rows::F64Bits;
use serde_json::Error;
use serde_json::Map as JsonMap;
use serde_json::Value;
use vstd::prelude::*;

verus! {

/// A JSON value.
#[verifier::external_type_specification]
#[verifier::external_body]
pub struct ExValue(Value);

/// The error of reading or writing JSON text.
#[verifier::external_type_specification]
#[verifier::external_body]
pub struct ExError(Error);

/// What a JSON value holds. A number is an integer where `serde_json` holds it
/// as one; every other number is given by its bit pattern.
pub enum JsonView {
    Null,
    Bool(bool),
    Integer(int),
    Real(F64Bits),
    Text(Seq<char>),
    Array(Seq<JsonView>),
    Object(Map<Seq<char>, JsonView>),
}

/// The content of a JSON value.
pub uninterp spec fn json_content(value: Value) -> JsonView;

/// What `serde_json::from_str` reads from a text: a value, or the error.
pub uninterp spec fn json_parsed(text: Seq<char>) -> Result<Value, Error>;

/// The message of a JSON error.
pub uninterp spec fn json_error_text(error: Error) -> Seq<char>;

/// What `serde_json::to_string_pretty` writes for a value.
pub uninterp spec fn json_pretty(value: Value) -> Seq<char>;

/// `serde_json::from_str`, into a value: the result is a function of the text.
#[verifier::external_body]
pub(crate) fn parse(text: &str) -> (parsed: Result<Value, Error>)
    ensures
        parsed == json_parsed(text@),
{
    serde_json::from_str(text)
}

/// The message of a `serde_json::Error`, from its `Display`: a function of the
/// error.
#[verifier::external_body]
pub(crate) fn error_text(error: &Error) -> (text: String)
    ensures
        text@ == json_error_text(*error),
{
    error.to_string()
}

/// Whether a content is an object with the key.
pub open spec fn has_member(content: JsonView, key: Seq<char>) -> bool {
    content matches JsonView::Object(members) && members.contains_key(key)
}

/// What stands under a key of an object.
pub open spec fn member(content: JsonView, key: Seq<char>) -> JsonView {
    content->Object_0[key]
}

/// `serde_json::Value::clone` gives the same value.
pub assume_specification[ <Value as Clone>::clone ](value: &Value) -> (copy: Value)
    ensures
        copy == *value,
;

/// Text that JSON writes as it is, without escapes: no quotation mark, no
/// backslash, no control character below the space.
pub open spec fn plain(text: Seq<char>) -> bool {
    forall|i: int|
        0 <= i < text.len() ==> #[trigger] text[i] as int >= 0x20 && text[i] != '"' && text[i]
            != '\\'
}

/// The object with one member that is a text.
pub open spec fn member_text(key: Seq<char>, value: Seq<char>) -> Seq<char> {
    seq!['{', '"'] + key + seq!['"', ':', '"'] + value + seq!['"', '}']
}

/// `serde_json::to_string` on an object with one member that is a text. For
/// plain text it succeeds, writes no escapes and no spaces, and what it writes
/// is read back by `serde_json::from_str` as an object with that member. Keys
/// that begin with a dollar sign are left out: `serde_json` has names of its own
/// among them.
#[verifier::external_body]
pub(crate) fn write_member(key: &str, value: &str) -> (written: Result<String, Error>)
    requires
        plain(key@),
        key@.len() > 0 ==> key@[0] != '$',
        plain(value@),
    ensures
        written is Ok,
        written->Ok_0@ == member_text(key@, value@),
        json_parsed(written->Ok_0@) is Ok,
        json_content(json_parsed(written->Ok_0@)->Ok_0) == JsonView::Object(
            map![key@ => JsonView::Text(value@)],
        ),
{
    let mut object = JsonMap::new();
    object.insert(key.to_string(), Value::String(value.to_string()));
    serde_json::to_string(&object)
}

/// `serde_json::Value::Object` with an empty map.
#[verifier::external_body]
pub(crate) fn empty_object() -> (value: Value)
    ensures
        json_content(value) == JsonView::Object(Map::empty()),
{
    Value::Object(JsonMap::new())
}

/// `serde_json::Value` as `IndexMut` with a text key: an object has the value
/// under the key afterwards, in place of what stood there.
#[verifier::external_body]
pub(crate) fn set_member(object: &mut Value, key: &str, value: Value)
    requires
        json_content(*old(object)) is Object,
    ensures
        json_content(*final(object)) == JsonView::Object(
            json_content(*old(object))->Object_0.insert(key@, json_content(value)),
        ),
{
    object[key] = value;
}

/// The contents of some values.
pub open spec fn contents(values: Seq<Value>) -> Seq<JsonView> {
    values.map_values(|value: Value| json_content(value))
}

/// `serde_json::Value::Array` of some values.
#[verifier::external_body]
pub(crate) fn array_value(items: Vec<Value>) -> (value: Value)
    ensures
        json_content(value) == JsonView::Array(contents(items@)),
{
    Value::Array(items)
}

/// `serde_json::Value::String` of a text.
#[verifier::external_body]
pub(crate) fn text_value(text: &str) -> (value: Value)
    ensures
        json_content(value) == JsonView::Text(text@),
{
    Value::String(text.to_string())
}

/// `serde_json::Value::from` of a whole number.
#[verifier::external_body]
pub(crate) fn integer_value(n: u64) -> (value: Value)
    ensures
        json_content(value) == JsonView::Integer(n as int),
{
    Value::from(n)
}

/// Whether a number lies below two to the power of 1022 in size, far from where
/// reading with best effort could run out of range. Of larger numbers nothing is
/// said.
pub open spec fn ordinary_size(bits: F64Bits) -> bool {
    bits.0 % 0x8000_0000_0000_0000 < 0x7fd0_0000_0000_0000
}

/// How deep the values may be nested that `serde_json` reads.
pub open spec fn depth_limit() -> nat {
    127
}

/// Whether a content is nested no deeper than `depth`, has no key that begins
/// with a dollar sign, and no number of extreme size.
pub open spec fn readable(content: JsonView, depth: nat) -> bool
    decreases depth,
{
    match content {
        JsonView::Real(bits) => ordinary_size(bits),
        JsonView::Array(items) => depth > 0 && forall|i: int|
            0 <= i < items.len() ==> readable(#[trigger] items[i], (depth - 1) as nat),
        JsonView::Object(members) => depth > 0 && forall|key: Seq<char>| #[trigger]
            members.contains_key(key) ==> (key.len() > 0 ==> key[0] != '$') && readable(
                members[key],
                (depth - 1) as nat,
            ),
        _ => true,
    }
}

/// The number that `serde_json::from_str` reads where `serde_json` wrote the
/// given one. It reads with best effort: most numbers are read as they were, and
/// some as a neighbour.
pub uninterp spec fn json_reread(bits: F64Bits) -> F64Bits;

/// Whether every number with a fraction in a content, nested no deeper than
/// `depth`, is read as it was written.
pub open spec fn exact(content: JsonView, depth: nat) -> bool
    decreases depth,
{
    match content {
        JsonView::Real(bits) => json_reread(bits) == bits,
        JsonView::Array(items) => depth > 0 && forall|i: int|
            0 <= i < items.len() ==> exact(#[trigger] items[i], (depth - 1) as nat),
        JsonView::Object(members) => depth > 0 && forall|key: Seq<char>| #[trigger]
            members.contains_key(key) ==> exact(members[key], (depth - 1) as nat),
        _ => true,
    }
}

/// Whether `b`, nested no deeper than `depth`, is `a` with every number with a
/// fraction as it is read where `a` was written.
pub open spec fn alike(a: JsonView, b: JsonView, depth: nat) -> bool
    decreases depth,
{
    match (a, b) {
        (JsonView::Real(x), JsonView::Real(y)) => y == json_reread(x),
        (JsonView::Array(xs), JsonView::Array(ys)) => depth > 0 && xs.len() == ys.len() && forall|
            i: int,
        |
            0 <= i < xs.len() ==> alike(#[trigger] xs[i], ys[i], (depth - 1) as nat),
        (JsonView::Object(xs), JsonView::Object(ys)) => depth > 0 && xs.dom() == ys.dom()
            && forall|key: Seq<char>| #[trigger]
            xs.contains_key(key) ==> alike(xs[key], ys[key], (depth - 1) as nat),
        _ => a == b,
    }
}

/// `serde_json::to_string_pretty` on a value: it succeeds, and the text is a
/// function of the value. A readable value is read back by
/// `serde_json::from_str`, with all that it holds; numbers with a fraction are
/// read with best effort, each by itself.
#[verifier::external_body]
pub(crate) fn write_pretty(value: &Value) -> (written: Result<String, Error>)
    ensures
        written is Ok,
        written->Ok_0@ == json_pretty(*value),
        readable(json_content(*value), depth_limit()) ==> json_parsed(written->Ok_0@) is Ok
            && alike(
            json_content(*value),
            json_content(json_parsed(written->Ok_0@)->Ok_0),
            depth_limit(),
        ),
        json_content(*value) is Real && ordinary_size(json_content(*value)->Real_0)
            ==> json_content(json_parsed(written->Ok_0@)->Ok_0) == JsonView::Real(
            json_reread(json_content(*value)->Real_0),
        ),
{
    serde_json::to_string_pretty(value)
}

/// A content whose numbers are read as they were written is read back as it is.
pub proof fn lemma_alike_exact(a: JsonView, b: JsonView, depth: nat)
    requires
        alike(a, b, depth),
        exact(a, depth),
    ensures
        a == b,
    decreases depth,
{
    match (a, b) {
        (JsonView::Array(xs), JsonView::Array(ys)) => {
            assert forall|i: int| 0 <= i < xs.len() implies #[trigger] xs[i] == ys[i] by {
                lemma_alike_exact(xs[i], ys[i], (depth - 1) as nat);
            }
            assert(xs =~= ys);
        },
        (JsonView::Object(xs), JsonView::Object(ys)) => {
            assert forall|key: Seq<char>| #[trigger] xs.contains_key(key) implies xs[key]
                == ys[key] by {
                lemma_alike_exact(xs[key], ys[key], (depth - 1) as nat);
            }
            assert(xs =~= ys);
        },
        _ => {},
    }
}

/// The store error for a JSON error.
pub open spec fn json_db_error(error: Error) -> DbErrorView {
    DbErrorView::InvalidData("serde_json: "@ + json_error_text(error))
}

/// Turns a JSON error into a store error.
pub fn sqlx_err(e: Error) -> (error: DbError)
    ensures
        error@ == json_db_error(e),
{
    DbError::InvalidData("serde_json: ".to_owned().concat(error_text(&e).as_str()))
}

/// A JSON error becomes invalid data, with the message of `serde_json` behind
/// `serde_json: `.
pub proof fn law_json_errors_are_invalid_data(e: Error, error: DbError)
    requires
        error@ == json_db_error(e),
    ensures
        error matches DbError::InvalidData(message) && message@ == "serde_json: "@
            + json_error_text(e),
{
}

} // verus!
