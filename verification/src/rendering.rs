//! JSON values as serde_json holds them, and the text that its `Debug`
//! writes for them.

use vstd::prelude::*;
use crate::json::{
    decimal_text, distinct_keys, entries_map, int_view, lemma_item_views, text_under, Json,
    JsonNumber, JsonView, NumberView,
};

verus! {

/// `serde_json::Value`, of which Verus sees nothing but the names below.
#[verifier::external_type_specification]
#[verifier::external_body]
pub struct ExValue(serde_json::Value);

/// The JSON value that a `serde_json::Value` holds: an integer as an
/// integer, and a double by its text.
pub uninterp spec fn outside_json(value: serde_json::Value) -> JsonView;

/// The text that `Debug` writes for a pair of references to
/// `serde_json::Value`s: the two values between round brackets, each as
/// serde_json's `Debug` writes it.
pub uninterp spec fn debug_pair_text(old: JsonView, new: JsonView) -> Seq<char>;

/// The JSON values that some `serde_json::Value`s hold, in order.
pub open spec fn outside_items(items: Seq<serde_json::Value>) -> Seq<JsonView> {
    items.map_values(|v: serde_json::Value| outside_json(v))
}

/// The keys of some entries, in order.
pub open spec fn outside_keys(entries: Seq<(String, serde_json::Value)>) -> Seq<Seq<char>> {
    entries.map_values(|e: (String, serde_json::Value)| e.0@)
}

/// The JSON values of some entries, in order.
pub open spec fn outside_values(entries: Seq<(String, serde_json::Value)>) -> Seq<JsonView> {
    entries.map_values(|e: (String, serde_json::Value)| outside_json(e.1))
}

/// Makes `serde_json::Value::Null`.
#[verifier::external_body]
pub(crate) fn value_null() -> (r: serde_json::Value)
    ensures
        outside_json(r) == JsonView::Null,
{
    serde_json::Value::Null
}

/// Makes `serde_json::Value::Bool`, which holds the flag.
#[verifier::external_body]
pub(crate) fn value_bool(flag: bool) -> (r: serde_json::Value)
    ensures
        outside_json(r) == JsonView::Bool(flag),
{
    serde_json::Value::Bool(flag)
}

/// Calls `serde_json::Value::from` on a `u64`: a number that holds it.
#[verifier::external_body]
pub(crate) fn value_unsigned(n: u64) -> (r: serde_json::Value)
    ensures
        outside_json(r) == int_view(n as int),
{
    serde_json::Value::from(n)
}

/// Calls `serde_json::Value::from` on an `i64`: a number that holds it, the
/// same as the one made from a `u64` where it is not negative.
#[verifier::external_body]
pub(crate) fn value_signed(n: i64) -> (r: serde_json::Value)
    ensures
        outside_json(r) == int_view(n as int),
{
    serde_json::Value::from(n)
}

/// Makes `serde_json::Value::Number`, which holds the number. Claimed of a
/// number that is held as a double: the value holds the double of that text.
#[verifier::external_body]
pub(crate) fn value_number(number: serde_json::Number) -> (r: serde_json::Value)
    ensures
        decimal_text(number) matches Some(text) ==> outside_json(r) == JsonView::Number(
            NumberView::Decimal(text),
        ),
{
    serde_json::Value::Number(number)
}

/// Makes `serde_json::Value::String`, which holds the text.
#[verifier::external_body]
pub(crate) fn value_text(text: String) -> (r: serde_json::Value)
    ensures
        outside_json(r) == JsonView::String(text@),
{
    serde_json::Value::String(text)
}

/// Makes `serde_json::Value::Array`, which holds the items in their order.
#[verifier::external_body]
pub(crate) fn value_list(items: Vec<serde_json::Value>) -> (r: serde_json::Value)
    ensures
        outside_json(r) == JsonView::Array(outside_items(items@)),
{
    serde_json::Value::Array(items)
}

/// Collects the entries into a `serde_json::Map` and makes
/// `serde_json::Value::Object` of it: the map holds each key with its value.
#[verifier::external_body]
pub(crate) fn value_record(entries: Vec<(String, serde_json::Value)>) -> (r: serde_json::Value)
    requires
        distinct_keys(outside_keys(entries@)),
    ensures
        outside_json(r) == JsonView::Object(
            entries_map(outside_keys(entries@), outside_values(entries@)),
        ),
{
    serde_json::Value::Object(entries.into_iter().collect())
}

/// Formats the pair of the two references with `{:?}`, which goes to
/// serde_json's `Debug` for each value. Claimed: the text depends on the two
/// JSON values alone, and holds no line feed, as `Debug` writes a text with
/// its line feeds escaped and everything else on one line.
#[verifier::external_body]
pub(crate) fn debug_pair(old: &serde_json::Value, new: &serde_json::Value) -> (text: String)
    ensures
        text@ == debug_pair_text(outside_json(*old), outside_json(*new)),
        !text@.contains('\n'),
{
    format!("{:?}", (old, new))
}

/// The value as serde_json holds it.
pub(crate) fn to_outside(value: &Json) -> (r: serde_json::Value)
    ensures
        outside_json(r) == value@,
    decreases value,
{
    match value {
        Json::Null => value_null(),
        Json::Bool(b) => value_bool(*b),
        Json::Number(JsonNumber::PosInt(n)) => value_unsigned(*n),
        Json::Number(JsonNumber::NegInt(n)) => value_signed(*n),
        Json::Number(JsonNumber::Decimal(d)) => value_number(d.number()),
        Json::String(s) => value_text(s.clone()),
        Json::Array(items) => {
            let mut out: Vec<serde_json::Value> = Vec::new();
            let mut i: usize = 0;
            while i < items.len()
                invariant
                    i <= items.len(),
                    out.len() == i,
                    decreases_to!(value => items),
                    forall|j: int| 0 <= j < i ==> outside_json(#[trigger] out[j]) == items[j]@,
                decreases items.len() - i,
            {
                proof {
                    assert(decreases_to!(*items => items[i as int]));
                }
                out.push(to_outside(&items[i]));
                i += 1;
            }
            proof {
                lemma_item_views(items@);
                assert(outside_items(out@) =~= value@->Array_0);
            }
            value_list(out)
        },
        Json::Object(o) => {
            let n = o.len();
            let mut out: Vec<(String, serde_json::Value)> = Vec::new();
            let mut i: usize = 0;
            while i < n
                invariant
                    i <= n,
                    n == o.keys().len(),
                    n == o.values().len(),
                    out.len() == i,
                    decreases_to!(value => o),
                    forall|j: int|
                        0 <= j < i ==> (#[trigger] out[j]).0@ == o.keys()[j] && outside_json(out[j].1)
                            == o.values()[j],
                decreases n - i,
            {
                let item = o.value(i);
                out.push((o.key(i).clone(), to_outside(item)));
                i += 1;
            }
            proof {
                assert(outside_keys(out@) =~= o.keys());
                assert(outside_values(out@) =~= o.values());
            }
            value_record(out)
        },
    }
}

/// The text for a changed pair of values: the two between round brackets,
/// each as serde_json's `Debug` writes it.
pub fn debug_text(old: &Json, new: &Json) -> (text: String)
    ensures
        text@ == debug_pair_text(old@, new@),
        !text@.contains('\n'),
{
    let a = to_outside(old);
    let b = to_outside(new);
    debug_pair(&a, &b)
}

/// The compact JSON text that serde_json writes for a value.
pub uninterp spec fn json_text(value: JsonView) -> Seq<char>;

/// Writes the value with `to_string`, which goes to serde_json's
/// `Display`: the value as compact JSON. Claimed: the text depends on the
/// JSON value alone.
#[verifier::external_body]
pub(crate) fn value_to_text(value: &serde_json::Value) -> (text: String)
    ensures
        text@ == json_text(outside_json(*value)),
{
    value.to_string()
}

/// The value as compact JSON.
pub fn to_text(value: &Json) -> (text: String)
    ensures
        text@ == json_text(value@),
{
    let held = to_outside(value);
    value_to_text(&held)
}

/// The items of the JSON array that a text holds, as serde_json reads it:
/// `None` where the text is no JSON array.
pub uninterp spec fn parsed_array(text: Seq<char>) -> Option<Seq<JsonView>>;

/// Calls `serde_json::from_str` for a vector of values. Claimed: the items
/// depend on the text alone, and there are none exactly when serde_json
/// returns an error.
#[verifier::external_body]
pub(crate) fn parse_array(text: &str) -> (items: Option<Vec<serde_json::Value>>)
    ensures
        match items {
            Some(found) => parsed_array(text@) == Some(outside_items(found@)),
            None => parsed_array(text@) is None,
        },
{
    serde_json::from_str(text).ok()
}

/// Calls `serde_json::Value::get` with the key and `Value::as_str` on what
/// it finds: the text under the key of an object, and nothing for a value
/// that is no object, has no such key, or holds no text there.
#[verifier::external_body]
pub(crate) fn text_field(value: &serde_json::Value, key: &str) -> (text: Option<String>)
    ensures
        match text {
            Some(t) => text_under(outside_json(*value), key@) == Some(t@),
            None => text_under(outside_json(*value), key@) is None,
        },
{
    value.get(key)?.as_str().map(str::to_string)
}

} // verus!
