//! Tests of the structured-value merger and the pretty serializer.

use create_vue::json::to_json_pretty;
use create_vue::value::{merge, StructuredValue};

fn obj(pairs: Vec<(&str, StructuredValue)>) -> StructuredValue {
    StructuredValue::Obj(pairs.into_iter().map(|(k, v)| (k.to_string(), v)).collect())
}

fn arr(items: Vec<StructuredValue>) -> StructuredValue {
    StructuredValue::Arr(items)
}

fn s(text: &str) -> StructuredValue {
    StructuredValue::Str(text.to_string())
}

fn n(v: i64) -> StructuredValue {
    StructuredValue::Num(v)
}

fn text(v: &StructuredValue) -> String {
    to_json_pretty(v)
}

#[test]
fn merge_overlay_keys_win_and_base_keys_survive() {
    let base = obj(vec![
        ("a", n(1)),
        ("b", obj(vec![("x", n(1))])),
        ("keep", s("old")),
    ]);
    let overlay = obj(vec![("b", obj(vec![("y", n(2))])), ("c", n(3))]);
    let merged = merge(&base, &overlay);
    assert_eq!(
        text(&merged),
        "{\n  \"a\": 1,\n  \"b\": {\n    \"x\": 1,\n    \"y\": 2\n  },\n  \"keep\": \"old\",\n  \"c\": 3\n}"
    );
}

#[test]
fn merge_arrays_concatenates_in_order() {
    let base = arr(vec![n(1), n(2)]);
    let overlay = arr(vec![n(3), n(4)]);
    let merged = merge(&base, &overlay);
    assert_eq!(text(&merged), "[\n  1,\n  2,\n  3,\n  4\n]");
    // no deduplication
    let dup = merge(&arr(vec![n(1)]), &arr(vec![n(1)]));
    assert_eq!(text(&dup), "[\n  1,\n  1\n]");
}

#[test]
fn merge_mismatched_variants_overlay_wins() {
    let merged = merge(&n(5), &s("x"));
    assert_eq!(text(&merged), "\"x\"");
    let merged2 = merge(&obj(vec![("a", n(1))]), &arr(vec![n(1), n(2)]));
    assert_eq!(text(&merged2), "[\n  1,\n  2\n]");
}

#[test]
fn serializer_renders_scalars_and_escapes() {
    assert_eq!(text(&StructuredValue::Null), "null");
    assert_eq!(text(&StructuredValue::Bool(true)), "true");
    assert_eq!(text(&StructuredValue::Bool(false)), "false");
    assert_eq!(text(&n(0)), "0");
    assert_eq!(text(&n(-42)), "-42");
    assert_eq!(text(&n(9007199254740991)), "9007199254740991");
    assert_eq!(text(&s("a\"b\\c\nd")), "\"a\\\"b\\\\c\\nd\"");
    assert_eq!(text(&s("\u{1}")), "\"\\u0001\"");
    assert_eq!(text(&obj(vec![])), "{}");
    assert_eq!(text(&arr(vec![])), "[]");
}
