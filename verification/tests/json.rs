use dmn::json::{Json, JsonDecimal, JsonNumber, JsonObject};
use dmn::modules::domains::{bool_from_value, diff_to_human, plain_line_of};

fn text(s: &str) -> Json {
    Json::String(s.to_string())
}

#[test]
fn objects_are_equal_whatever_the_order() {
    let mut a = JsonObject::new();
    a.insert("x".to_string(), Json::Bool(true));
    a.insert("y".to_string(), text("1"));
    let mut b = JsonObject::new();
    b.insert("y".to_string(), text("1"));
    b.insert("x".to_string(), Json::Bool(true));
    assert!(Json::Object(a.clone()).same(&Json::Object(b.clone())));
    b.insert("z".to_string(), Json::Null);
    assert!(!Json::Object(a.clone()).same(&Json::Object(b.clone())));
    assert!(!Json::Object(b).same(&Json::Object(a)));
}

#[test]
fn insert_replaces_the_value_of_a_key() {
    let mut o = JsonObject::new();
    assert_eq!(o.len(), 0);
    o.insert("k".to_string(), text("old"));
    o.insert("other".to_string(), Json::Null);
    o.insert("k".to_string(), text("new"));
    assert_eq!(o.len(), 2);
    assert_eq!(o.key(0), "k");
    assert_eq!(o.key(1), "other");
    assert!(o.value(0).same(&text("new")));
    assert!(o.get("k").unwrap().same(&text("new")));
    assert!(o.get("missing").is_none());
    assert_eq!(o.position("other"), Some(1));
    assert_eq!(o.position("missing"), None);
}

#[test]
fn values_of_different_kinds_differ() {
    assert!(Json::Null.same(&Json::Null));
    assert!(!Json::Null.same(&Json::Bool(false)));
    assert!(!text("1").same(&Json::Number(JsonNumber::PosInt(1))));
    assert!(!Json::Array(vec![]).same(&Json::Object(JsonObject::new())));
    assert!(text("a").same(&text("a")));
    assert!(!text("a").same(&text("b")));
}

#[test]
fn numbers_are_equal_by_value() {
    let five = JsonNumber::PosInt(5);
    assert!(five.same(&JsonNumber::NegInt(5)));
    assert!(JsonNumber::NegInt(5).same(&five));
    assert!(!five.same(&JsonNumber::NegInt(-5)));
    assert!(!JsonNumber::PosInt(u64::MAX).same(&JsonNumber::NegInt(-1)));
    assert!(JsonNumber::NegInt(-1).same(&JsonNumber::NegInt(-1)));
    assert!(five.is_nonzero());
    assert!(!JsonNumber::PosInt(0).is_nonzero());
    assert!(!JsonNumber::NegInt(0).is_nonzero());
    assert!(Json::signed(5).same(&Json::unsigned(5)));
    assert!(Json::signed(-5).same(&Json::Number(JsonNumber::NegInt(-5))));
}

#[test]
fn arrays_are_equal_item_by_item() {
    let a = Json::Array(vec![Json::Bool(true), text("x")]);
    let b = Json::Array(vec![Json::Bool(true), text("x")]);
    let c = Json::Array(vec![text("x"), Json::Bool(true)]);
    let d = Json::Array(vec![Json::Bool(true)]);
    assert!(a.same(&b));
    assert!(!a.same(&c));
    assert!(!a.same(&d));
    assert!(a.clone().same(&a));
}

#[test]
fn optional_values_become_null() {
    assert!(Json::optional_text(&None).same(&Json::Null));
    assert!(Json::optional_text(&Some("a".to_string())).same(&text("a")));
    assert!(Json::optional_flag(None).same(&Json::Null));
    assert!(Json::optional_flag(Some(false)).same(&Json::Bool(false)));
    assert!(Json::optional_int(None).same(&Json::Null));
    assert!(Json::optional_int(Some(-3)).same(&Json::Number(JsonNumber::NegInt(-3))));
    assert!(Json::texts(&vec!["a".to_string(), "b".to_string()])
        .same(&Json::Array(vec![text("a"), text("b")])));
    assert!(Json::text("q").same(&text("q")));
}

fn decimal(value: f64) -> Json {
    let number = serde_json::Number::from_f64(value).unwrap();
    Json::Number(JsonNumber::Decimal(JsonDecimal::new(number).unwrap()))
}

#[test]
fn numbers_that_are_no_integers_are_numbers_of_their_own() {
    assert!(decimal(1.5).same(&decimal(1.5)));
    assert!(!decimal(1.5).same(&decimal(2.5)));
    assert!(!decimal(1.5).same(&text("1.5")));
    assert!(!decimal(1.0).same(&Json::unsigned(1)));
    assert!(!Json::signed(1).same(&decimal(1.0)));
    assert!(decimal(1.5).clone().same(&decimal(1.5)));
    assert!(JsonDecimal::new(serde_json::Number::from(5u64)).is_none());
    assert!(JsonDecimal::new(serde_json::Number::from(-5i64)).is_none());
    let held = JsonDecimal::new(serde_json::Number::from_f64(2.25).unwrap()).unwrap();
    assert_eq!(held.to_text(), "2.25");
    assert_eq!(held.number(), serde_json::Number::from_f64(2.25).unwrap());
}

#[test]
fn numbers_that_are_no_integers_read_true_when_they_are_not_zero() {
    assert!(bool_from_value(&decimal(1.5)));
    assert!(bool_from_value(&decimal(-0.001)));
    assert!(bool_from_value(&decimal(1e-300)));
    assert!(bool_from_value(&decimal(1e300)));
    assert!(bool_from_value(&decimal(100000.0)));
    assert!(!bool_from_value(&decimal(0.0)));
    assert!(!bool_from_value(&decimal(-0.0)));
}

#[test]
fn numbers_that_are_no_integers_are_written_as_numbers() {
    let set = vec![("price".to_string(), (decimal(1.5), Json::Array(vec![decimal(-2.0e10)])))];
    assert_eq!(
        diff_to_human("a.com".to_string(), set),
        " - price: (Number(1.5), Array [Number(-20000000000.0)])"
    );
    assert_eq!(plain_line_of("key", "(Null, Bool(true))"), " - key: (Null, Bool(true))");
    assert_eq!(plain_line_of("", ""), " - : ");
}
