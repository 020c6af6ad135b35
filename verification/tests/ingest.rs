use event_ingest::json::{to_json_string, JsonValue};
use event_ingest::persist::{build_record, make_object_key, make_response, plan_invocation, u128_to_dec, Plan};
use event_ingest::validate::get_event;

fn chars(s: &str) -> Vec<char> {
    s.chars().collect()
}

fn text(s: &str) -> JsonValue {
    JsonValue::Text(chars(s))
}

fn num(s: &str) -> JsonValue {
    JsonValue::Number(chars(s))
}

fn obj(members: Vec<(&str, JsonValue)>) -> JsonValue {
    JsonValue::Object(members.into_iter().map(|(k, v)| (chars(k), v)).collect())
}

fn valid_login() -> JsonValue {
    obj(vec![
        ("event", text("login")),
        ("value", num("1.0")),
        ("source_ip", text("192.168.0.1")),
    ])
}

#[test]
fn test_validation() {
    let valid = valid_login();
    assert!(get_event(&valid).is_some());

    let invalid = obj(vec![("event", text("login")), ("value", text("not_number"))]);
    assert!(get_event(&invalid).is_none());
}

#[test]
fn validator_extracts_fields_exactly() {
    let input = valid_login();
    let ed = get_event(&input).unwrap();
    assert_eq!(to_json_string(ed.event), "\"login\"");
    assert_eq!(ed.value.clone(), chars("1.0"));
    assert_eq!(to_json_string(ed.source_ip), "\"192.168.0.1\"");
}

#[test]
fn validator_accepts_any_event_and_source_ip_types() {
    let input = obj(vec![
        ("event", JsonValue::Null),
        ("value", num("42")),
        ("source_ip", JsonValue::Bool(true)),
    ]);
    let ed = get_event(&input).unwrap();
    assert_eq!(to_json_string(ed.event), "null");
    assert_eq!(to_json_string(ed.source_ip), "true");
}

#[test]
fn validator_rejects_missing_or_non_numeric() {
    let missing_event = obj(vec![("value", num("1")), ("source_ip", text("10.0.0.1"))]);
    assert!(get_event(&missing_event).is_none());

    let missing_value = obj(vec![("event", text("login")), ("source_ip", text("10.0.0.1"))]);
    assert!(get_event(&missing_value).is_none());

    let missing_source = obj(vec![("event", text("login")), ("value", num("1"))]);
    assert!(get_event(&missing_source).is_none());

    for bad in [
        text("not_number"),
        JsonValue::Bool(true),
        JsonValue::Null,
        JsonValue::Array(vec![num("1")]),
        obj(vec![("n", num("1"))]),
    ] {
        let input = obj(vec![
            ("event", text("login")),
            ("value", bad),
            ("source_ip", text("10.0.0.1")),
        ]);
        assert!(get_event(&input).is_none());
    }

    let not_an_object = JsonValue::Array(vec![text("event")]);
    assert!(get_event(&not_an_object).is_none());
}

#[test]
fn validation_is_idempotent() {
    let input = valid_login();
    let first = get_event(&input).unwrap();
    let second = get_event(&input).unwrap();
    assert_eq!(to_json_string(first.event), to_json_string(second.event));
    assert_eq!(first.value.clone(), second.value.clone());
    assert_eq!(to_json_string(first.source_ip), to_json_string(second.source_ip));

    let bad = obj(vec![("event", text("login"))]);
    assert!(get_event(&bad).is_none());
    assert!(get_event(&bad).is_none());
}

#[test]
fn record_preserves_fields_and_timestamp() {
    let input = valid_login();
    let ed = get_event(&input).unwrap();
    let record = build_record(1700000000123, &ed);
    assert_eq!(
        to_json_string(&record),
        "{\"timestamp\":1700000000123,\"event\":\"login\",\"value\":1.0,\"source_ip\":\"192.168.0.1\"}"
    );
}

#[test]
fn scenario_accept_login() {
    let input = valid_login();
    match plan_invocation(&input, 1700000000123) {
        Plan::Persist { key, body } => {
            assert_eq!(
                body,
                "{\"timestamp\":1700000000123,\"event\":\"login\",\"value\":1.0,\"source_ip\":\"192.168.0.1\"}"
            );
            assert!(key.starts_with("data/"));
            assert!(key.ends_with(".json"));
            assert_eq!(key.chars().count(), 46);
        }
        Plan::Reject => panic!("a well-formed event must be accepted"),
    }
    assert_eq!(to_json_string(&make_response(true)), "{\"status\":\"accepted\"}");
}

#[test]
fn scenario_reject_non_numeric_value() {
    let input = obj(vec![("event", text("login")), ("value", text("not_number"))]);
    match plan_invocation(&input, 1700000000123) {
        Plan::Reject => {}
        Plan::Persist { .. } => panic!("a malformed event must be rejected"),
    }
    assert_eq!(to_json_string(&make_response(false)), "{\"status\":\"rejected\"}");
}

#[test]
fn scenario_reject_empty_object() {
    let input = obj(vec![]);
    match plan_invocation(&input, 1700000000123) {
        Plan::Reject => {}
        Plan::Persist { .. } => panic!("an empty event must be rejected"),
    }
}

#[test]
fn distinct_keys_for_identical_payloads() {
    let input = valid_login();
    let first = match plan_invocation(&input, 1700000000123) {
        Plan::Persist { key, .. } => key,
        Plan::Reject => panic!("a well-formed event must be accepted"),
    };
    let second = match plan_invocation(&input, 1700000000123) {
        Plan::Persist { key, .. } => key,
        Plan::Reject => panic!("a well-formed event must be accepted"),
    };
    assert_ne!(first, second);
}

#[test]
fn storage_keys_are_fresh_and_well_formed() {
    let a = make_object_key();
    let b = make_object_key();
    assert!(a.starts_with("data/") && a.ends_with(".json"));
    assert!(b.starts_with("data/") && b.ends_with(".json"));
    assert_eq!(a.chars().count(), 46);
    assert_ne!(a, b);
}

#[test]
fn decimal_rendering_exact() {
    let zero: String = u128_to_dec(0).into_iter().collect();
    assert_eq!(zero, "0");
    let big: String = u128_to_dec(1234567890123).into_iter().collect();
    assert_eq!(big, "1234567890123");
}

#[test]
fn number_text_is_never_reencoded() {
    let record = obj(vec![("value", num("1.0"))]);
    assert_eq!(to_json_string(&record), "{\"value\":1.0}");
    let record = obj(vec![("value", num("-0.5e3"))]);
    assert_eq!(to_json_string(&record), "{\"value\":-0.5e3}");
}

#[test]
fn string_escaping_exact() {
    let v = text("say \"hi\"\\\n\t");
    assert_eq!(to_json_string(&v), "\"say \\\"hi\\\"\\\\\\n\\t\"");
    let control = text("\u{1}");
    assert_eq!(to_json_string(&control), "\"\\u0001\"");
}

#[test]
fn nested_value_rendering() {
    let v = obj(vec![
        ("items", JsonValue::Array(vec![num("1"), text("two"), JsonValue::Null])),
        ("flags", obj(vec![("on", JsonValue::Bool(true)), ("off", JsonValue::Bool(false))])),
        ("empty_list", JsonValue::Array(vec![])),
        ("empty_map", obj(vec![])),
    ]);
    assert_eq!(
        to_json_string(&v),
        "{\"items\":[1,\"two\",null],\"flags\":{\"on\":true,\"off\":false},\"empty_list\":[],\"empty_map\":{}}"
    );
}
