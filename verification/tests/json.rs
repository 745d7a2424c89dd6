use tamandua_analyzers::json::{rank_of_whole, JsonValue};

fn text(s: &str) -> JsonValue {
    JsonValue::Text(s.to_string())
}

fn object(fields: Vec<(&str, JsonValue)>) -> JsonValue {
    JsonValue::Object(
        fields
            .into_iter()
            .map(|(name, value)| (name.to_string(), value))
            .collect(),
    )
}

fn path(parts: &[&str]) -> Vec<String> {
    parts.iter().map(|p| p.to_string()).collect()
}

#[test]
fn whole_numbers_rank_as_doubles() {
    let numbers = [
        0u64,
        1,
        2,
        3,
        10,
        255,
        4096,
        1 << 52,
        (1 << 53) - 1,
        1 << 53,
        (1 << 53) + 1,
        (1 << 53) + 2,
        (1 << 53) + 3,
        (1 << 54) + 2,
        (1 << 54) + 6,
        1 << 63,
        u64::MAX - 1024,
        u64::MAX - 1,
        u64::MAX,
        12_345_678_901_234_567_890,
        9_007_199_254_740_993,
    ];
    for n in numbers {
        assert_eq!(rank_of_whole(n), (n as f64).to_bits() as i64, "{}", n);
    }
}

#[test]
fn negative_numbers_rank_below_zero() {
    for n in [-1i64, -2, -1000, i64::MIN + 1, i64::MIN, -9_007_199_254_740_993] {
        let expected = -((n as f64).abs().to_bits() as i64);
        assert_eq!(JsonValue::NegInt(n).number_rank(), Some(expected));
    }
    assert_eq!(JsonValue::Float(17).number_rank(), Some(17));
    assert_eq!(text("1").number_rank(), None);
    assert_eq!(JsonValue::Null.number_rank(), None);
}

#[test]
fn greater_numbers_have_no_lower_rank() {
    let mut last = rank_of_whole(0);
    for shift in 0..64 {
        for offset in [0u64, 1] {
            let rank = rank_of_whole((1u64 << shift).saturating_add(offset));
            assert!(rank >= last || offset == 0);
            last = last.max(rank);
        }
    }
}

#[test]
fn equality_is_by_content() {
    assert!(JsonValue::Null.equals(&JsonValue::Null));
    assert!(!JsonValue::Null.equals(&JsonValue::Bool(false)));
    assert!(JsonValue::Bool(true).equals(&JsonValue::Bool(true)));
    assert!(!JsonValue::PosInt(1).equals(&JsonValue::Float(rank_of_whole(1))));
    assert!(text("a").equals(&text("a")));
    assert!(!text("a").equals(&text("A")));

    let a = JsonValue::Array(vec![JsonValue::PosInt(1), text("x")]);
    let b = JsonValue::Array(vec![JsonValue::PosInt(1), text("x")]);
    let c = JsonValue::Array(vec![text("x"), JsonValue::PosInt(1)]);
    let d = JsonValue::Array(vec![JsonValue::PosInt(1)]);
    assert!(a.equals(&b));
    assert!(!a.equals(&c));
    assert!(!a.equals(&d));
}

#[test]
fn the_order_of_fields_does_not_count() {
    let a = object(vec![("x", JsonValue::PosInt(1)), ("y", text("b"))]);
    let b = object(vec![("y", text("b")), ("x", JsonValue::PosInt(1))]);
    let c = object(vec![("y", text("b"))]);
    let d = object(vec![("y", text("c")), ("x", JsonValue::PosInt(1))]);
    assert!(a.equals(&b));
    assert!(!a.equals(&c));
    assert!(!c.equals(&a));
    assert!(!a.equals(&d));
    assert!(a.clone().equals(&a));
}

#[test]
fn the_last_of_two_fields_with_one_name_counts() {
    let a = object(vec![("x", JsonValue::PosInt(1)), ("x", JsonValue::PosInt(2))]);
    let b = object(vec![("x", JsonValue::PosInt(2))]);
    assert!(a.equals(&b));
    assert!(a.at(&path(&["x"])).unwrap().equals(&JsonValue::PosInt(2)));
}

#[test]
fn paths_lead_through_objects_and_arrays() {
    let json = object(vec![(
        "payload",
        object(vec![(
            "list",
            JsonValue::Array(vec![text("a"), object(vec![("k", JsonValue::Bool(true))])]),
        )]),
    )]);
    assert!(json
        .at(&path(&["payload", "list", "0"]))
        .unwrap()
        .equals(&text("a")));
    assert!(json
        .at(&path(&["payload", "list", "+1", "k"]))
        .unwrap()
        .equals(&JsonValue::Bool(true)));
    assert!(json.at(&path(&["payload", "list", "2"])).is_none());
    assert!(json.at(&path(&["payload", "list", "-1"])).is_none());
    assert!(json.at(&path(&["payload", "list", ""])).is_none());
    assert!(json.at(&path(&["payload", "list", "+"])).is_none());
    assert!(json
        .at(&path(&["payload", "list", "99999999999999999999999"]))
        .is_none());
    assert!(json.at(&path(&["payload", "missing"])).is_none());
    assert!(json.at(&path(&["payload", "list", "0", "x"])).is_none());
    assert!(json.at(&path(&[])).unwrap().equals(&json));
}
