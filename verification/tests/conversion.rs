use quick_js::callback::NoCallbacks;
use quick_js::context::{ContextWrapper, OwnedObjectRef};
use quick_js::value::{JsValue, ValueError};

fn ctx() -> ContextWrapper<NoCallbacks> {
    ContextWrapper::new().unwrap()
}

fn live_count(c: &ContextWrapper<NoCallbacks>) -> usize {
    c.engine.rc.iter().filter(|&&n| n > 0).count()
}

fn round_trip(c: &mut ContextWrapper<NoCallbacks>, v: JsValue) -> JsValue {
    let h = c.serialize_value(&v).unwrap();
    h.to_value().unwrap()
}

#[test]
fn primitive_round_trips() {
    let mut c = ctx();
    assert_eq!(round_trip(&mut c, JsValue::Null), JsValue::Null);
    assert_eq!(round_trip(&mut c, JsValue::Bool(true)), JsValue::Bool(true));
    assert_eq!(round_trip(&mut c, JsValue::Bool(false)), JsValue::Bool(false));
    assert_eq!(round_trip(&mut c, JsValue::Int(42)), JsValue::Int(42));
    assert_eq!(round_trip(&mut c, JsValue::Int(-7)), JsValue::Int(-7));
    assert_eq!(round_trip(&mut c, JsValue::Int(i32::MIN)), JsValue::Int(i32::MIN));
    let bits = 1.5f64.to_bits();
    assert_eq!(round_trip(&mut c, JsValue::Float(bits)), JsValue::Float(bits));
    let nan_bits = f64::NAN.to_bits();
    assert_eq!(round_trip(&mut c, JsValue::Float(nan_bits)), JsValue::Float(nan_bits));
    assert_eq!(
        round_trip(&mut c, JsValue::String(String::from("hello"))),
        JsValue::String(String::from("hello"))
    );
    assert_eq!(
        round_trip(&mut c, JsValue::String(String::new())),
        JsValue::String(String::new())
    );
}

#[test]
fn array_round_trip_keeps_order_and_length() {
    let mut c = ctx();
    let v = JsValue::Array(vec![
        JsValue::Int(1),
        JsValue::String(String::from("two")),
        JsValue::Array(vec![JsValue::Bool(true), JsValue::Null]),
        JsValue::Int(4),
    ]);
    let expected = JsValue::Array(vec![
        JsValue::Int(1),
        JsValue::String(String::from("two")),
        JsValue::Array(vec![JsValue::Bool(true), JsValue::Null]),
        JsValue::Int(4),
    ]);
    assert_eq!(round_trip(&mut c, v), expected);

    let empty = JsValue::Array(vec![]);
    assert_eq!(round_trip(&mut c, empty), JsValue::Array(vec![]));
}

#[test]
fn object_reads_back_by_key() {
    let mut c = ctx();
    let v = JsValue::Object(vec![
        (String::from("a"), JsValue::Int(1)),
        (String::from("b"), JsValue::String(String::from("x"))),
    ]);
    let h = c.serialize_value(&v).unwrap();
    let obj = OwnedObjectRef::new(h).unwrap();
    let a = obj.property(&mut c, "a").unwrap();
    assert_eq!(a.to_value().unwrap(), JsValue::Int(1));
    let b = obj.property(&mut c, "b").unwrap();
    assert_eq!(b.to_value().unwrap(), JsValue::String(String::from("x")));
}

#[test]
fn plain_object_is_unsupported_on_read() {
    let mut c = ctx();
    let v = JsValue::Object(vec![(String::from("a"), JsValue::Int(1))]);
    let h = c.serialize_value(&v).unwrap();
    assert_eq!(
        h.to_value(),
        Err(ValueError::Internal(String::from("Unsupported JS type: Object")))
    );
}

#[test]
fn nul_string_is_rejected() {
    let mut c = ctx();
    let v = JsValue::String(String::from("a\0b"));
    assert_eq!(c.serialize_value(&v).unwrap_err(), ValueError::StringWithZeroBytes);
    let k = JsValue::Object(vec![(String::from("a\0b"), JsValue::Int(1))]);
    assert_eq!(c.serialize_value(&k).unwrap_err(), ValueError::StringWithZeroBytes);
}

#[test]
fn failing_serialization_leaks_nothing() {
    let mut c = ctx();
    let keep = c.serialize_value(&JsValue::String(String::from("keep"))).unwrap();
    let before = live_count(&c);
    for _ in 0..3 {
        let bad = JsValue::Array(vec![
            JsValue::String(String::from("ok")),
            JsValue::Array(vec![JsValue::String(String::from("deep"))]),
            JsValue::String(String::from("bad\0")),
            JsValue::Int(4),
        ]);
        assert!(c.serialize_value(&bad).is_err());
        assert_eq!(live_count(&c), before);
    }
    let bad_obj = JsValue::Object(vec![
        (String::from("one"), JsValue::Int(1)),
        (String::from("two"), JsValue::String(String::from("x\0y"))),
    ]);
    assert!(c.serialize_value(&bad_obj).is_err());
    assert_eq!(live_count(&c), before);
    drop(keep);
}

#[test]
fn release_happens_exactly_once() {
    let mut c = ctx();
    let mut h = c
        .serialize_value(&JsValue::Array(vec![
            JsValue::String(String::from("s")),
            JsValue::Int(1),
        ]))
        .unwrap();
    assert_eq!(live_count(&c), 2);
    c.free_value(&mut h);
    assert_eq!(live_count(&c), 0);
    c.free_value(&mut h);
    assert_eq!(live_count(&c), 0);
}

#[test]
fn transfer_disarms_the_handle() {
    let mut c = ctx();
    let mut h = c.serialize_value(&JsValue::String(String::from("s"))).unwrap();
    assert_eq!(live_count(&c), 1);
    let raw = h.into_inner();
    c.free_value(&mut h);
    assert_eq!(live_count(&c), 1);
    c.engine.release(&raw);
    assert_eq!(live_count(&c), 0);
}

#[test]
fn tag_predicates() {
    let mut c = ctx();
    let s = c.serialize_value(&JsValue::String(String::from("s"))).unwrap();
    assert!(s.is_string());
    assert!(!s.is_object());
    assert!(!s.is_exception());
    let o = c.serialize_value(&JsValue::Object(vec![])).unwrap();
    assert!(o.is_object());
    assert!(!o.is_string());
    let a = c.serialize_value(&JsValue::Array(vec![])).unwrap();
    assert!(a.is_object());
}

#[test]
fn to_string_coerces_primitives() {
    let mut c = ctx();
    let h = c.serialize_value(&JsValue::Int(-42)).unwrap();
    assert_eq!(h.to_string().unwrap(), String::from("-42"));
    let h = c.serialize_value(&JsValue::Int(0)).unwrap();
    assert_eq!(h.to_string().unwrap(), String::from("0"));
    let h = c.serialize_value(&JsValue::Int(1234567)).unwrap();
    assert_eq!(h.to_string().unwrap(), String::from("1234567"));
    let h = c.serialize_value(&JsValue::Bool(true)).unwrap();
    assert_eq!(h.to_string().unwrap(), String::from("true"));
    let h = c.serialize_value(&JsValue::Null).unwrap();
    assert_eq!(h.to_string().unwrap(), String::from("null"));
    let h = c.serialize_value(&JsValue::String(String::from("txt"))).unwrap();
    assert_eq!(h.to_string().unwrap(), String::from("txt"));
    let h = c.serialize_value(&JsValue::Array(vec![])).unwrap();
    assert_eq!(
        h.to_string().unwrap_err(),
        quick_js::value::ExecutionError::Internal(String::from(
            "Could not convert value to string"
        ))
    );
}
