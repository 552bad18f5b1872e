use quick_js::callback::{Func1, Func2, NoCallbacks};
use quick_js::context::{ContextWrapper, OwnedObjectRef, OwnedValueRef};
use quick_js::value::{ExecutionError, JsValue, ValueError};

fn ctx() -> ContextWrapper<NoCallbacks> {
    ContextWrapper::new().unwrap()
}

#[test]
fn eval_produces_the_staged_outcome() {
    let mut c = ctx();
    c.stage_eval_result(&JsValue::Int(7)).unwrap();
    let h = c.eval("3 + 4").unwrap();
    assert_eq!(h.to_value().unwrap(), JsValue::Int(7));
}

#[test]
fn eval_with_nothing_staged_is_undefined() {
    let mut c = ctx();
    let h = c.eval("void 0").unwrap();
    assert_eq!(h.to_value().unwrap(), JsValue::Null);
}

#[test]
fn eval_surfaces_a_thrown_string() {
    let mut c = ctx();
    c.stage_eval_throw(&JsValue::String(String::from("boom"))).unwrap();
    let err = c.eval("throw 'boom'").unwrap_err();
    assert_eq!(err, ExecutionError::Exception(JsValue::String(String::from("boom"))));
}

#[test]
fn eval_degrades_an_unconvertible_exception() {
    let mut c = ctx();
    c.stage_eval_throw(&JsValue::Object(vec![(String::from("k"), JsValue::Int(1))]))
        .unwrap();
    let err = c.eval("throw {k: 1}").unwrap_err();
    assert_eq!(err, ExecutionError::Internal(String::from("Unknown Exception")));
}

#[test]
fn eval_rejects_code_with_nul() {
    let mut c = ctx();
    let err = c.eval("bad\0code").unwrap_err();
    assert_eq!(err, ExecutionError::Conversion(ValueError::StringWithZeroBytes));
}

#[test]
fn context_stays_usable_after_an_exception() {
    let mut c = ctx();
    c.stage_eval_throw(&JsValue::String(String::from("boom"))).unwrap();
    assert!(c.eval("throw 'boom'").is_err());
    c.stage_eval_result(&JsValue::Int(5)).unwrap();
    let h = c.eval("5").unwrap();
    assert_eq!(h.to_value().unwrap(), JsValue::Int(5));
}

#[test]
fn callback_increments_int() {
    let mut c: ContextWrapper<Func1<fn(JsValue) -> Result<JsValue, String>>> =
        ContextWrapper::new().unwrap();
    fn incr(v: JsValue) -> Result<JsValue, String> {
        match v {
            JsValue::Int(x) => Ok(JsValue::Int(x + 1)),
            _ => Err(String::from("expected an Int")),
        }
    }
    c.add_callback("incr", Func1::new(incr as fn(JsValue) -> Result<JsValue, String>))
        .unwrap();
    let global = c.global().unwrap();
    let f = global.property(&mut c, "incr").unwrap();
    let arg = c.serialize_value(&JsValue::Int(41)).unwrap();
    let r = c.call_function(&f, &vec![arg]).unwrap();
    assert_eq!(r.to_value().unwrap(), JsValue::Int(42));
}

#[test]
fn callback_business_error_is_thrown() {
    let mut c: ContextWrapper<Func1<fn(JsValue) -> Result<JsValue, String>>> =
        ContextWrapper::new().unwrap();
    fn incr(v: JsValue) -> Result<JsValue, String> {
        match v {
            JsValue::Int(x) => Ok(JsValue::Int(x + 1)),
            _ => Err(String::from("expected an Int")),
        }
    }
    c.add_callback("incr", Func1::new(incr as fn(JsValue) -> Result<JsValue, String>))
        .unwrap();
    let global = c.global().unwrap();
    let f = global.property(&mut c, "incr").unwrap();
    let arg = c.serialize_value(&JsValue::Bool(true)).unwrap();
    let err = c.call_function(&f, &vec![arg]).unwrap_err();
    assert_eq!(
        err,
        ExecutionError::Exception(JsValue::String(String::from("expected an Int")))
    );
}

#[test]
fn callback_arity_mismatch_names_expected_and_got() {
    let mut c: ContextWrapper<Func2<fn(JsValue, JsValue) -> Result<JsValue, String>>> =
        ContextWrapper::new().unwrap();
    fn add(a: JsValue, b: JsValue) -> Result<JsValue, String> {
        match (a, b) {
            (JsValue::Int(x), JsValue::Int(y)) => Ok(JsValue::Int(x.wrapping_add(y))),
            _ => Err(String::from("expected Ints")),
        }
    }
    c.add_callback("add", Func2::new(add as fn(JsValue, JsValue) -> Result<JsValue, String>))
        .unwrap();
    let global = c.global().unwrap();
    let f = global.property(&mut c, "add").unwrap();

    let one = c.serialize_value(&JsValue::Int(1)).unwrap();
    let err = c.call_function(&f, &vec![one]).unwrap_err();
    assert_eq!(
        err,
        ExecutionError::Exception(JsValue::String(String::from(
            "Invalid argument count: Expected 2, got 1"
        )))
    );

    let a = c.serialize_value(&JsValue::Int(1)).unwrap();
    let b = c.serialize_value(&JsValue::Int(2)).unwrap();
    let d = c.serialize_value(&JsValue::Int(3)).unwrap();
    let err = c.call_function(&f, &vec![a, b, d]).unwrap_err();
    assert_eq!(
        err,
        ExecutionError::Exception(JsValue::String(String::from(
            "Invalid argument count: Expected 2, got 3"
        )))
    );
}

#[test]
fn calling_a_non_function_throws() {
    let mut c = ctx();
    let h = c.serialize_value(&JsValue::Int(3)).unwrap();
    let err = c.call_function(&h, &vec![]).unwrap_err();
    assert_eq!(
        err,
        ExecutionError::Exception(JsValue::String(String::from("not a function")))
    );
}

#[test]
fn object_view_rejects_non_objects_without_leaking() {
    let mut c = ctx();
    let h = c.serialize_value(&JsValue::String(String::from("s"))).unwrap();
    let live_before = c.engine.rc.iter().filter(|&&n| n > 0).count();
    let (err, mut handed_back) = OwnedObjectRef::new(h).unwrap_err();
    assert_eq!(err, ValueError::Internal(String::from("Expected an object")));
    c.free_value(&mut handed_back);
    let live_after = c.engine.rc.iter().filter(|&&n| n > 0).count();
    assert_eq!(live_after, live_before - 1);
}

#[test]
fn global_views_share_the_global_object() {
    let mut c = ctx();
    let mut g1 = c.global().unwrap();
    g1.set_property(&mut c, "k", JsValue::Int(3)).unwrap();
    let g2 = c.global().unwrap();
    let v = g2.property(&mut c, "k").unwrap();
    assert_eq!(v.to_value().unwrap(), JsValue::Int(3));
    let v1 = g1.property(&mut c, "k").unwrap();
    assert_eq!(v1.to_value().unwrap(), JsValue::Int(3));
}

#[test]
fn undefined_property_reads_as_not_found() {
    let mut c = ctx();
    let raw = quick_js::raw::RawValue::Obj(
        0,
        vec![(String::from("u"), quick_js::raw::RawValue::Undefined)],
    );
    let obj = OwnedObjectRef::new(OwnedValueRef::new(raw)).unwrap();
    let err = obj.property(&mut c, "u").unwrap_err();
    assert_eq!(
        err,
        ExecutionError::Internal(String::from("Property 'u' not found"))
    );
}

#[test]
fn missing_property_is_named() {
    let mut c = ctx();
    let h = c.serialize_value(&JsValue::Object(vec![])).unwrap();
    let obj = OwnedObjectRef::new(h).unwrap();
    let err = obj.property(&mut c, "nope").unwrap_err();
    assert_eq!(
        err,
        ExecutionError::Internal(String::from("Property 'nope' not found"))
    );
}

#[test]
fn set_property_stores_and_overwrites() {
    let mut c = ctx();
    let h = c.serialize_value(&JsValue::Object(vec![])).unwrap();
    let mut obj = OwnedObjectRef::new(h).unwrap();
    obj.set_property(&mut c, "k", JsValue::Int(5)).unwrap();
    let v = obj.property(&mut c, "k").unwrap();
    assert_eq!(v.to_value().unwrap(), JsValue::Int(5));
    obj.set_property(&mut c, "k", JsValue::Int(6)).unwrap();
    let v = obj.property(&mut c, "k").unwrap();
    assert_eq!(v.to_value().unwrap(), JsValue::Int(6));
}

#[test]
fn set_property_rejects_bad_inputs() {
    let mut c = ctx();
    let h = c.serialize_value(&JsValue::Object(vec![])).unwrap();
    let mut obj = OwnedObjectRef::new(h).unwrap();
    let err = obj
        .set_property(&mut c, "k", JsValue::String(String::from("a\0b")))
        .unwrap_err();
    assert_eq!(err, ExecutionError::Conversion(ValueError::StringWithZeroBytes));
    let err = obj.set_property(&mut c, "k\0", JsValue::Int(1)).unwrap_err();
    assert_eq!(err, ExecutionError::Conversion(ValueError::StringWithZeroBytes));

    let ah = c.serialize_value(&JsValue::Array(vec![])).unwrap();
    let mut arr = OwnedObjectRef::new(ah).unwrap();
    let err = arr.set_property(&mut c, "k", JsValue::Int(1)).unwrap_err();
    assert_eq!(
        err,
        ExecutionError::Exception(JsValue::String(String::from("Could not set property")))
    );
}

#[test]
fn add_callback_rejects_nul_names() {
    let mut c: ContextWrapper<NoCallbacks> = ContextWrapper::new().unwrap();
    let err = c.add_callback("bad\0name", NoCallbacks).unwrap_err();
    assert_eq!(err, ExecutionError::Conversion(ValueError::StringWithZeroBytes));
}

#[test]
fn error_messages() {
    assert_eq!(
        ValueError::StringWithZeroBytes.message(),
        String::from("string contains embedded NUL")
    );
    assert_eq!(
        ValueError::InvalidString.message(),
        String::from("invalid string encoding")
    );
    assert_eq!(
        ExecutionError::Internal(String::from("oops")).message(),
        String::from("oops")
    );
    assert_eq!(
        ExecutionError::Conversion(ValueError::Internal(String::from("deep"))).message(),
        String::from("deep")
    );
}

#[test]
fn handle_new_and_into_inner_round_trip() {
    let mut c = ctx();
    let h = c.serialize_value(&JsValue::Int(9)).unwrap();
    let mut h2 = OwnedValueRef::new(h.raw);
    let raw = h2.into_inner();
    let h3 = OwnedValueRef::new(raw);
    assert_eq!(h3.to_value().unwrap(), JsValue::Int(9));
}
