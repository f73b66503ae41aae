use hostbridge::errors::BridgeError;
use hostbridge::value::{Handle, HostValue, Value};

fn sample_host_record() -> HostValue {
    HostValue::Record(vec![
        ("name".to_owned(), HostValue::Text("Ada".to_owned())),
        ("age".to_owned(), HostValue::Int(36)),
        ("absent".to_owned(), HostValue::Undefined),
        (
            "tags".to_owned(),
            HostValue::List(vec![
                HostValue::Bool(true),
                HostValue::Int(-7),
                HostValue::Text("x".to_owned()),
            ]),
        ),
    ])
}

#[test]
fn round_trip_from_host() {
    let h = sample_host_record();
    let native = sample_host_record().to_native().expect("plain value must marshal");
    assert_eq!(native.to_host(), h);
}

#[test]
fn round_trip_nested_lists() {
    let h = HostValue::List(vec![
        HostValue::List(vec![HostValue::Int(1), HostValue::Int(2)]),
        HostValue::Record(vec![("k".to_owned(), HostValue::List(vec![]))]),
    ]);
    let again = HostValue::List(vec![
        HostValue::List(vec![HostValue::Int(1), HostValue::Int(2)]),
        HostValue::Record(vec![("k".to_owned(), HostValue::List(vec![]))]),
    ]);
    let native = h.to_native().expect("plain value must marshal");
    assert_eq!(native.to_host(), again);
}

#[test]
fn round_trip_from_native() {
    let v = Value::Record(vec![
        ("n".to_owned(), Value::Null),
        ("xs".to_owned(), Value::List(vec![Value::Int(5), Value::Text("hi".to_owned())])),
    ]);
    let host = v.to_host();
    let back = host.to_native().expect("marshaled native value must marshal back");
    let expected = Value::Record(vec![
        ("n".to_owned(), Value::Null),
        ("xs".to_owned(), Value::List(vec![Value::Int(5), Value::Text("hi".to_owned())])),
    ]);
    assert_eq!(back, expected);
}

#[test]
fn wrapper_keeps_the_same_entity_handle() {
    let h = Handle { index: 3, generation: 7 };
    let native = HostValue::Wrapper(h).to_native().expect("wrappers marshal");
    assert_eq!(native, Value::Ref(Handle { index: 3, generation: 7 }));
    assert_eq!(native.to_host(), HostValue::Wrapper(Handle { index: 3, generation: 7 }));
}

#[test]
fn undefined_crosses_as_null_and_back() {
    let native = HostValue::Undefined.to_native().unwrap();
    assert_eq!(native, Value::Null);
    assert_eq!(native.to_host(), HostValue::Undefined);
}

#[test]
fn host_function_is_rejected() {
    let r = HostValue::Function(9).to_native();
    assert_eq!(r, Err(BridgeError::MarshalUnsupportedKind));
}

#[test]
fn nested_host_function_is_rejected_not_dropped() {
    let h = HostValue::Record(vec![
        ("ok".to_owned(), HostValue::Int(1)),
        ("cb".to_owned(), HostValue::List(vec![HostValue::Function(2)])),
    ]);
    assert_eq!(h.to_native(), Err(BridgeError::MarshalUnsupportedKind));
}
