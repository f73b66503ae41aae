use hostbridge::errors::BridgeError;
use hostbridge::property::Property;
use hostbridge::value::HostValue;

#[test]
fn set_then_read_back() {
    let mut p = Property::new();
    p.set_data(
        "label".to_owned(),
        HostValue::Text("primary".to_owned()),
    )
    .unwrap();
    assert_eq!(
        p.data(&"label".to_owned()),
        Some(HostValue::Text("primary".to_owned()))
    );
}

#[test]
fn absent_key_reads_as_nothing() {
    let p = Property::new();
    assert_eq!(p.data(&"missing".to_owned()), None);
}

#[test]
fn overwriting_a_key_keeps_other_keys() {
    let mut p = Property::new();
    p.set_data("a".to_owned(), HostValue::Int(1)).unwrap();
    p.set_data("b".to_owned(), HostValue::Int(2)).unwrap();
    p.set_data("a".to_owned(), HostValue::Int(3)).unwrap();
    assert_eq!(p.data(&"a".to_owned()), Some(HostValue::Int(3)));
    assert_eq!(p.data(&"b".to_owned()), Some(HostValue::Int(2)));
}

#[test]
fn unsupported_value_is_rejected_and_nothing_changes() {
    let mut p = Property::new();
    p.set_data("a".to_owned(), HostValue::Int(1)).unwrap();
    let r = p.set_data("a".to_owned(), HostValue::Function(7));
    assert_eq!(r, Err(BridgeError::MarshalUnsupportedKind));
    assert_eq!(p.data(&"a".to_owned()), Some(HostValue::Int(1)));
}
