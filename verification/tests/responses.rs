use hostbridge::errors::BridgeError;
use hostbridge::response::Response;
use hostbridge::value::HostValue;

#[test]
fn empty_response() {
    let r = Response::empty();
    assert_eq!(r.code(), 200);
    assert!(r.is_empty());
    assert!(!r.is_text());
    assert!(!r.is_file());
    assert!(!r.is_teon());
    assert_eq!(r.get_text(), None);
    assert_eq!(r.get_file(), None);
    assert_eq!(r.get_teon(), None);
}

#[test]
fn string_and_html_responses() {
    let r = Response::string("hello".to_owned(), "text/plain".to_owned());
    assert!(r.is_text());
    assert_eq!(r.get_text(), Some("hello".to_owned()));

    let h = Response::html("<p>hi</p>".to_owned());
    assert!(h.is_text());
    assert_eq!(h.get_text(), Some("<p>hi</p>".to_owned()));
}

#[test]
fn teon_response_round_trips_its_value() {
    let value = HostValue::Record(vec![("n".to_owned(), HostValue::Int(3))]);
    let r = Response::teon(value).unwrap();
    assert!(r.is_teon());
    assert_eq!(
        r.get_teon(),
        Some(HostValue::Record(vec![("n".to_owned(), HostValue::Int(3))]))
    );
}

#[test]
fn teon_rejects_unsupported_values() {
    assert_eq!(
        Response::teon(HostValue::Function(1)).err(),
        Some(BridgeError::MarshalUnsupportedKind)
    );
    assert_eq!(
        Response::data(HostValue::Function(1)).err(),
        Some(BridgeError::MarshalUnsupportedKind)
    );
    assert_eq!(
        Response::data_meta(HostValue::Int(1), HostValue::Function(1)).err(),
        Some(BridgeError::MarshalUnsupportedKind)
    );
}

#[test]
fn data_wraps_under_a_data_key() {
    let r = Response::data(HostValue::Int(5)).unwrap();
    assert_eq!(
        r.get_teon(),
        Some(HostValue::Record(vec![("data".to_owned(), HostValue::Int(5))]))
    );
}

#[test]
fn data_meta_wraps_both_values() {
    let r = Response::data_meta(
        HostValue::Int(5),
        HostValue::Record(vec![("count".to_owned(), HostValue::Int(1))]),
    )
    .unwrap();
    assert_eq!(
        r.get_teon(),
        Some(HostValue::Record(vec![
            ("data".to_owned(), HostValue::Int(5)),
            (
                "meta".to_owned(),
                HostValue::Record(vec![("count".to_owned(), HostValue::Int(1))])
            ),
        ]))
    );
}

#[test]
fn file_response() {
    let r = Response::file("/tmp/a.txt".to_owned());
    assert!(r.is_file());
    assert_eq!(r.get_file(), Some("/tmp/a.txt".to_owned()));
}

#[test]
fn redirect_sets_code_and_location_header() {
    let r = Response::redirect("/login".to_owned());
    assert_eq!(r.code(), 301);
    let headers = r.headers();
    assert_eq!(headers.len(), 1);
    assert_eq!(headers[0], ("location".to_owned(), "/login".to_owned()));
    assert!(r.is_empty());
}

#[test]
fn set_code_changes_only_the_code() {
    let mut r = Response::string("x".to_owned(), "text/plain".to_owned());
    r.set_code(404);
    assert_eq!(r.code(), 404);
    assert_eq!(r.get_text(), Some("x".to_owned()));
}
