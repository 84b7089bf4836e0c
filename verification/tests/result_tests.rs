use moly::result::{ClientError, ClientErrorKind, ClientResult};

#[test]
fn test_error_kind_labels() {
    assert_eq!(ClientErrorKind::Network.to_human_readable(), "Network error");
    assert_eq!(ClientErrorKind::Response.to_human_readable(), "Remote error");
    assert_eq!(ClientErrorKind::Format.to_human_readable(), "Format error");
    assert_eq!(ClientErrorKind::Unknown.to_human_readable(), "Unknown error");
}

#[test]
fn test_error_accessors() {
    let e = ClientError::new(ClientErrorKind::Network, "down".to_string());
    assert_eq!(e.kind(), ClientErrorKind::Network);
    assert_eq!(e.message(), "down");

    let cause = std::sync::Arc::new("io failure".to_string());
    let e = ClientError::new_with_source(ClientErrorKind::Format, "bad json".to_string(), Some(cause));
    assert_eq!(e.kind(), ClientErrorKind::Format);
    assert_eq!(e.message(), "bad json");
    let copy = e.clone();
    assert_eq!(copy.kind(), ClientErrorKind::Format);
    assert_eq!(copy.message(), "bad json");
}

#[test]
fn test_new_err_empty_substitutes_one_unknown_error() {
    let r: ClientResult<u32> = ClientResult::new_err(Vec::new());
    assert!(!r.has_value());
    assert!(r.has_errors());
    assert_eq!(r.errors().len(), 1);
    assert_eq!(r.errors()[0].kind(), ClientErrorKind::Unknown);
    assert_eq!(
        r.errors()[0].message(),
        "An error ocurred, but no details were provided."
    );

    let r: ClientResult<u32> = ClientResult::new_ok_and_err(7, Vec::new());
    assert!(r.has_value());
    assert!(r.has_errors());
    assert_eq!(r.errors().len(), 1);
    assert_eq!(r.errors()[0].kind(), ClientErrorKind::Unknown);
}

#[test]
fn test_constructed_results_never_empty() {
    let ok: ClientResult<u32> = ClientResult::new_ok(1);
    assert!(ok.has_value() || ok.has_errors());

    let err: ClientResult<u32> =
        ClientResult::new_err(vec![ClientError::new(ClientErrorKind::Network, "x".to_string())]);
    assert!(err.has_value() || err.has_errors());

    let both: ClientResult<u32> = ClientResult::new_ok_and_err(
        2,
        vec![ClientError::new(ClientErrorKind::Response, "y".to_string())],
    );
    assert!(both.has_value() || both.has_errors());
}

#[test]
fn test_result_accessors_and_into_result() {
    let ok: ClientResult<u32> = ClientResult::new_ok(5);
    assert_eq!(ok.value(), Some(&5));
    assert_eq!(ok.errors().len(), 0);
    let (v, e) = ok.value_and_errors();
    assert_eq!(v, Some(&5));
    assert!(e.is_empty());
    assert_eq!(ok.into_result().unwrap(), 5);

    let err: ClientResult<u32> =
        ClientResult::new_err(vec![ClientError::new(ClientErrorKind::Network, "x".to_string())]);
    assert!(err.value().is_none());
    let errors = err.into_result().unwrap_err();
    assert_eq!(errors.len(), 1);
    assert_eq!(errors[0].kind(), ClientErrorKind::Network);

    let both: ClientResult<u32> = ClientResult::new_ok_and_err(
        2,
        vec![ClientError::new(ClientErrorKind::Response, "y".to_string())],
    );
    let (v, e) = both.into_value_and_errors();
    assert_eq!(v, Some(2));
    assert_eq!(e.len(), 1);
}

#[test]
fn test_map_value_keeps_errors() {
    let both: ClientResult<u32> = ClientResult::new_ok_and_err(
        21,
        vec![ClientError::new(ClientErrorKind::Response, "partial".to_string())],
    );
    let mapped = both.map_value(|v| v * 2);
    assert_eq!(mapped.value(), Some(&42));
    assert_eq!(mapped.errors().len(), 1);
    assert_eq!(mapped.errors()[0].message(), "partial");

    let err: ClientResult<u32> =
        ClientResult::new_err(vec![ClientError::new(ClientErrorKind::Network, "x".to_string())]);
    let mapped = err.map_value(|v| v + 1);
    assert!(mapped.value().is_none());
    assert_eq!(mapped.errors().len(), 1);
}

#[test]
fn test_new_unchecked_passes_through() {
    let r: ClientResult<u32> = ClientResult::new_unchecked(Some(3), Vec::new());
    assert!(r.has_value());
    assert!(!r.has_errors());
    assert_eq!(r.into_value(), Some(3));
}
