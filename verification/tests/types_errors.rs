use queryscript::types::error::{ts_fail, ts_unimplemented, TypesystemError};

#[test]
fn every_error_says_what_it_is() {
    let text = || "t".to_string();
    let cases = vec![
        (TypesystemError::StringError { what: text() }, "t"),
        (TypesystemError::Unimplemented { what: text() }, "Unimplemented: t"),
        (TypesystemError::RuntimeError { source: text() }, "RuntimeError: t"),
        (TypesystemError::NumericParseError { val: text() }, "Failed to parse as number: t"),
        (
            TypesystemError::UnsupportedTimestampPrecisionError { val: 18446744073709551615 },
            "Invalid timestamp precision: 18446744073709551615",
        ),
        (TypesystemError::Utf8Error { source: text() }, "Utf8Error: t"),
        (TypesystemError::ArrowError { source: text() }, "ArrowError: t"),
        (TypesystemError::ClickHouseError { source: text() }, "ClickHouseError: t"),
    ];
    for (err, expected) in cases {
        assert_eq!(err.to_string(), expected);
        assert_eq!(err.clone(), err);
    }
}

#[test]
fn failing_gives_the_error() {
    let failed: Result<u8, TypesystemError> = ts_fail("no such column".to_string());
    assert_eq!(failed, Err(TypesystemError::StringError { what: "no such column".to_string() }));
    let failed: Result<u8, TypesystemError> = ts_unimplemented("maps".to_string());
    assert_eq!(failed, Err(TypesystemError::Unimplemented { what: "maps".to_string() }));
}
