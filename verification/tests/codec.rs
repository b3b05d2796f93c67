use resp_kv::resp::errors::Error;
use resp_kv::resp::types::u64_to_string;
use resp_kv::resp::types::usize_to_string;
use resp_kv::resp::types::RespType;

#[test]
fn serialize_bulk_string() {
    let v = RespType::BulkString { len: 5, value: "hello".to_string() };
    assert_eq!(v.to_string(), "$5\r\nhello\r\n");
}

#[test]
fn serialize_empty_bulk_string_as_null() {
    let v = RespType::BulkString { len: 0, value: String::new() };
    assert_eq!(v.to_string(), "$-1\r\n");
}

#[test]
fn serialize_null() {
    assert_eq!(RespType::Null.to_string(), "$-1\r\n");
}

#[test]
fn serialize_simple_string() {
    let v = RespType::SimpleString { value: "PONG".to_string() };
    assert_eq!(v.to_string(), "+PONG\r\n");
}

#[test]
fn serialize_simple_error() {
    let v = RespType::SimpleError(Error::UnknownCommand { command: "FOOO".to_string() });
    assert_eq!(v.to_string(), "-ERR unknown command 'FOOO'\r\n");
}

#[test]
fn serialize_wrong_number_of_arguments() {
    let v = RespType::SimpleError(Error::WrongNumberOfArguments { command: "set".to_string() });
    assert_eq!(v.to_string(), "-ERR wrong number of arguments for 'set' command\r\n");
}

#[test]
fn serialize_custom_and_unknown_errors() {
    let custom = RespType::SimpleError(Error::Custom { message: "boom".to_string() });
    assert_eq!(custom.to_string(), "-boom\r\n");
    let unknown = RespType::SimpleError(Error::Unknown);
    assert_eq!(unknown.to_string(), "-Unknown error\r\n");
    let wrong = RespType::SimpleError(Error::WrongType);
    assert_eq!(
        wrong.to_string(),
        "-WRONGTYPE Operation against a key holding the wrong kind of value\r\n"
    );
}

#[test]
fn serialize_array() {
    let v = RespType::Array {
        len: 2,
        values: vec![
            RespType::BulkString { len: 4, value: "ECHO".to_string() },
            RespType::BulkString { len: 5, value: "hello".to_string() },
        ],
    };
    assert_eq!(v.to_string(), "*2\r\n$4\r\nECHO\r\n$5\r\nhello\r\n");
}

#[test]
fn decimal_rendering() {
    assert_eq!(usize_to_string(0), "0");
    assert_eq!(usize_to_string(7), "7");
    assert_eq!(usize_to_string(12345), "12345");
    assert_eq!(u64_to_string(18446744073709551615), "18446744073709551615");
}

#[test]
fn parse_bulk_string() {
    let parsed = RespType::try_from("$5\r\nhello\r\n").unwrap();
    assert_eq!(parsed, RespType::BulkString { len: 5, value: "hello".to_string() });
}

#[test]
fn parse_array_of_bulk_strings() {
    let parsed = RespType::try_from("*2\r\n$4\r\nECHO\r\n$5\r\nhello\r\n").unwrap();
    assert_eq!(
        parsed,
        RespType::Array {
            len: 2,
            values: vec![
                RespType::BulkString { len: 4, value: "ECHO".to_string() },
                RespType::BulkString { len: 5, value: "hello".to_string() },
            ],
        }
    );
}

#[test]
fn parse_rejects_unknown_leading_byte() {
    assert_eq!(RespType::try_from("hello\r\n"), Err(Error::Unknown));
}

#[test]
fn parse_rejects_malformed_length() {
    assert_eq!(RespType::try_from("$abc\r\nhello\r\n"), Err(Error::Unknown));
    assert_eq!(RespType::try_from("$-1\r\n"), Err(Error::Unknown));
    assert_eq!(RespType::try_from("*\r\n"), Err(Error::Unknown));
    assert_eq!(RespType::try_from("$+\r\nhello\r\n"), Err(Error::Unknown));
    assert_eq!(RespType::try_from("$++5\r\nhello\r\n"), Err(Error::Unknown));
}

#[test]
fn parse_accepts_plus_signed_length() {
    let parsed = RespType::try_from("$+5\r\nhello\r\n").unwrap();
    assert_eq!(parsed, RespType::BulkString { len: 5, value: "hello".to_string() });
    let parsed = RespType::try_from("*+1\r\n$4\r\nPING\r\n").unwrap();
    assert_eq!(
        parsed,
        RespType::Array {
            len: 1,
            values: vec![RespType::BulkString { len: 4, value: "PING".to_string() }],
        }
    );
}

#[test]
fn parse_rejects_premature_end() {
    assert_eq!(RespType::try_from("*2\r\n$3\r\nfoo\r\n"), Err(Error::Unknown));
    assert_eq!(RespType::try_from("$3\r\n"), Err(Error::Unknown));
    assert_eq!(RespType::try_from(""), Err(Error::Unknown));
}

#[test]
fn round_trip_request() {
    let v = RespType::Array {
        len: 3,
        values: vec![
            RespType::BulkString { len: 3, value: "SET".to_string() },
            RespType::BulkString { len: 3, value: "foo".to_string() },
            RespType::BulkString { len: 3, value: "bar".to_string() },
        ],
    };
    let wire = v.to_string();
    let parsed = RespType::try_from(wire.as_str()).unwrap();
    assert_eq!(parsed, v);
}

#[test]
fn round_trip_nested_array() {
    let inner = RespType::Array {
        len: 2,
        values: vec![
            RespType::BulkString { len: 1, value: "a".to_string() },
            RespType::BulkString { len: 2, value: "bc".to_string() },
        ],
    };
    let v = RespType::Array {
        len: 2,
        values: vec![inner, RespType::BulkString { len: 4, value: "tail".to_string() }],
    };
    let wire = v.to_string();
    let parsed = RespType::try_from(wire.as_str()).unwrap();
    assert_eq!(parsed, v);
}

#[test]
fn error_converts_to_simple_error_reply() {
    let reply: RespType = Error::WrongType.into();
    assert_eq!(reply, RespType::SimpleError(Error::WrongType));
}

#[test]
fn parse_lines_directly() {
    let lines = vec!["*1".to_string(), "$4".to_string(), "PING".to_string()];
    let (value, next) = RespType::resp_type_parse(&lines, 0).unwrap();
    assert_eq!(next, 3);
    assert_eq!(
        value,
        RespType::Array {
            len: 1,
            values: vec![RespType::BulkString { len: 4, value: "PING".to_string() }],
        }
    );
}

#[test]
fn parse_takes_length_field_from_header() {
    // the payload line is taken whole; the header's count is kept as given
    let parsed = RespType::try_from("$3\r\nhello\r\n").unwrap();
    assert_eq!(parsed, RespType::BulkString { len: 3, value: "hello".to_string() });
}
