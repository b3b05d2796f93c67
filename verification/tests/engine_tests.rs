use resp_kv::resp::command::Command;
use resp_kv::resp::errors::Error;
use resp_kv::resp::types::RespType;
use resp_kv::utils::store::Table;

fn request(parts: &[&str]) -> RespType {
    let values: Vec<RespType> = parts
        .iter()
        .map(|p| RespType::BulkString { len: p.len(), value: p.to_string() })
        .collect();
    RespType::Array { len: values.len(), values }
}

#[test]
fn engine_ping_without_argument() {
    let command = Command::from_resp(request(&["PING"])).unwrap();
    let mut store: Table<String> = Table::new();
    assert_eq!(command.execute(&mut store), "+PONG\r\n");
}

#[test]
fn engine_ping_with_argument() {
    let command = Command::from_resp(request(&["PING", "hey"])).unwrap();
    let mut store: Table<String> = Table::new();
    assert_eq!(command.execute(&mut store), "$3\r\nhey\r\n");
}

#[test]
fn engine_echo() {
    let command = Command::from_resp(request(&["echo", "hello"])).unwrap();
    let mut store: Table<String> = Table::new();
    assert_eq!(command.execute(&mut store), "$5\r\nhello\r\n");
}

#[test]
fn engine_set_then_get() {
    let mut store: Table<String> = Table::new();
    let set = Command::from_resp(request(&["SET", "foo", "bar"])).unwrap();
    assert_eq!(set.execute(&mut store), "+OK\r\n");
    let get = Command::from_resp(request(&["GET", "foo"])).unwrap();
    assert_eq!(get.execute(&mut store), "$3\r\nbar\r\n");
}

#[test]
fn engine_get_missing_is_null() {
    let mut store: Table<String> = Table::new();
    let get = Command::from_resp(request(&["GET", "nothing"])).unwrap();
    assert_eq!(get.execute(&mut store), "$-1\r\n");
}

#[test]
fn engine_rejects_unknown_name() {
    let r = Command::from_resp(request(&["NOPE"]));
    assert_eq!(
        match r {
            Err(Error::UnknownCommand { command }) => command,
            _ => panic!("Expected UnknownCommand"),
        },
        "NOPE"
    );
}

#[test]
fn engine_judges_arity_by_element_count() {
    // the declared length field does not decide arity; the elements do
    let lying = RespType::Array {
        len: 5,
        values: vec![
            RespType::BulkString { len: 4, value: "ECHO".to_string() },
            RespType::BulkString { len: 2, value: "hi".to_string() },
        ],
    };
    let command = Command::from_resp(lying).unwrap();
    let mut store: Table<String> = Table::new();
    assert_eq!(command.execute(&mut store), "$2\r\nhi\r\n");
}

#[test]
fn engine_checks_arity() {
    assert!(matches!(
        Command::from_resp(request(&["ECHO"])),
        Err(Error::WrongNumberOfArguments { .. })
    ));
    assert!(matches!(
        Command::from_resp(request(&["SET", "a"])),
        Err(Error::WrongNumberOfArguments { .. })
    ));
    assert!(matches!(
        Command::from_resp(request(&["GET", "a", "b"])),
        Err(Error::WrongNumberOfArguments { .. })
    ));
    assert!(matches!(
        Command::from_resp(request(&["PING", "a", "b"])),
        Err(Error::WrongNumberOfArguments { .. })
    ));
}

#[test]
fn engine_rejects_non_array() {
    let r = Command::from_resp(RespType::SimpleString { value: "PING".to_string() });
    assert!(matches!(r, Err(Error::WrongType)));
    let r = Command::from_resp(RespType::Array { len: 0, values: vec![] });
    assert!(matches!(r, Err(Error::WrongType)));
}
