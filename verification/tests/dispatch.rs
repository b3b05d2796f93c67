use resp_kv::commands::resp_command::RESPCommandName;
use resp_kv::commands::Command;
use resp_kv::resp::types::RespType;

#[test]
fn command() {
    let bulk_string = RespType::BulkString { len: 4, value: "ping".to_string() };

    let resp_array = RespType::Array { len: 1, values: vec![bulk_string] };

    let command = Command::try_from(resp_array);

    assert!(command.is_ok());
    let command = command.unwrap();

    assert_eq!(command.0, "ping".to_string());
}

#[test]
fn command_with_args() {
    let bulk_string = RespType::BulkString { len: 4, value: "echo".to_string() };

    let bulk_string_args = RespType::BulkString { len: 4, value: "Hello".to_string() };

    let resp_array = RespType::Array { len: 2, values: vec![bulk_string, bulk_string_args] };

    let command = Command::try_from(resp_array);

    assert!(command.is_ok());
    let command = command.unwrap();

    assert_eq!(command.0, "echo".to_string());
    assert_eq!(command.1, vec!["Hello".to_string()]);
}

#[test]
fn empty_resp_arr() {
    let resp_array = RespType::Array { len: 0, values: vec![] };

    let command = Command::try_from(resp_array);

    assert!(command.is_err());
}

#[test]
fn wrong_resp_type() {
    let bulk_string = RespType::BulkString { len: 4, value: "ping".to_string() };

    let command = Command::try_from(bulk_string);

    assert!(command.is_err())
}

#[test]
fn get_ping_command() {
    let bulk_string = RespType::BulkString { len: 4, value: "ping".to_string() };

    let resp_array = RespType::Array { len: 1, values: vec![bulk_string] };

    let command = Command::try_from(resp_array).unwrap();
    let command = command.create_command();

    assert!(command.is_ok());

    let command = command.unwrap();

    assert_eq!(command.command_name(), "ping");
}
