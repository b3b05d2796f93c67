use resp_kv::commands::resp_command::RESPCommand;
use resp_kv::commands::Ping;
use resp_kv::resp::errors::Error;
use resp_kv::resp::types::RespType;
use resp_kv::utils::context::Context;

#[test]
fn ping_command() {
    let mut ctx = Context::default();
    let mut ping = Ping(vec![]);
    let response = ping.execute(&mut ctx);

    match response {
        RespType::SimpleString { value } => {
            assert_eq!(value, "PONG");
        }
        _ => panic!("Expected SimpleString"),
    }

    let mut ping = Ping(vec!["hello".to_string()]);

    let response = ping.execute(&mut ctx);

    match response {
        RespType::BulkString { len, value } => {
            assert_eq!(len, 5);
            assert_eq!(value, "hello");
        }
        _ => panic!("Expected BulkString"),
    }
}

#[test]
fn ping_min_args() {
    let mut ctx = Context::default();
    let mut ping = Ping(vec![]);
    let response = ping.execute(&mut ctx);

    match response {
        RespType::SimpleString { value } => {
            assert_eq!(value, "PONG");
        }
        _ => panic!("Expected SimpleString"),
    }
}

#[test]
fn ping_max_args() {
    let mut ctx = Context::default();
    let mut ping = Ping(vec!["hello".to_string()]);

    let response = ping.execute(&mut ctx);

    match response {
        RespType::BulkString { len, value } => {
            assert_eq!(len, 5);
            assert_eq!(value, "hello");
        }
        _ => panic!("Expected BulkString"),
    }
}

#[test]
fn min_args_fail() {
    let mut ctx = Context::default();
    let mut ping = Ping(vec!["hello".to_string(), "world".to_string()]);

    let response = ping.execute(&mut ctx);

    match response {
        RespType::SimpleError(Error::WrongNumberOfArguments { command }) => {
            assert_eq!(command, "ping");
        }
        _ => panic!("Expected WrongNumberOfArguments"),
    }
}

#[test]
fn max_args_fail() {
    let mut ctx = Context::default();
    let mut ping = Ping(vec!["hello".to_string(), "world".to_string()]);

    let response = ping.execute(&mut ctx);

    match response {
        RespType::SimpleError(Error::WrongNumberOfArguments { command }) => {
            assert_eq!(command, "ping");
        }
        _ => panic!("Expected WrongNumberOfArguments"),
    }
}
