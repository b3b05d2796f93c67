use resp_kv::commands::resp_command::RESPCommand;
use resp_kv::commands::Echo;
use resp_kv::resp::errors::Error;
use resp_kv::resp::types::RespType;
use resp_kv::utils::context::Context;

#[test]
fn echo_min_args() {
    let args = vec![];
    let mut echo_command = Echo(args);
    let mut ctx = Context::default();

    let wrong_number_of_args_err = echo_command.execute(&mut ctx);

    assert_eq!(
        wrong_number_of_args_err,
        RespType::SimpleError(Error::WrongNumberOfArguments {
            command: "echo".to_string(),
        })
    );
}

#[test]
fn echo_max_args() {
    let args = vec![String::from("value"), String::from("value2")];
    let mut echo_command = Echo(args);
    let mut ctx = Context::default();

    let wrong_number_of_args_err = echo_command.execute(&mut ctx);

    assert_eq!(
        wrong_number_of_args_err,
        RespType::SimpleError(Error::WrongNumberOfArguments {
            command: "echo".to_string(),
        })
    );
}

#[test]
fn return_bulk_string() {
    let args = vec![String::from("value")];
    let mut echo_command = Echo(args);
    let mut ctx = Context::default();

    let resp = echo_command.execute(&mut ctx);

    assert_eq!(
        resp,
        RespType::BulkString {
            len: 5,
            value: "value".to_string(),
        }
    );
}
