use resp_kv::commands::resp_command::RESPCommand;
use resp_kv::commands::resp_command::RESPCommandName;
use resp_kv::commands::Get;
use resp_kv::models::value::StoreValue;
use resp_kv::resp::errors::Error;
use resp_kv::resp::types::RespType;
use resp_kv::utils::context::Context;

#[test]
fn get_value() {
    let mut ctx = Context::default();
    let store = &mut ctx.store;

    let value = String::from("value");
    let key = "key".to_string();

    store.insert(key.clone(), StoreValue::from(value.clone()));

    let mut get = Get(vec![key.clone()]);

    let result = get.execute(&mut ctx);

    assert_eq!(result, RespType::BulkString { len: 5, value });
}

#[test]
fn validate_min_arguments() {
    let mut ctx = Context::default();
    let args = vec![];
    let mut get = Get(args);

    let wrong_number_of_args_error = Error::WrongNumberOfArguments {
        command: get.command_name().to_string(),
    };

    let result = get.execute(&mut ctx);

    assert_eq!(result, RespType::SimpleError(wrong_number_of_args_error));
}

#[test]
fn validate_max_arguments() {
    let mut ctx = Context::default();
    let args = vec!["arg1".to_string(), "arg2".to_string()];
    let mut get = Get(args);

    let wrong_number_of_args_error = Error::WrongNumberOfArguments {
        command: get.command_name().to_string(),
    };

    let result = get.execute(&mut ctx);

    assert_eq!(result, RespType::SimpleError(wrong_number_of_args_error));
}

#[test]
fn resturns_null_when_key_not_found() {
    let mut ctx = Context::default();
    let mut get = Get(vec!["key".to_string()]);

    let result = get.execute(&mut ctx);

    assert_eq!(result, RespType::Null,);
}

#[test]
fn returns_null_when_key_expired() {
    let mut ctx = Context::default();
    let store = &mut ctx.store;
    let expire_time = Some(100 * 1000);

    let mut store_value = StoreValue::new("value".to_string(), expire_time);
    // stamp the entry as created well past its time-to-live
    store_value.created_at = store_value.created_at.saturating_sub(101 * 1000);

    let key = String::from("key_expired");
    let args = vec![key.clone()];

    store.insert(key, store_value);

    let mut get = Get(args);

    let result = get.execute(&mut ctx);

    assert_eq!(result, RespType::Null);
}
