use resp_kv::commands::resp_command::RESPCommand;
use resp_kv::commands::resp_command::RESPMinMaxArgs;
use resp_kv::commands::SetCmd;
use resp_kv::models::value::StoreValue;
use resp_kv::resp::errors::Error;
use resp_kv::resp::types::RespType;
use resp_kv::utils::context::Context;
use resp_kv::utils::shared_context::create_shared_context;

#[test]
fn set_value() {
    let context = create_shared_context(Context::default());
    let mut context = context.lock().unwrap();
    let key = String::from("set_value_key");
    let value = String::from("set_value_value");
    let args = vec![key.clone(), value.clone()];

    let mut set = SetCmd { args };

    let response = set.execute(&mut context);
    let store = &context.store;

    assert_eq!(
        response,
        RespType::SimpleString {
            value: "OK".to_string(),
        }
    );

    let store_value = store.get(key.as_str());

    assert!(store_value.is_some());

    assert_eq!(store_value, Some(&StoreValue::from(value)));
}

#[test]
fn set_value_with_ttl() {
    let context = create_shared_context(Context::default());
    let mut context = context.lock().unwrap();
    let key = String::from("set_value_key");
    let value = String::from("set_value_value");
    let px = String::from("px");
    let ttl = String::from("1000");
    let args = vec![key.clone(), value.clone(), px.clone(), ttl.clone()];
    let mut set = SetCmd { args };

    let response = set.execute(&mut context);
    let store = &context.store;

    assert_eq!(
        response,
        RespType::SimpleString {
            value: "OK".to_string(),
        }
    );

    let store_value = store.get(key.as_str());

    assert!(store_value.is_some());
    let duration = SetCmd::get_duration(px, Some(&ttl));

    assert_eq!(store_value, Some(&StoreValue::new(value, duration)));
}

#[test]
fn validate_min_args() {
    let context = create_shared_context(Context::default());
    let mut context = context.lock().unwrap();

    let mut set = SetCmd {
        args: vec!["key".to_string()],
    };

    let response = set.execute(&mut context);

    assert_eq!(
        response,
        RespType::SimpleError(Error::WrongNumberOfArguments {
            command: "set".to_string(),
        })
    );
}

#[test]
fn validate_max_args() {
    let context = create_shared_context(Context::default());
    let mut context = context.lock().unwrap();

    let mut set = SetCmd {
        args: vec![
            "key".to_string(),
            "value".to_string(),
            "extra".to_string(),
            "extra".to_string(),
            "extra".to_string(),
        ],
    };

    assert!(!set.is_valid());

    let response = set.execute(&mut context);

    assert_eq!(
        response,
        RespType::SimpleError(Error::WrongNumberOfArguments {
            command: "set".to_string(),
        })
    );
}
