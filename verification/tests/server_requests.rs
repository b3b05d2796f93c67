use resp_kv::models::value::StoreValue;
use resp_kv::server::handle_request;
use resp_kv::utils::context::Context;

#[test]
fn ping_request() {
    let mut ctx = Context::default();
    assert_eq!(handle_request("*1\r\n$4\r\nPING\r\n", &mut ctx), "+PONG\r\n");
}

#[test]
fn echo_request() {
    let mut ctx = Context::default();
    assert_eq!(
        handle_request("*2\r\n$4\r\nECHO\r\n$5\r\nhello\r\n", &mut ctx),
        "$5\r\nhello\r\n"
    );
}

#[test]
fn set_then_get_request() {
    let mut ctx = Context::default();
    assert_eq!(
        handle_request("*3\r\n$3\r\nSET\r\n$3\r\nfoo\r\n$3\r\nbar\r\n", &mut ctx),
        "+OK\r\n"
    );
    assert_eq!(handle_request("*2\r\n$3\r\nGET\r\n$3\r\nfoo\r\n", &mut ctx), "$3\r\nbar\r\n");
}

#[test]
fn get_after_expiry_request() {
    let mut ctx = Context::default();
    // an entry whose time-to-live lies well in the past
    let mut stale = StoreValue::new("bar".to_string(), Some(1000));
    stale.created_at = stale.created_at.saturating_sub(10_000);
    ctx.store.insert("foo".to_string(), stale);
    assert_eq!(handle_request("*2\r\n$3\r\nGET\r\n$3\r\nfoo\r\n", &mut ctx), "$-1\r\n");
    // the first read removed the entry; a second read still answers null
    assert_eq!(handle_request("*2\r\n$3\r\nGET\r\n$3\r\nfoo\r\n", &mut ctx), "$-1\r\n");
    assert!(ctx.store.get("foo").is_none());
}

#[test]
fn unknown_command_request() {
    let mut ctx = Context::default();
    assert_eq!(
        handle_request("*1\r\n$4\r\nFOOO\r\n", &mut ctx),
        "-ERR unknown command 'FOOO'\r\n"
    );
}

#[test]
fn wrong_arity_request() {
    let mut ctx = Context::default();
    assert_eq!(
        handle_request("*2\r\n$3\r\nSET\r\n$3\r\nfoo\r\n", &mut ctx),
        "-ERR wrong number of arguments for 'set' command\r\n"
    );
}

#[test]
fn malformed_request_answers_error() {
    let mut ctx = Context::default();
    assert_eq!(handle_request("nonsense\r\n", &mut ctx), "-Unknown error\r\n");
    assert_eq!(handle_request("", &mut ctx), "-Unknown error\r\n");
    // the connection loop can go on: a later request still works
    assert_eq!(handle_request("*1\r\n$4\r\nPING\r\n", &mut ctx), "+PONG\r\n");
}

#[test]
fn non_array_request_is_wrong_type() {
    let mut ctx = Context::default();
    assert_eq!(
        handle_request("$4\r\nPING\r\n", &mut ctx),
        "-WRONGTYPE Operation against a key holding the wrong kind of value\r\n"
    );
}

#[test]
fn set_with_ttl_still_fresh() {
    let mut ctx = Context::default();
    assert_eq!(
        handle_request("*5\r\n$3\r\nSET\r\n$1\r\nk\r\n$1\r\nv\r\n$2\r\nEX\r\n$3\r\n100\r\n", &mut ctx),
        "+OK\r\n"
    );
    assert_eq!(handle_request("*2\r\n$3\r\nGET\r\n$1\r\nk\r\n", &mut ctx), "$1\r\nv\r\n");
}

#[test]
fn malformed_ttl_is_dropped_silently() {
    let mut ctx = Context::default();
    assert_eq!(
        handle_request(
            "*5\r\n$3\r\nSET\r\n$1\r\nk\r\n$1\r\nv\r\n$2\r\nEX\r\n$3\r\nabc\r\n",
            &mut ctx
        ),
        "+OK\r\n"
    );
    let entry = ctx.store.get("k").unwrap();
    assert_eq!(entry.expire_time, None);
}

#[test]
fn distinct_keys_all_observed() {
    let mut ctx = Context::default();
    let keys = ["k0", "k1", "k2", "k3", "k4", "k5", "k6", "k7", "k8", "k9"];
    for (i, key) in keys.iter().enumerate() {
        let request = format!("*3\r\n$3\r\nSET\r\n$2\r\n{}\r\n$2\r\nv{}\r\n", key, i);
        assert_eq!(handle_request(&request, &mut ctx), "+OK\r\n");
    }
    for (i, key) in keys.iter().enumerate() {
        let request = format!("*2\r\n$3\r\nGET\r\n$2\r\n{}\r\n", key);
        let expected = format!("$2\r\nv{}\r\n", i);
        assert_eq!(handle_request(&request, &mut ctx), expected);
    }
}

#[test]
fn info_request_reports_replication_block() {
    let mut ctx = Context::default();
    let expected_body = "#Replication\r\nrole:master\r\nmaster_replid:8371b4fb1155b71f4a04d3e1bc3e18c4a990aeeb\r\nmaster_repl_offset:0\r\n";
    let expected = format!("${}\r\n{}\r\n", expected_body.len(), expected_body);
    assert_eq!(
        handle_request("*2\r\n$4\r\nINFO\r\n$11\r\nreplication\r\n", &mut ctx),
        expected
    );
}
