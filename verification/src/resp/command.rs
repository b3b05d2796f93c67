//! A compact command engine: PING, ECHO, SET and GET parsed straight
//! from a protocol value and executed against a plain string table to a
//! ready-to-send reply. It is deliberately narrower than the dispatcher
//! in `commands`: SET takes only its two-argument form, there is no
//! expiry option and no INFO, and the table knows no time-to-live.

use vstd::prelude::*;

use crate::resp::errors::Error;
use crate::resp::errors::ErrorVal;
use crate::resp::types::RespType;
use crate::resp::types::RespVal;
use crate::utils::store::Table;
use crate::utils::text::spec_eq_ignore_ascii_case;
use crate::utils::text::str_eq_ignore_case;

verus! {

/// One parsed command of the compact engine.
#[allow(inconsistent_fields)]
#[derive(Debug)]
pub enum Command {
    Ping { value: Option<String> },
    Echo { value: String },
    SetCmd { key: String, value: String },
    Get { key: String },
}

/// The mathematical abstraction of a parsed command.
#[allow(inconsistent_fields)]
pub enum CmdVal {
    Ping { value: Option<Seq<char>> },
    Echo { value: Seq<char> },
    SetCmd { key: Seq<char>, value: Seq<char> },
    Get { key: Seq<char> },
}

impl DeepView for Command {
    type V = CmdVal;

    open spec fn deep_view(&self) -> CmdVal {
        match self {
            Command::Ping { value } => CmdVal::Ping {
                value: match value {
                    Some(v) => Some(v@),
                    None => None,
                },
            },
            Command::Echo { value } => CmdVal::Echo { value: value@ },
            Command::SetCmd { key, value } => CmdVal::SetCmd { key: key@, value: value@ },
            Command::Get { key } => CmdVal::Get { key: key@ },
        }
    }
}

/// What reading a command out of a request value yields. The command
/// name is matched ignoring case and arity is judged against the
/// argument count; a non-array, an empty array or a non-string element
/// is the type error, an unknown name is reported back as given.
pub open spec fn spec_from_resp(v: RespVal) -> Result<CmdVal, ErrorVal> {
    match v {
        RespVal::Array { len: _, values } => {
            if values.len() == 0 {
                Err(ErrorVal::WrongType)
            } else if !(values[0] is BulkString) {
                Err(ErrorVal::WrongType)
            } else {
                let name = values[0]->BulkString_value;
                if spec_eq_ignore_ascii_case(name, "ping"@) {
                    if values.len() > 2 {
                        Err(ErrorVal::WrongNumberOfArguments { command: "ping"@ })
                    } else {
                        Ok(
                            CmdVal::Ping {
                                value: if values.len() == 2 && values[1] is BulkString {
                                    Some(values[1]->BulkString_value)
                                } else {
                                    None
                                },
                            },
                        )
                    }
                } else if spec_eq_ignore_ascii_case(name, "echo"@) {
                    if values.len() != 2 {
                        Err(ErrorVal::WrongNumberOfArguments { command: "echo"@ })
                    } else if values[1] is BulkString {
                        Ok(CmdVal::Echo { value: values[1]->BulkString_value })
                    } else {
                        Err(ErrorVal::WrongType)
                    }
                } else if spec_eq_ignore_ascii_case(name, "set"@) {
                    if values.len() != 3 {
                        Err(ErrorVal::WrongNumberOfArguments { command: "set"@ })
                    } else if values[1] is BulkString && values[2] is BulkString {
                        Ok(
                            CmdVal::SetCmd {
                                key: values[1]->BulkString_value,
                                value: values[2]->BulkString_value,
                            },
                        )
                    } else {
                        Err(ErrorVal::WrongType)
                    }
                } else if spec_eq_ignore_ascii_case(name, "get"@) {
                    if values.len() != 2 {
                        Err(ErrorVal::WrongNumberOfArguments { command: "get"@ })
                    } else if values[1] is BulkString {
                        Ok(CmdVal::Get { key: values[1]->BulkString_value })
                    } else {
                        Err(ErrorVal::WrongType)
                    }
                } else {
                    Err(ErrorVal::UnknownCommand { command: name })
                }
            }
        },
        _ => Err(ErrorVal::WrongType),
    }
}

/// What executing a command against a string table yields: the
/// serialized reply and the table afterwards. PING without an argument
/// answers the PONG status; PING with an argument and ECHO answer the
/// argument as a bulk string; an absent key reads as the null bulk
/// string.
pub open spec fn spec_execute_cmd(c: CmdVal, store: Map<Seq<char>, Seq<char>>) -> (
    Seq<char>,
    Map<Seq<char>, Seq<char>>,
) {
    match c {
        CmdVal::Ping { value } => (
            match value {
                Some(v) => RespVal::BulkString { len: v.len() as int, value: v }.spec_encode(),
                None => RespVal::SimpleString { value: "PONG"@ }.spec_encode(),
            },
            store,
        ),
        CmdVal::Echo { value } => (
            RespVal::BulkString { len: value.len() as int, value }.spec_encode(),
            store,
        ),
        CmdVal::SetCmd { key, value } => (
            RespVal::SimpleString { value: "OK"@ }.spec_encode(),
            store.insert(key, value),
        ),
        CmdVal::Get { key } => (
            if store.contains_key(key) {
                RespVal::BulkString {
                    len: store[key].len() as int,
                    value: store[key],
                }.spec_encode()
            } else {
                RespVal::BulkString { len: 0, value: Seq::empty() }.spec_encode()
            },
            store,
        ),
    }
}

impl Command {
    /// Reads one command out of a request value, exactly as
    /// `spec_from_resp` states it.
    pub fn from_resp(resp_value: RespType) -> (r: Result<Self, Error>)
        ensures
            match r {
                Ok(c) => spec_from_resp(resp_value.deep_view()) == Ok::<CmdVal, ErrorVal>(
                    c.deep_view(),
                ),
                Err(e) => spec_from_resp(resp_value.deep_view()) == Err::<CmdVal, ErrorVal>(
                    e.deep_view(),
                ),
            },
    {
        let ghost dv = resp_value.deep_view();
        match &resp_value {
            RespType::Array { len: _, values } => {
                let ghost dvals = dv->Array_values;
                proof {
                    assert(dvals.len() == values@.len());
                    assert(forall|k: int|
                        0 <= k < values@.len() ==> dvals[k] == (#[trigger] values@[k]).deep_view());
                }
                if values.len() == 0 {
                    return Err(Error::WrongType);
                }
                let name = match &values[0] {
                    RespType::BulkString { len: _, value } => value,
                    _ => {
                        return Err(Error::WrongType);
                    },
                };
                if str_eq_ignore_case(name.as_str(), "ping") {
                    if values.len() > 2 {
                        return Err(
                            Error::WrongNumberOfArguments { command: String::from_str("ping") },
                        );
                    }
                    let value: Option<String> = if values.len() == 2 {
                        match &values[1] {
                            RespType::BulkString { len: _, value } => Some(value.clone()),
                            _ => None,
                        }
                    } else {
                        None
                    };
                    Ok(Command::Ping { value })
                } else if str_eq_ignore_case(name.as_str(), "echo") {
                    if values.len() != 2 {
                        return Err(
                            Error::WrongNumberOfArguments { command: String::from_str("echo") },
                        );
                    }
                    match &values[1] {
                        RespType::BulkString { len: _, value } => Ok(
                            Command::Echo { value: value.clone() },
                        ),
                        _ => Err(Error::WrongType),
                    }
                } else if str_eq_ignore_case(name.as_str(), "set") {
                    if values.len() != 3 {
                        return Err(
                            Error::WrongNumberOfArguments { command: String::from_str("set") },
                        );
                    }
                    let key = match &values[1] {
                        RespType::BulkString { len: _, value } => value.clone(),
                        _ => {
                            return Err(Error::WrongType);
                        },
                    };
                    match &values[2] {
                        RespType::BulkString { len: _, value } => Ok(
                            Command::SetCmd { key, value: value.clone() },
                        ),
                        _ => Err(Error::WrongType),
                    }
                } else if str_eq_ignore_case(name.as_str(), "get") {
                    if values.len() != 2 {
                        return Err(
                            Error::WrongNumberOfArguments { command: String::from_str("get") },
                        );
                    }
                    match &values[1] {
                        RespType::BulkString { len: _, value } => Ok(
                            Command::Get { key: value.clone() },
                        ),
                        _ => Err(Error::WrongType),
                    }
                } else {
                    Err(Error::UnknownCommand { command: name.clone() })
                }
            },
            _ => Err(Error::WrongType),
        }
    }

    /// Runs the command against a string table and serializes the reply,
    /// exactly as `spec_execute_cmd` states it.
    pub fn execute(&self, store: &mut Table<String>) -> (r: String)
        ensures
            (r@, final(store)@) == spec_execute_cmd(self.deep_view(), old(store)@),
    {
        match self {
            Command::Ping { value } => {
                match value {
                    Some(v) => {
                        let len = v.as_str().unicode_len();
                        RespType::BulkString { len, value: v.clone() }.to_string()
                    },
                    None => RespType::SimpleString {
                        value: String::from_str("PONG"),
                    }.to_string(),
                }
            },
            Command::Echo { value } => {
                let len = value.as_str().unicode_len();
                RespType::BulkString { len, value: value.clone() }.to_string()
            },
            Command::SetCmd { key, value } => {
                store.insert(key.clone(), value.clone());
                RespType::SimpleString { value: String::from_str("OK") }.to_string()
            },
            Command::Get { key } => {
                let looked = store.get(key.as_str());
                match looked {
                    Some(v) => {
                        let len = v.as_str().unicode_len();
                        let value = v.clone();
                        RespType::BulkString { len, value }.to_string()
                    },
                    None => RespType::BulkString { len: 0, value: String::new() }.to_string(),
                }
            },
        }
    }
}

} // verus!
