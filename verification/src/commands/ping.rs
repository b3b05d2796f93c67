//! The PING command: answers PONG, or echoes its optional argument.

use vstd::prelude::*;

use crate::commands::resp_command::spec_arity_ok;
use crate::commands::resp_command::RESPCommand;
use crate::commands::resp_command::RESPCommandName;
use crate::commands::resp_command::RESPMinMaxArgs;
use crate::resp::errors::Error;
use crate::resp::errors::ErrorVal;
use crate::resp::types::RespType;
use crate::resp::types::RespVal;
use crate::utils::context::Context;
use crate::utils::context::CtxVal;

verus! {

/// PING with its raw argument list.
pub struct Ping(pub Vec<String>);

impl RESPCommandName for Ping {
    open spec fn spec_command_name(&self) -> Seq<char> {
        "ping"@
    }

    fn command_name(&self) -> (r: &'static str) {
        "ping"
    }
}

impl RESPMinMaxArgs for Ping {
    open spec fn spec_args(&self) -> Seq<Seq<char>> {
        self.0.deep_view()
    }

    open spec fn spec_min_args(&self) -> int {
        0
    }

    open spec fn spec_max_args(&self) -> int {
        1
    }

    fn args_len(&self) -> (r: usize) {
        self.0.len()
    }

    fn min_args(&self) -> (r: usize) {
        0
    }

    fn max_args(&self) -> (r: usize) {
        1
    }
}

/// What PING answers: PONG with no argument, its argument echoed as a
/// bulk string with one, or the arity error; the context is never
/// changed.
pub open spec fn spec_ping_execute(args: Seq<Seq<char>>, ctx: CtxVal, now: u64) -> (
    RespVal,
    CtxVal,
) {
    if !spec_arity_ok(args, 0, 1) {
        (
            RespVal::SimpleError(ErrorVal::WrongNumberOfArguments { command: "ping"@ }),
            ctx,
        )
    } else if args.len() == 1 {
        (RespVal::BulkString { len: args[0].len() as int, value: args[0] }, ctx)
    } else {
        (RespVal::SimpleString { value: "PONG"@ }, ctx)
    }
}

impl RESPCommand for Ping {
    open spec fn spec_execute(&self, ctx: CtxVal, now: u64) -> (RespVal, CtxVal) {
        spec_ping_execute(self.0.deep_view(), ctx, now)
    }

    fn execute(&mut self, ctx: &mut Context) -> (r: RespType) {
        if self.is_invalid() {
            let r = RespType::SimpleError(
                Error::WrongNumberOfArguments { command: String::from_str(self.command_name()) },
            );
            proof {
                assert(self.spec_execute(ctx@, 0) == (r.deep_view(), ctx@));
            }
            return r;
        }
        if self.0.len() == 1 {
            let val = &self.0[0];
            let len = val.as_str().unicode_len();
            let r = RespType::BulkString { len, value: val.clone() };
            proof {
                assert(self.0.deep_view()[0] == self.0@[0]@);
                assert(self.spec_execute(ctx@, 0) == (r.deep_view(), ctx@));
            }
            r
        } else {
            let r = RespType::SimpleString { value: String::from_str("PONG") };
            proof {
                assert(self.spec_execute(ctx@, 0) == (r.deep_view(), ctx@));
            }
            r
        }
    }
}

} // verus!
