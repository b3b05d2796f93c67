//! The ECHO command: returns its single argument as a bulk string.

use vstd::prelude::*;

use crate::commands::resp_command::spec_arity_ok;
use crate::commands::resp_command::RESPCommand;
use crate::commands::resp_command::RESPCommandName;
use crate::commands::resp_command::RESPMinMaxArgs;
use crate::resp::errors::Error;
use crate::resp::errors::ErrorVal;
use crate::resp::types::RespType;
use crate::resp::types::RespVal;
use crate::utils::context::Context;
use crate::utils::context::CtxVal;

verus! {

/// ECHO with its raw argument list.
pub struct Echo(pub Vec<String>);

impl RESPCommandName for Echo {
    open spec fn spec_command_name(&self) -> Seq<char> {
        "echo"@
    }

    fn command_name(&self) -> (r: &'static str) {
        "echo"
    }
}

impl RESPMinMaxArgs for Echo {
    open spec fn spec_args(&self) -> Seq<Seq<char>> {
        self.0.deep_view()
    }

    open spec fn spec_min_args(&self) -> int {
        1
    }

    open spec fn spec_max_args(&self) -> int {
        1
    }

    fn args_len(&self) -> (r: usize) {
        self.0.len()
    }

    fn min_args(&self) -> (r: usize) {
        1
    }

    fn max_args(&self) -> (r: usize) {
        1
    }
}

/// What ECHO answers: its single argument as a bulk string, or the arity
/// error; the context is never changed.
pub open spec fn spec_echo_execute(args: Seq<Seq<char>>, ctx: CtxVal, now: u64) -> (
    RespVal,
    CtxVal,
) {
    if !spec_arity_ok(args, 1, 1) {
        (
            RespVal::SimpleError(ErrorVal::WrongNumberOfArguments { command: "echo"@ }),
            ctx,
        )
    } else {
        (RespVal::BulkString { len: args[0].len() as int, value: args[0] }, ctx)
    }
}

impl RESPCommand for Echo {
    open spec fn spec_execute(&self, ctx: CtxVal, now: u64) -> (RespVal, CtxVal) {
        spec_echo_execute(self.0.deep_view(), ctx, now)
    }

    fn execute(&mut self, ctx: &mut Context) -> (r: RespType) {
        if self.is_invalid() {
            let r = RespType::SimpleError(
                Error::WrongNumberOfArguments { command: String::from_str(self.command_name()) },
            );
            proof {
                assert(self.spec_execute(ctx@, 0) == (r.deep_view(), ctx@));
            }
            return r;
        }
        let val = &self.0[0];
        let len = val.as_str().unicode_len();
        let r = RespType::BulkString { len, value: val.clone() };
        proof {
            assert(self.0.deep_view()[0] == self.0@[0]@);
            assert(self.spec_execute(ctx@, 0) == (r.deep_view(), ctx@));
        }
        r
    }
}

} // verus!
