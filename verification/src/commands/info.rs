//! The INFO command: requires one section argument and reports a fixed
//! replication block; the argument's meaning is otherwise ignored.

use vstd::prelude::*;

use crate::commands::resp_command::spec_arity_ok;
use crate::commands::resp_command::RESPCommand;
use crate::commands::resp_command::RESPCommandName;
use crate::commands::resp_command::RESPMinMaxArgs;
use crate::resp::errors::Error;
use crate::resp::errors::ErrorVal;
use crate::resp::types::spec_dec_digits;
use crate::resp::types::u64_to_string;
use crate::resp::types::RespType;
use crate::resp::types::RespVal;
use crate::utils::config::ConfigVal;
use crate::utils::context::Context;
use crate::utils::context::CtxVal;

verus! {

/// INFO with its raw argument list.
pub struct Info(pub Vec<String>);

/// The replication block that INFO reports for a configuration: the
/// role, the replication id, and the replication offset, one line each.
pub open spec fn spec_info_text(c: ConfigVal) -> Seq<char> {
    "#Replication\r\n"@ + "role:"@ + c.role.spec_name() + "\r\n"@ + "master_replid:"@
        + c.master_replid + "\r\n"@ + "master_repl_offset:"@ + spec_dec_digits(
        c.master_repl_offset as nat,
    ) + "\r\n"@
}

impl RESPCommandName for Info {
    open spec fn spec_command_name(&self) -> Seq<char> {
        "info"@
    }

    fn command_name(&self) -> (r: &'static str) {
        "info"
    }
}

impl RESPMinMaxArgs for Info {
    open spec fn spec_args(&self) -> Seq<Seq<char>> {
        self.0.deep_view()
    }

    open spec fn spec_min_args(&self) -> int {
        1
    }

    open spec fn spec_max_args(&self) -> int {
        1
    }

    fn args_len(&self) -> (r: usize) {
        self.0.len()
    }

    fn min_args(&self) -> (r: usize) {
        1
    }

    fn max_args(&self) -> (r: usize) {
        1
    }
}

/// What INFO answers: the replication block as a bulk string, or the
/// arity error; the context is never changed.
pub open spec fn spec_info_execute(args: Seq<Seq<char>>, ctx: CtxVal, now: u64) -> (
    RespVal,
    CtxVal,
) {
    if !spec_arity_ok(args, 1, 1) {
        (
            RespVal::SimpleError(ErrorVal::WrongNumberOfArguments { command: "info"@ }),
            ctx,
        )
    } else {
        (
            RespVal::BulkString {
                len: spec_info_text(ctx.config).len() as int,
                value: spec_info_text(ctx.config),
            },
            ctx,
        )
    }
}

impl RESPCommand for Info {
    open spec fn spec_execute(&self, ctx: CtxVal, now: u64) -> (RespVal, CtxVal) {
        spec_info_execute(self.0.deep_view(), ctx, now)
    }

    fn execute(&mut self, ctx: &mut Context) -> (r: RespType) {
        if self.is_invalid() {
            let r = RespType::SimpleError(
                Error::WrongNumberOfArguments { command: String::from_str(self.command_name()) },
            );
            proof {
                assert(self.spec_execute(ctx@, 0) == (r.deep_view(), ctx@));
            }
            return r;
        }
        let role = ctx.config.role.to_string();
        let offset = u64_to_string(ctx.config.master_repl_offset);
        let mut info = String::from_str("#Replication\r\n");
        info.append("role:");
        info.append(role.as_str());
        info.append("\r\n");
        info.append("master_replid:");
        info.append(ctx.config.master_replid.as_str());
        info.append("\r\n");
        info.append("master_repl_offset:");
        info.append(offset.as_str());
        info.append("\r\n");
        proof {
            assert(info@ =~= spec_info_text(ctx@.config));
        }
        let len = info.as_str().unicode_len();
        let r = RespType::BulkString { len, value: info };
        proof {
            assert(self.spec_execute(ctx@, 0) == (r.deep_view(), ctx@));
        }
        r
    }
}

} // verus!
