//! The GET command: looks a key up, lazily removing it if it has
//! expired. This lazy eviction on read is the only eviction path.

use vstd::prelude::*;

use crate::commands::resp_command::spec_arity_ok;
use crate::commands::resp_command::RESPCommand;
use crate::commands::resp_command::RESPCommandName;
use crate::commands::resp_command::RESPMinMaxArgs;
use crate::resp::errors::Error;
use crate::resp::errors::ErrorVal;
use crate::resp::types::RespType;
use crate::resp::types::RespVal;
use crate::utils::context::Context;
use crate::utils::context::CtxVal;

verus! {

/// GET with its raw argument list.
pub struct Get(pub Vec<String>);

impl RESPCommandName for Get {
    open spec fn spec_command_name(&self) -> Seq<char> {
        "get"@
    }

    fn command_name(&self) -> (r: &'static str) {
        "get"
    }
}

impl RESPMinMaxArgs for Get {
    open spec fn spec_args(&self) -> Seq<Seq<char>> {
        self.0.deep_view()
    }

    open spec fn spec_min_args(&self) -> int {
        1
    }

    open spec fn spec_max_args(&self) -> int {
        1
    }

    fn args_len(&self) -> (r: usize) {
        self.0.len()
    }

    fn min_args(&self) -> (r: usize) {
        1
    }

    fn max_args(&self) -> (r: usize) {
        1
    }
}

/// What GET answers at clock reading `now`: the stored string, or null
/// for an absent key, or null with the entry removed for an expired one,
/// or the arity error.
pub open spec fn spec_get_execute(args: Seq<Seq<char>>, ctx: CtxVal, now: u64) -> (
    RespVal,
    CtxVal,
) {
    if !spec_arity_ok(args, 1, 1) {
            (
                RespVal::SimpleError(ErrorVal::WrongNumberOfArguments { command: "get"@ }),
                ctx,
            )
        } else {
            let key = args[0];
            if !ctx.store.contains_key(key) {
                (RespVal::Null, ctx)
            } else if ctx.store[key].spec_expired_at(now) {
                (RespVal::Null, CtxVal { store: ctx.store.remove(key), config: ctx.config })
            } else {
                (
                    RespVal::BulkString {
                        len: ctx.store[key].data.len() as int,
                        value: ctx.store[key].data,
                    },
                    ctx,
                )
            }
        }
}

impl RESPCommand for Get {
    open spec fn spec_execute(&self, ctx: CtxVal, now: u64) -> (RespVal, CtxVal) {
        spec_get_execute(self.0.deep_view(), ctx, now)
    }

    fn execute(&mut self, ctx: &mut Context) -> (r: RespType) {
        if self.is_invalid() {
            let r = RespType::SimpleError(
                Error::WrongNumberOfArguments { command: String::from_str(self.command_name()) },
            );
            proof {
                assert(self.spec_execute(ctx@, 0) == (r.deep_view(), ctx@));
            }
            return r;
        }
        let key = &self.0[0];
        proof {
            assert(self.0.deep_view()[0] == self.0@[0]@);
        }
        let looked = ctx.store.get(key.as_str());
        match looked {
            None => {
                proof {
                    assert(self.spec_execute(ctx@, 0) == (RespVal::Null, ctx@));
                }
                RespType::Null
            },
            Some(v) => {
                let data = v.data.clone();
                let data_len = v.data.as_str().unicode_len();
                let expired = v.is_expired();
                let ghost entry = v.deep_view();
                let ghost now = choose|n: u64| expired == entry.spec_expired_at(n);
                if expired {
                    ctx.store.remove(key.as_str());
                    proof {
                        assert(self.spec_execute(old(ctx)@, now) == (RespVal::Null, ctx@));
                    }
                    RespType::Null
                } else {
                    let r = RespType::BulkString { len: data_len, value: data };
                    proof {
                        assert(self.spec_execute(ctx@, now) == (r.deep_view(), ctx@));
                    }
                    r
                }
            },
        }
    }
}

} // verus!
