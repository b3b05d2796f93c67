//! One request, one reply: the whole pipeline from raw input text to the
//! serialized response. Every failure along the way becomes a
//! simple-error reply, so a connection loop built on this never aborts
//! on malformed input.

use vstd::prelude::*;

use crate::commands::command::spec_command_from_resp;
use crate::commands::command::spec_create_command;
use crate::commands::command::spec_execute_kind;
use crate::commands::command::lemma_execute_kind;
use crate::commands::command::Command;
use crate::commands::resp_command::RESPCommand;
use crate::resp::types::spec_lines;
use crate::resp::types::spec_parse_at;
use crate::resp::types::RespType;
use crate::resp::types::RespVal;
use crate::utils::context::Context;
use crate::utils::context::CtxVal;

verus! {

/// What one request yields at clock reading `now`: the serialized reply
/// and the context afterwards. Parsing, dispatch, resolution and
/// execution happen in that order; the first failure is answered as a
/// simple error and leaves the context untouched.
pub open spec fn spec_handle_request(input: Seq<char>, ctx: CtxVal, now: u64) -> (
    Seq<char>,
    CtxVal,
) {
    match spec_parse_at(spec_lines(input), 0) {
        Err(e) => (RespVal::SimpleError(e).spec_encode(), ctx),
        Ok(p) => match spec_command_from_resp(p.0) {
            Err(e) => (RespVal::SimpleError(e).spec_encode(), ctx),
            Ok(na) => match spec_create_command(na.0, na.1) {
                Err(e) => (RespVal::SimpleError(e).spec_encode(), ctx),
                Ok(k) => {
                    let (reply, ctx2) = spec_execute_kind(k, ctx, now);
                    (reply.spec_encode(), ctx2)
                },
            },
        },
    }
}

/// Serves one request, exactly as `spec_handle_request` states it for
/// the clock reading the command observed.
pub fn handle_request(input: &str, ctx: &mut Context) -> (r: String)
    ensures
        exists|now: u64|
            #[trigger] spec_handle_request(input@, old(ctx)@, now) == (r@, final(ctx)@),
{
    let parsed = match RespType::try_from(input) {
        Ok(v) => v,
        Err(e) => {
            let r = RespType::SimpleError(e).to_string();
            proof {
                assert(spec_handle_request(input@, ctx@, 0) == (r@, ctx@));
            }
            return r;
        },
    };
    let ghost parsed_dv = parsed.deep_view();
    let command = match Command::try_from(parsed) {
        Ok(c) => c,
        Err(e) => {
            let r = RespType::SimpleError(e).to_string();
            proof {
                assert(spec_handle_request(input@, ctx@, 0) == (r@, ctx@));
            }
            return r;
        },
    };
    let mut kind = match command.create_command() {
        Ok(k) => k,
        Err(e) => {
            let r = RespType::SimpleError(e).to_string();
            proof {
                assert(spec_handle_request(input@, ctx@, 0) == (r@, ctx@));
            }
            return r;
        },
    };
    let reply = kind.execute(ctx);
    let r = reply.to_string();
    proof {
        let now = choose|n: u64|
            #[trigger] kind.spec_execute(old(ctx)@, n) == (reply.deep_view(), ctx@);
        lemma_execute_kind(&kind, old(ctx)@, now);
        assert(spec_handle_request(input@, old(ctx)@, now) == (r@, ctx@));
    }
    r
}

} // verus!
