//! The SET command: binds a key, optionally with a time-to-live. A
//! malformed or unrecognized expiry option is dropped silently; SET
//! never fails on it.

use vstd::prelude::*;

use crate::commands::resp_command::spec_arity_ok;
use crate::commands::resp_command::RESPCommand;
use crate::commands::resp_command::RESPCommandName;
use crate::commands::resp_command::RESPMinMaxArgs;
use crate::models::value::EntryVal;
use crate::models::value::StoreValue;
use crate::resp::errors::Error;
use crate::resp::errors::ErrorVal;
use crate::resp::types::spec_all_digits;
use crate::resp::types::spec_digits_val;
use crate::resp::types::spec_numeral_digits;
use crate::resp::types::RespType;
use crate::resp::types::RespVal;
use crate::utils::context::Context;
use crate::utils::context::CtxVal;
use crate::utils::text::spec_eq_ignore_ascii_case;
use crate::utils::text::str_eq_ignore_case;

verus! {

/// SET with its raw argument list.
pub struct SetCmd {
    pub args: Vec<String>,
}

/// What reading a time-to-live count yields: the value of a numeral made
/// of an optional leading plus sign and at least one digit, if it fits
/// in `u64`, and nothing otherwise.
pub open spec fn spec_parse_u64(s: Seq<char>) -> Option<u64> {
    let d = spec_numeral_digits(s);
    if d.len() > 0 && spec_all_digits(d) && spec_digits_val(d) <= u64::MAX as int {
        Some(spec_digits_val(d) as u64)
    } else {
        None
    }
}

/// The time-to-live in milliseconds that one option pair selects: the
/// count read as milliseconds under `px`, as seconds under `ex`
/// (saturating at the largest representable time), and nothing under an
/// unreadable count or an unrecognized option.
pub open spec fn spec_get_duration(kind: Seq<char>, value: Option<Seq<char>>) -> Option<u64> {
    match value {
        None => None,
        Some(v) => match spec_parse_u64(v) {
            None => None,
            Some(x) => if spec_eq_ignore_ascii_case(kind, "px"@) {
                Some(x)
            } else if spec_eq_ignore_ascii_case(kind, "ex"@) {
                if x * 1000 <= u64::MAX as int {
                    Some((x * 1000) as u64)
                } else {
                    Some(u64::MAX)
                }
            } else {
                None
            },
        },
    }
}

/// The time-to-live that a SET argument list selects: none unless a
/// third argument names a recognized option and a fourth holds a
/// readable count.
pub open spec fn spec_set_duration(args: Seq<Seq<char>>) -> Option<u64> {
    if args.len() >= 3 {
        spec_get_duration(
            args[2],
            if args.len() >= 4 {
                Some(args[3])
            } else {
                None
            },
        )
    } else {
        None
    }
}

/// Reads a decimal numeral, exactly as `spec_parse_u64` states it.
fn parse_u64_str(s: &str) -> (r: Option<u64>)
    ensures
        r == spec_parse_u64(s@),
{
    let n = s.unicode_len();
    let first_digit: usize = if n > 0 && s.get_char(0) == '+' {
        1
    } else {
        0
    };
    let ghost digits = s@.subrange(first_digit as int, s@.len() as int);
    proof {
        assert(spec_numeral_digits(s@) =~= digits);
    }
    if first_digit == n {
        return None;
    }
    let mut acc: u64 = 0;
    let mut i: usize = first_digit;
    while i < n
        invariant
            n == s@.len(),
            first_digit <= i <= n,
            digits == s@.subrange(first_digit as int, s@.len() as int),
            spec_numeral_digits(s@) == digits,
            spec_all_digits(s@.subrange(first_digit as int, i as int)),
            acc as int == spec_digits_val(s@.subrange(first_digit as int, i as int)),
        decreases n - i,
    {
        let c = s.get_char(i);
        let d = c as u32;
        if d < 48 || d > 57 {
            proof {
                assert(!crate::resp::types::spec_is_digit(digits[i - first_digit]));
            }
            return None;
        }
        let ghost prefix = s@.subrange(first_digit as int, i as int);
        let ghost prefix1 = s@.subrange(first_digit as int, i + 1 as int);
        proof {
            assert(prefix1.drop_last() =~= prefix);
            assert(prefix1.last() == s@[i as int]);
            assert(spec_all_digits(prefix1)) by {
                assert(forall|k: int| 0 <= k < prefix1.len() ==> prefix1[k]
                    == #[trigger] s@[first_digit + k]);
            }
        }
        let step = match acc.checked_mul(10) {
            Some(m) => m.checked_add((d - 48) as u64),
            None => None,
        };
        match step {
            Some(v) => {
                acc = v;
            },
            None => {
                proof {
                    assert(spec_digits_val(prefix1) > u64::MAX as int);
                    if spec_all_digits(digits) {
                        crate::resp::types::lemma_digits_val_prefix_le(digits, i + 1 - first_digit);
                        assert(digits.subrange(0, i + 1 - first_digit) =~= prefix1);
                    }
                }
                return None;
            },
        }
        i += 1;
    }
    proof {
        assert(s@.subrange(first_digit as int, i as int) =~= digits);
    }
    Some(acc)
}

impl SetCmd {
    /// The time-to-live that one option pair selects, exactly as
    /// `spec_get_duration` states it.
    pub fn get_duration(kind: String, value: Option<&String>) -> (r: Option<u64>)
        ensures
            r == spec_get_duration(
                kind@,
                match value {
                    Some(v) => Some(v@),
                    None => None,
                },
            ),
    {
        match value {
            None => None,
            Some(v) => match parse_u64_str(v.as_str()) {
                None => None,
                Some(x) => {
                    if str_eq_ignore_case(kind.as_str(), "px") {
                        Some(x)
                    } else if str_eq_ignore_case(kind.as_str(), "ex") {
                        match x.checked_mul(1000) {
                            Some(y) => Some(y),
                            None => Some(u64::MAX),
                        }
                    } else {
                        None
                    }
                },
            },
        }
    }
}

impl RESPCommandName for SetCmd {
    open spec fn spec_command_name(&self) -> Seq<char> {
        "set"@
    }

    fn command_name(&self) -> (r: &'static str) {
        "set"
    }
}

impl RESPMinMaxArgs for SetCmd {
    open spec fn spec_args(&self) -> Seq<Seq<char>> {
        self.args.deep_view()
    }

    open spec fn spec_min_args(&self) -> int {
        2
    }

    open spec fn spec_max_args(&self) -> int {
        4
    }

    fn args_len(&self) -> (r: usize) {
        self.args.len()
    }

    fn min_args(&self) -> (r: usize) {
        2
    }

    fn max_args(&self) -> (r: usize) {
        4
    }
}

/// What SET does at clock reading `now`: binds the key to the value with
/// the selected time-to-live, stamped `now`, and answers OK; or answers
/// the arity error and changes nothing.
pub open spec fn spec_set_execute(args: Seq<Seq<char>>, ctx: CtxVal, now: u64) -> (
    RespVal,
    CtxVal,
) {
    if !spec_arity_ok(args, 2, 4) {
            (
                RespVal::SimpleError(ErrorVal::WrongNumberOfArguments { command: "set"@ }),
                ctx,
            )
        } else {
            let entry = EntryVal {
                data: args[1],
                expire_time: spec_set_duration(args),
                created_at: now,
            };
            (
                RespVal::SimpleString { value: "OK"@ },
                CtxVal { store: ctx.store.insert(args[0], entry), config: ctx.config },
            )
        }
}

impl RESPCommand for SetCmd {
    open spec fn spec_execute(&self, ctx: CtxVal, now: u64) -> (RespVal, CtxVal) {
        spec_set_execute(self.args.deep_view(), ctx, now)
    }

    fn execute(&mut self, ctx: &mut Context) -> (r: RespType) {
        if self.is_invalid() {
            let r = RespType::SimpleError(
                Error::WrongNumberOfArguments { command: String::from_str(self.command_name()) },
            );
            proof {
                assert(self.spec_execute(ctx@, 0) == (r.deep_view(), ctx@));
            }
            return r;
        }
        proof {
            assert(self.args.deep_view()[0] == self.args@[0]@);
            assert(self.args.deep_view()[1] == self.args@[1]@);
        }
        let key = self.args[0].clone();
        let value = self.args[1].clone();
        let duration: Option<u64> = if self.args.len() > 2 {
            proof {
                assert(self.args.deep_view()[2] == self.args@[2]@);
                if self.args@.len() > 3 {
                    assert(self.args.deep_view()[3] == self.args@[3]@);
                }
            }
            let next_opt = if self.args.len() > 3 {
                Some(&self.args[3])
            } else {
                None
            };
            SetCmd::get_duration(self.args[2].clone(), next_opt)
        } else {
            None
        };
        proof {
            assert(duration == spec_set_duration(self.args.deep_view()));
        }
        let entry = StoreValue::new(value, duration);
        let ghost now = entry.created_at;
        let ghost before = ctx@;
        ctx.store.insert(key, entry);
        let r = RespType::SimpleString { value: String::from_str("OK") };
        proof {
            assert(entry.deep_view() == EntryVal {
                data: self.args.deep_view()[1],
                expire_time: spec_set_duration(self.args.deep_view()),
                created_at: now,
            });
            assert(ctx@ == CtxVal {
                store: before.store.insert(self.args.deep_view()[0], entry.deep_view()),
                config: before.config,
            });
            assert(self.spec_execute(before, now) == (r.deep_view(), ctx@));
        }
        r
    }
}

} // verus!
