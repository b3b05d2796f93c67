//! Resolving a parsed protocol value into one concrete command of the
//! closed set.

use vstd::prelude::*;

use crate::commands::echo::spec_echo_execute;
use crate::commands::echo::Echo;
use crate::commands::get::spec_get_execute;
use crate::commands::get::Get;
use crate::commands::info::spec_info_execute;
use crate::commands::info::Info;
use crate::commands::ping::spec_ping_execute;
use crate::commands::ping::Ping;
use crate::commands::set_cmd::spec_set_execute;
use crate::commands::resp_command::RESPCommand;
use crate::commands::resp_command::RESPCommandName;
use crate::commands::resp_command::RESPMinMaxArgs;
use crate::commands::set_cmd::SetCmd;
use crate::resp::errors::Error;
use crate::resp::errors::ErrorVal;
use crate::resp::types::RespType;
use crate::resp::types::RespVal;
use crate::utils::context::Context;
use crate::utils::context::CtxVal;
use crate::utils::text::spec_eq_ignore_ascii_case;
use crate::utils::text::str_eq_ignore_case;

verus! {

/// A command name with its raw arguments, as read from a request array.
pub struct Command(pub String, pub Vec<String>);

/// One resolved command, ready to run: the closed set of operations.
pub enum CommandKind {
    Echo(Echo),
    Ping(Ping),
    SetCmd(SetCmd),
    Get(Get),
    Info(Info),
}

/// The mathematical abstraction of a resolved command: which operation,
/// with which arguments.
pub enum KindVal {
    Echo(Seq<Seq<char>>),
    Ping(Seq<Seq<char>>),
    SetCmd(Seq<Seq<char>>),
    Get(Seq<Seq<char>>),
    Info(Seq<Seq<char>>),
}

impl DeepView for CommandKind {
    type V = KindVal;

    open spec fn deep_view(&self) -> KindVal {
        match self {
            CommandKind::Echo(c) => KindVal::Echo(c.0.deep_view()),
            CommandKind::Ping(c) => KindVal::Ping(c.0.deep_view()),
            CommandKind::SetCmd(c) => KindVal::SetCmd(c.args.deep_view()),
            CommandKind::Get(c) => KindVal::Get(c.0.deep_view()),
            CommandKind::Info(c) => KindVal::Info(c.0.deep_view()),
        }
    }
}

/// The command that `name` resolves to, matched ignoring ASCII case,
/// carrying `args`; an unknown name is reported back as given.
pub open spec fn spec_create_command(name: Seq<char>, args: Seq<Seq<char>>) -> Result<
    KindVal,
    ErrorVal,
> {
    if spec_eq_ignore_ascii_case(name, "echo"@) {
        Ok(KindVal::Echo(args))
    } else if spec_eq_ignore_ascii_case(name, "ping"@) {
        Ok(KindVal::Ping(args))
    } else if spec_eq_ignore_ascii_case(name, "set"@) {
        Ok(KindVal::SetCmd(args))
    } else if spec_eq_ignore_ascii_case(name, "get"@) {
        Ok(KindVal::Get(args))
    } else if spec_eq_ignore_ascii_case(name, "info"@) {
        Ok(KindVal::Info(args))
    } else {
        Err(ErrorVal::UnknownCommand { command: name })
    }
}

/// What the dispatcher reads from a request value: the command name and
/// the arguments of an array of bulk strings. A non-array value, an
/// empty array, or any element that is not a bulk string is the type
/// error.
pub open spec fn spec_command_from_resp(v: RespVal) -> Result<
    (Seq<char>, Seq<Seq<char>>),
    ErrorVal,
> {
    match v {
        RespVal::Array { len: _, values } => {
            if values.len() == 0 {
                Err(ErrorVal::WrongType)
            } else if !(values[0] is BulkString) {
                Err(ErrorVal::WrongType)
            } else if forall|i: int| 1 <= i < values.len() ==> (#[trigger] values[i]) is BulkString {
                Ok(
                    (
                        values[0]->BulkString_value,
                        Seq::new(
                            (values.len() - 1) as nat,
                            |i: int| values[i + 1]->BulkString_value,
                        ),
                    ),
                )
            } else {
                Err(ErrorVal::WrongType)
            }
        },
        _ => Err(ErrorVal::WrongType),
    }
}

/// A copy of an argument list, character for character.
fn clone_args(v: &Vec<String>) -> (r: Vec<String>)
    ensures
        r.deep_view() == v.deep_view(),
{
    let mut r: Vec<String> = Vec::new();
    let mut i: usize = 0;
    while i < v.len()
        invariant
            i <= v@.len(),
            r@.len() == i,
            forall|k: int| 0 <= k < i ==> (#[trigger] r@[k])@ == v@[k]@,
        decreases v@.len() - i,
    {
        r.push(v[i].clone());
        i += 1;
    }
    proof {
        assert(r.deep_view() =~= v.deep_view());
    }
    r
}

impl Command {
    /// Resolves the carried name into a concrete command holding a copy
    /// of the arguments, exactly as `spec_create_command` states it.
    pub fn create_command(&self) -> (r: Result<CommandKind, Error>)
        ensures
            match r {
                Ok(k) => spec_create_command(self.0@, self.1.deep_view()) == Ok::<
                    KindVal,
                    ErrorVal,
                >(k.deep_view()),
                Err(e) => spec_create_command(self.0@, self.1.deep_view()) == Err::<
                    KindVal,
                    ErrorVal,
                >(e.deep_view()),
            },
    {
        let args = clone_args(&self.1);
        if str_eq_ignore_case(self.0.as_str(), "echo") {
            Ok(CommandKind::Echo(Echo(args)))
        } else if str_eq_ignore_case(self.0.as_str(), "ping") {
            Ok(CommandKind::Ping(Ping(args)))
        } else if str_eq_ignore_case(self.0.as_str(), "set") {
            Ok(CommandKind::SetCmd(SetCmd { args }))
        } else if str_eq_ignore_case(self.0.as_str(), "get") {
            Ok(CommandKind::Get(Get(args)))
        } else if str_eq_ignore_case(self.0.as_str(), "info") {
            Ok(CommandKind::Info(Info(args)))
        } else {
            Err(Error::UnknownCommand { command: self.0.clone() })
        }
    }

    /// Reads the command name and arguments out of a request value,
    /// exactly as `spec_command_from_resp` states it.
    pub fn try_from(value: RespType) -> (r: Result<Command, Error>)
        ensures
            match r {
                Ok(c) => spec_command_from_resp(value.deep_view()) == Ok::<
                    (Seq<char>, Seq<Seq<char>>),
                    ErrorVal,
                >((c.0@, c.1.deep_view())),
                Err(e) => spec_command_from_resp(value.deep_view()) == Err::<
                    (Seq<char>, Seq<Seq<char>>),
                    ErrorVal,
                >(e.deep_view()),
            },
    {
        let ghost dv = value.deep_view();
        match &value {
            RespType::Array { len: _, values } => {
                let ghost dvals = dv->Array_values;
                proof {
                    assert(dvals.len() == values@.len());
                    assert(forall|k: int|
                        0 <= k < values@.len() ==> dvals[k] == (#[trigger] values@[k]).deep_view());
                }
                if values.len() == 0 {
                    return Err(Error::WrongType);
                }
                let name = match &values[0] {
                    RespType::BulkString { len: _, value: name } => name.clone(),
                    _ => {
                        return Err(Error::WrongType);
                    },
                };
                proof {
                    assert(dvals[0] is BulkString && dvals[0]->BulkString_value == name@);
                }
                let mut args: Vec<String> = Vec::new();
                let mut i: usize = 1;
                while i < values.len()
                    invariant
                        1 <= i <= values@.len(),
                        dv == value.deep_view(),
                        dv is Array,
                        dvals == dv->Array_values,
                        dvals.len() == values@.len(),
                        forall|k: int|
                            0 <= k < values@.len() ==> dvals[k] == (
                            #[trigger] values@[k]).deep_view(),
                        dvals[0] is BulkString,
                        forall|k: int| 1 <= k < i ==> (#[trigger] dvals[k]) is BulkString,
                        args@.len() == i - 1,
                        forall|k: int|
                            0 <= k < i - 1 ==> (#[trigger] args@[k])@ == dvals[k
                                + 1]->BulkString_value,
                    decreases values@.len() - i,
                {
                    match &values[i] {
                        RespType::BulkString { len: _, value: av } => {
                            args.push(av.clone());
                        },
                        _ => {
                            proof {
                                assert(1 <= (i as int) && (i as int) < dvals.len());
                                assert(!(dvals[i as int] is BulkString));
                                assert(!(forall|k: int|
                                    1 <= k < dvals.len() ==> (#[trigger] dvals[k])
                                        is BulkString));
                                assert(spec_command_from_resp(dv) == Err::<
                                    (Seq<char>, Seq<Seq<char>>),
                                    ErrorVal,
                                >(ErrorVal::WrongType));
                            }
                            return Err(Error::WrongType);
                        },
                    }
                    i += 1;
                }
                let c = Command(name, args);
                proof {
                    assert(c.1.deep_view() =~= Seq::new(
                        (dvals.len() - 1) as nat,
                        |k: int| dvals[k + 1]->BulkString_value,
                    ));
                }
                Ok(c)
            },
            _ => Err(Error::WrongType),
        }
    }
}

impl RESPCommandName for CommandKind {
    open spec fn spec_command_name(&self) -> Seq<char> {
        match self {
            CommandKind::Echo(c) => c.spec_command_name(),
            CommandKind::Ping(c) => c.spec_command_name(),
            CommandKind::SetCmd(c) => c.spec_command_name(),
            CommandKind::Get(c) => c.spec_command_name(),
            CommandKind::Info(c) => c.spec_command_name(),
        }
    }

    fn command_name(&self) -> (r: &'static str) {
        match self {
            CommandKind::Echo(c) => c.command_name(),
            CommandKind::Ping(c) => c.command_name(),
            CommandKind::SetCmd(c) => c.command_name(),
            CommandKind::Get(c) => c.command_name(),
            CommandKind::Info(c) => c.command_name(),
        }
    }
}

impl RESPMinMaxArgs for CommandKind {
    open spec fn spec_args(&self) -> Seq<Seq<char>> {
        match self {
            CommandKind::Echo(c) => c.spec_args(),
            CommandKind::Ping(c) => c.spec_args(),
            CommandKind::SetCmd(c) => c.spec_args(),
            CommandKind::Get(c) => c.spec_args(),
            CommandKind::Info(c) => c.spec_args(),
        }
    }

    open spec fn spec_min_args(&self) -> int {
        match self {
            CommandKind::Echo(c) => c.spec_min_args(),
            CommandKind::Ping(c) => c.spec_min_args(),
            CommandKind::SetCmd(c) => c.spec_min_args(),
            CommandKind::Get(c) => c.spec_min_args(),
            CommandKind::Info(c) => c.spec_min_args(),
        }
    }

    open spec fn spec_max_args(&self) -> int {
        match self {
            CommandKind::Echo(c) => c.spec_max_args(),
            CommandKind::Ping(c) => c.spec_max_args(),
            CommandKind::SetCmd(c) => c.spec_max_args(),
            CommandKind::Get(c) => c.spec_max_args(),
            CommandKind::Info(c) => c.spec_max_args(),
        }
    }

    fn args_len(&self) -> (r: usize) {
        match self {
            CommandKind::Echo(c) => c.args_len(),
            CommandKind::Ping(c) => c.args_len(),
            CommandKind::SetCmd(c) => c.args_len(),
            CommandKind::Get(c) => c.args_len(),
            CommandKind::Info(c) => c.args_len(),
        }
    }

    fn min_args(&self) -> (r: usize) {
        match self {
            CommandKind::Echo(c) => c.min_args(),
            CommandKind::Ping(c) => c.min_args(),
            CommandKind::SetCmd(c) => c.min_args(),
            CommandKind::Get(c) => c.min_args(),
            CommandKind::Info(c) => c.min_args(),
        }
    }

    fn max_args(&self) -> (r: usize) {
        match self {
            CommandKind::Echo(c) => c.max_args(),
            CommandKind::Ping(c) => c.max_args(),
            CommandKind::SetCmd(c) => c.max_args(),
            CommandKind::Get(c) => c.max_args(),
            CommandKind::Info(c) => c.max_args(),
        }
    }
}

/// What a resolved command does, as a function of its abstraction.
pub open spec fn spec_execute_kind(k: KindVal, ctx: CtxVal, now: u64) -> (RespVal, CtxVal) {
    match k {
        KindVal::Echo(args) => spec_echo_execute(args, ctx, now),
        KindVal::Ping(args) => spec_ping_execute(args, ctx, now),
        KindVal::SetCmd(args) => spec_set_execute(args, ctx, now),
        KindVal::Get(args) => spec_get_execute(args, ctx, now),
        KindVal::Info(args) => spec_info_execute(args, ctx, now),
    }
}

/// Running a resolved command is the function of its abstraction.
pub proof fn lemma_execute_kind(k: &CommandKind, ctx: CtxVal, now: u64)
    ensures
        k.spec_execute(ctx, now) == spec_execute_kind(k.deep_view(), ctx, now),
{
}

impl RESPCommand for CommandKind {
    open spec fn spec_execute(&self, ctx: CtxVal, now: u64) -> (RespVal, CtxVal) {
        match self {
            CommandKind::Echo(c) => c.spec_execute(ctx, now),
            CommandKind::Ping(c) => c.spec_execute(ctx, now),
            CommandKind::SetCmd(c) => c.spec_execute(ctx, now),
            CommandKind::Get(c) => c.spec_execute(ctx, now),
            CommandKind::Info(c) => c.spec_execute(ctx, now),
        }
    }

    fn execute(&mut self, ctx: &mut Context) -> (r: RespType) {
        match self {
            CommandKind::Echo(c) => {
                let r = c.execute(ctx);
                proof {
                    let now = choose|n: u64|
                        #[trigger] c.spec_execute(old(ctx)@, n) == (r.deep_view(), ctx@);
                    assert(self.spec_execute(old(ctx)@, now) == (r.deep_view(), ctx@));
                }
                r
            },
            CommandKind::Ping(c) => {
                let r = c.execute(ctx);
                proof {
                    let now = choose|n: u64|
                        #[trigger] c.spec_execute(old(ctx)@, n) == (r.deep_view(), ctx@);
                    assert(self.spec_execute(old(ctx)@, now) == (r.deep_view(), ctx@));
                }
                r
            },
            CommandKind::SetCmd(c) => {
                let r = c.execute(ctx);
                proof {
                    let now = choose|n: u64|
                        #[trigger] c.spec_execute(old(ctx)@, n) == (r.deep_view(), ctx@);
                    assert(self.spec_execute(old(ctx)@, now) == (r.deep_view(), ctx@));
                }
                r
            },
            CommandKind::Get(c) => {
                let r = c.execute(ctx);
                proof {
                    let now = choose|n: u64|
                        #[trigger] c.spec_execute(old(ctx)@, n) == (r.deep_view(), ctx@);
                    assert(self.spec_execute(old(ctx)@, now) == (r.deep_view(), ctx@));
                }
                r
            },
            CommandKind::Info(c) => {
                let r = c.execute(ctx);
                proof {
                    let now = choose|n: u64|
                        #[trigger] c.spec_execute(old(ctx)@, n) == (r.deep_view(), ctx@);
                    assert(self.spec_execute(old(ctx)@, now) == (r.deep_view(), ctx@));
                }
                r
            },
        }
    }
}

} // verus!
