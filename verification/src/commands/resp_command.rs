//! What every command offers: a name, an arity interval, and an
//! execution function against the shared context.

use vstd::prelude::*;

use crate::resp::types::RespType;
use crate::resp::types::RespVal;
use crate::resp::errors::ErrorVal;
use crate::utils::context::Context;
use crate::utils::context::CtxVal;

verus! {

/// Whether the count of `args` lies in the closed interval `[min, max]`.
pub open spec fn spec_arity_ok(args: Seq<Seq<char>>, min: int, max: int) -> bool {
    min <= args.len() && args.len() <= max
}

/// A command's name.
pub trait RESPCommandName {
    /// The command's lowercase name.
    spec fn spec_command_name(&self) -> Seq<char>;

    /// The command's name, exactly as `spec_command_name` states it.
    fn command_name(&self) -> (r: &'static str)
        ensures
            r@ == self.spec_command_name(),
    ;
}

/// A command's arity: the argument count must lie in a closed interval.
pub trait RESPMinMaxArgs {
    /// The argument list carried by the command.
    spec fn spec_args(&self) -> Seq<Seq<char>>;

    /// The fewest arguments accepted.
    spec fn spec_min_args(&self) -> int;

    /// The most arguments accepted.
    spec fn spec_max_args(&self) -> int;

    fn args_len(&self) -> (r: usize)
        ensures
            r == self.spec_args().len(),
    ;

    fn min_args(&self) -> (r: usize)
        ensures
            r == self.spec_min_args(),
    ;

    fn max_args(&self) -> (r: usize)
        ensures
            r == self.spec_max_args(),
    ;

    /// Whether the argument count lies in the arity interval.
    fn is_valid(&self) -> (r: bool)
        ensures
            r == spec_arity_ok(self.spec_args(), self.spec_min_args(), self.spec_max_args()),
    {
        let len = self.args_len();
        len >= self.min_args() && len <= self.max_args()
    }

    /// The complement of `is_valid`.
    fn is_invalid(&self) -> (r: bool)
        ensures
            r == !spec_arity_ok(self.spec_args(), self.spec_min_args(), self.spec_max_args()),
    {
        !self.is_valid()
    }
}

/// An executable command. What running it yields is a mathematical
/// function of the command, the context, and one clock reading; execution
/// reads the clock at most once and follows that function. An argument
/// count outside the arity interval yields the arity error and leaves the
/// context untouched, whatever the clock read.
pub trait RESPCommand: RESPCommandName + RESPMinMaxArgs + Sized {
    /// The reply and the context after running against `ctx` when the
    /// clock reads `now`.
    spec fn spec_execute(&self, ctx: CtxVal, now: u64) -> (RespVal, CtxVal);

    fn execute(&mut self, ctx: &mut Context) -> (r: RespType)
        ensures
            *final(self) == *old(self),
            exists|now: u64|
                #[trigger] old(self).spec_execute(old(ctx)@, now) == (
                    r.deep_view(),
                    final(ctx)@,
                ),
            !spec_arity_ok(
                old(self).spec_args(),
                old(self).spec_min_args(),
                old(self).spec_max_args(),
            ) ==> r.deep_view() == RespVal::SimpleError(
                ErrorVal::WrongNumberOfArguments { command: old(self).spec_command_name() },
            ) && final(ctx)@ == old(ctx)@,
    ;
}

} // verus!
