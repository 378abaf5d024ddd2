//! Operations that alternate decisions with system calls.

use vstd::prelude::*;

verus! {

/// Why an operation failed.
#[derive(Clone, Copy, Debug, PartialEq, Eq, Structural)]
pub enum IpcError {
    /// A system call failed; this is the error code that the system left behind.
    Os(i32),
    /// An argument cannot be used.
    InvalidInput,
    /// There is no connection to use.
    InvalidData,
}

/// A result that may not be there yet.
#[derive(Clone, Copy, Debug, PartialEq, Eq)]
pub enum Async<T> {
    /// The result.
    Ready(T),
    /// Nothing yet: ask again later.
    NotReady,
}

/// What asking for a result gives.
pub type Poll<T> = Result<Async<T>, IpcError>;

/// What a system call that returns a number left behind.
#[derive(Clone, Copy, Debug, PartialEq, Eq, Structural)]
pub struct Reply {
    /// What the call returned.
    pub ret: i32,
    /// The error code of the calling thread after the call.
    pub errno: i32,
}

/// What an operation does next.
#[derive(Clone, Copy, Debug, PartialEq, Eq)]
pub enum Step<C, R> {
    /// It waits for a system call to be made.
    Call(C),
    /// It is over.
    Done(R),
}

/// An operation that waits for a system call, which its value describes.
pub trait Operation: Sized {
    /// What the system call leaves behind.
    type Reply;

    /// What the whole operation comes to.
    type Outcome;

    /// Whether `reply` has the form of a reply to this call.
    spec fn answered_by(self, reply: Self::Reply) -> bool;

    /// What comes after the call has left `reply` behind.
    spec fn after(self, reply: Self::Reply) -> Step<Self, Self::Outcome>;

    /// Goes on with what the call left behind.
    fn resume(self, reply: Self::Reply) -> (next: Step<Self, Self::Outcome>)
        requires
            self.answered_by(reply),
        ensures
            next == self.after(reply),
    ;
}

/// Where an operation stands once its calls have left `replies` behind, in turn. Replies that come
/// after the end change nothing.
pub open spec fn run<O: Operation>(step: Step<O, O::Outcome>, replies: Seq<O::Reply>) -> Step<
    O,
    O::Outcome,
>
    decreases replies.len(),
{
    if replies.len() == 0 {
        step
    } else {
        match step {
            Step::Done(outcome) => Step::Done(outcome),
            Step::Call(call) => run(call.after(replies[0]), replies.drop_first()),
        }
    }
}

/// An operation that is over stays as it is.
pub proof fn run_keeps_done<O: Operation>(outcome: O::Outcome, replies: Seq<O::Reply>)
    ensures
        run(Step::<O, O::Outcome>::Done(outcome), replies) == Step::<O, O::Outcome>::Done(outcome),
{
}

/// Running an operation on some replies and then on others is running it on all of them.
pub proof fn run_in_two_parts<O: Operation>(
    step: Step<O, O::Outcome>,
    first: Seq<O::Reply>,
    second: Seq<O::Reply>,
)
    ensures
        run(step, first + second) == run(run(step, first), second),
    decreases first.len(),
{
    if first.len() == 0 {
        assert(first + second =~= second);
    } else {
        assert((first + second).drop_first() =~= first.drop_first() + second);
        match step {
            Step::Done(outcome) => {},
            Step::Call(call) => {
                run_in_two_parts(call.after(first[0]), first.drop_first(), second);
            },
        }
    }
}

} // verus!
