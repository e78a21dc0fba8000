//! The point where one process becomes two.

use crate::call::{Call, Next, Reply};
use vstd::prelude::*;

verus! {

/// What a process learns when `fork` returns.
#[derive(Debug, Clone, Copy, PartialEq, Eq)]
pub enum ForkPid {
    /// This is the parent: its own identifier, then the child's.
    Parent((i32, i32)),
    /// This is the child: its parent's identifier, then its own.
    Children((i32, i32)),
    /// There was no split: `fork` failed with this error number, and this is
    /// still the only process.
    Failed(i32),
}

/// The split point.
#[derive(Debug, Default, Clone, Copy)]
pub struct Fork;

impl Fork {
    /// What an answer to `fork` means: zero is seen by the child, a positive
    /// number by the parent, whose child it names, and a negative one where
    /// no child was made.
    pub open spec fn side(reply: Reply) -> ForkPid {
        match reply {
            Reply::Fork { ret, errno, pid, ppid } => if ret == 0 {
                ForkPid::Children((ppid, pid))
            } else if ret > 0 {
                ForkPid::Parent((pid, ret))
            } else {
                ForkPid::Failed(errno)
            },
            _ => ForkPid::Failed(reply.errno()),
        }
    }

    /// What the split has come to: the call while it is unanswered, then the
    /// side on which the answer was seen.
    pub open spec fn fork_next(replies: Seq<Reply>) -> Next<ForkPid> {
        if replies.len() == 0 {
            Next::Call(Call::Fork)
        } else {
            Next::Done(Fork::side(replies[0]))
        }
    }

    /// Tells the side of the split on which an answer to `fork` was seen.
    pub fn read(reply: &Reply) -> (side: ForkPid)
        ensures
            side == Fork::side(*reply),
    {
        match reply {
            Reply::Fork { ret, errno, pid, ppid } => if *ret == 0 {
                ForkPid::Children((*ppid, *pid))
            } else if *ret > 0 {
                ForkPid::Parent((*pid, *ret))
            } else {
                ForkPid::Failed(*errno)
            },
            _ => ForkPid::Failed(reply.error_number()),
        }
    }

    /// Splits the process.
    pub fn fork(replies: &[Reply]) -> (next: Next<ForkPid>)
        ensures
            next == Fork::fork_next(replies@),
    {
        if replies.len() == 0 {
            Next::Call(Call::Fork)
        } else {
            Next::Done(Fork::read(&replies[0]))
        }
    }
}

} // verus!
