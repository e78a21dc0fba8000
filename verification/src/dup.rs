//! Duplicating descriptors.

use crate::call::{batch, batch_next, Call, Next, Reply};
use crate::text::{decimal, push_decimal};
use vstd::prelude::*;
use vstd::string::StringExecFns;

verus! {

/// A descriptor that is to be moved onto another number.
pub struct Dup {
    fd: i32,
}

/// Why a descriptor could not be duplicated.
#[derive(Clone, Copy, Debug, Eq, Hash, Ord, PartialEq, PartialOrd, Structural)]
pub enum DupError {
    /// The call failed with this error number.
    Errno(i32),
}

/// The `dup2` calls that bring each of `old_fds` onto the number at the same
/// place in `new_fds`, in order, for two lists of one length. A descriptor
/// that already has its number needs no call.
pub open spec fn dup2_calls(old_fds: Seq<i32>, new_fds: Seq<i32>) -> Seq<Call>
    decreases old_fds.len(),
{
    if old_fds.len() == 0 || new_fds.len() == 0 {
        Seq::empty()
    } else {
        let before = dup2_calls(old_fds.drop_last(), new_fds.drop_last());
        if old_fds.last() != new_fds.last() {
            before.push(Call::Dup2(old_fds.last(), new_fds.last()))
        } else {
            before
        }
    }
}

impl DupError {
    /// The words in which the failure is reported.
    pub open spec fn message(self) -> Seq<char> {
        match self {
            DupError::Errno(v) => "dup error, errno: "@ + decimal(v as int),
        }
    }

    /// The failure in words.
    pub fn to_string(&self) -> (s: String)
        ensures
            s@ == self.message(),
    {
        match self {
            DupError::Errno(v) => {
                let mut s = String::from_str("dup error, errno: ");
                push_decimal(&mut s, *v);
                s
            },
        }
    }
}

impl Dup {
    /// The descriptor that is to be moved.
    pub closed spec fn fd(&self) -> i32 {
        self.fd
    }

    /// What `dup` of `old_fd` has come to: the call while it is unanswered,
    /// then the new descriptor, or the error number where the call returned
    /// `-1`.
    pub open spec fn dup_next(old_fd: i32, replies: Seq<Reply>) -> Next<Result<i32, DupError>> {
        if replies.len() == 0 {
            Next::Call(Call::Dup(old_fd))
        } else {
            match replies[0] {
                Reply::Status { ret, errno } => if ret == -1 {
                    Next::Done(Err(DupError::Errno(errno)))
                } else {
                    Next::Done(Ok(ret))
                },
                _ => Next::Done(Err(DupError::Errno(replies[0].errno()))),
            }
        }
    }

    /// What `dup2` of `old_fd` onto `new_fd` has come to: the call while it is
    /// unanswered, then `new_fd` where the call returned it and did not
    /// return `-1`, or the error number.
    pub open spec fn dup2_next(old_fd: i32, new_fd: i32, replies: Seq<Reply>) -> Next<
        Result<i32, DupError>,
    > {
        if replies.len() == 0 {
            Next::Call(Call::Dup2(old_fd, new_fd))
        } else if Call::Dup2(old_fd, new_fd).succeeded(replies[0]) {
            Next::Done(Ok(new_fd))
        } else {
            Next::Done(Err(DupError::Errno(replies[0].errno())))
        }
    }

    /// What moving the descriptor onto `fd` has come to: nothing to do where
    /// it has that number already, a `dup2` otherwise.
    pub open spec fn close_to_next(self, fd: i32, replies: Seq<Reply>) -> Next<
        Result<i32, DupError>,
    > {
        if self.fd() == fd {
            Next::Done(Ok(fd))
        } else {
            Dup::dup2_next(self.fd(), fd, replies)
        }
    }

    /// What moving each of `old_fds` onto its number in `new_fds` has come
    /// to: the next `dup2`, success once every descriptor has its number, or
    /// the error number of the first `dup2` that failed.
    pub open spec fn dup2s_next(old_fds: Seq<i32>, new_fds: Seq<i32>, replies: Seq<Reply>) -> Next<
        Result<(), DupError>,
    > {
        match batch_next(dup2_calls(old_fds, new_fds), replies) {
            Next::Call(c) => Next::Call(c),
            Next::Done(Ok(_)) => Next::Done(Ok(())),
            Next::Done(Err(e)) => Next::Done(Err(DupError::Errno(e))),
        }
    }

    /// Duplicates `old_fd` onto the lowest free number.
    pub fn dup(old_fd: i32, replies: &[Reply]) -> (next: Next<Result<i32, DupError>>)
        ensures
            next == Dup::dup_next(old_fd, replies@),
    {
        if replies.len() == 0 {
            Next::Call(Call::Dup(old_fd))
        } else {
            match replies[0] {
                Reply::Status { ret, errno } => if ret == -1 {
                    Next::Done(Err(DupError::Errno(errno)))
                } else {
                    Next::Done(Ok(ret))
                },
                _ => Next::Done(Err(DupError::Errno(replies[0].error_number()))),
            }
        }
    }

    /// Duplicates `old_fd` onto `new_fd`.
    pub fn dup2(old_fd: i32, new_fd: i32, replies: &[Reply]) -> (next: Next<Result<i32, DupError>>)
        ensures
            next == Dup::dup2_next(old_fd, new_fd, replies@),
    {
        if replies.len() == 0 {
            Next::Call(Call::Dup2(old_fd, new_fd))
        } else {
            match replies[0] {
                Reply::Status { ret, errno } => if ret == new_fd && ret != -1 {
                    Next::Done(Ok(new_fd))
                } else {
                    Next::Done(Err(DupError::Errno(errno)))
                },
                _ => Next::Done(Err(DupError::Errno(replies[0].error_number()))),
            }
        }
    }

    /// Takes a descriptor that is to be moved.
    pub fn transform(fd: i32) -> (d: Dup)
        ensures
            d.fd() == fd,
    {
        Dup { fd }
    }

    /// Moves the descriptor onto the number `fd`.
    pub fn close_to(&self, fd: i32, replies: &[Reply]) -> (next: Next<Result<i32, DupError>>)
        ensures
            next == self.close_to_next(fd, replies@),
    {
        if self.fd != fd {
            Dup::dup2(self.fd, fd, replies)
        } else {
            Next::Done(Ok(fd))
        }
    }

    /// Moves each of `old_fds` onto the number at the same place in
    /// `new_fds`, one call per step: `replies` holds the answers to the calls
    /// made so far.
    pub fn dup2s(old_fds: &[i32], new_fds: &[i32], replies: &[Reply]) -> (next: Next<
        Result<(), DupError>,
    >)
        requires
            old_fds@.len() == new_fds@.len(),
        ensures
            next == Dup::dup2s_next(old_fds@, new_fds@, replies@),
    {
        let mut calls: Vec<Call> = Vec::new();
        let mut i: usize = 0;
        while i < old_fds.len()
            invariant
                i <= old_fds.len(),
                old_fds@.len() == new_fds@.len(),
                calls@ == dup2_calls(old_fds@.take(i as int), new_fds@.take(i as int)),
            decreases old_fds.len() - i,
        {
            proof {
                assert(old_fds@.take(i + 1).drop_last() == old_fds@.take(i as int));
                assert(new_fds@.take(i + 1).drop_last() == new_fds@.take(i as int));
            }
            if old_fds[i] != new_fds[i] {
                calls.push(Call::Dup2(old_fds[i], new_fds[i]));
            }
            i = i + 1;
        }
        proof {
            assert(old_fds@.take(i as int) == old_fds@);
            assert(new_fds@.take(i as int) == new_fds@);
        }
        match batch(calls.as_slice(), replies) {
            Next::Call(c) => Next::Call(c),
            Next::Done(Ok(_)) => Next::Done(Ok(())),
            Next::Done(Err(e)) => Next::Done(Err(DupError::Errno(e))),
        }
    }
}

} // verus!
