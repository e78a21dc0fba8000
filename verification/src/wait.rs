//! Collecting the status of a child.

use crate::call::{Call, Next, Reply};
use crate::platform::Platform;
use vstd::prelude::*;
use vstd::string::StringExecFns;

verus! {

/// Why no status was collected.
#[derive(Clone, Copy, Debug, Eq, Hash, Ord, PartialEq, PartialOrd, Structural)]
pub enum Wait {
    /// The call failed with this error number.
    WaitFailure(i32),
    /// Asked not to block, and no child had changed state.
    WNoHangExit,
    /// The error number could not be read.
    ErrnoNotFound,
}

impl Wait {
    /// The words in which the failure is reported.
    pub open spec fn message(self) -> Seq<char> {
        match self {
            Wait::ErrnoNotFound => "errno not found!"@,
            _ => "exec failed!"@,
        }
    }

    /// What an answer to `wait` means: the child's identifier and status
    /// word, or the error number where the call returned `-1`.
    pub open spec fn collected(reply: Reply) -> Result<(i32, i32), Wait> {
        match reply {
            Reply::Wait { ret, status, errno } => match errno {
                None => Err(Wait::ErrnoNotFound),
                Some(e) => if ret == -1 {
                    Err(Wait::WaitFailure(e))
                } else {
                    Ok((ret, status))
                },
            },
            _ => Err(Wait::ErrnoNotFound),
        }
    }

    /// What an answer to `waitpid` with `options` means. Zero is returned
    /// where the options asked not to block and nothing was ready.
    pub open spec fn collected_with(options: i32, no_hang: i32, reply: Reply) -> Result<
        (i32, i32),
        Wait,
    > {
        match reply {
            Reply::Wait { ret, status, errno } => match errno {
                None => Err(Wait::ErrnoNotFound),
                Some(e) => if ret == 0 && options & no_hang != 0 {
                    Err(Wait::WNoHangExit)
                } else if ret == -1 {
                    Err(Wait::WaitFailure(e))
                } else {
                    Ok((ret, status))
                },
            },
            _ => Err(Wait::ErrnoNotFound),
        }
    }

    /// What waiting for any child has come to.
    pub open spec fn children_next(replies: Seq<Reply>) -> Next<Result<(i32, i32), Wait>> {
        if replies.len() == 0 {
            Next::Call(Call::Wait)
        } else {
            Next::Done(Wait::collected(replies[0]))
        }
    }

    /// What waiting for `pid` with `options` has come to.
    pub open spec fn children_with_next(
        pid: i32,
        options: i32,
        platform: Platform,
        replies: Seq<Reply>,
    ) -> Next<Result<(i32, i32), Wait>> {
        if replies.len() == 0 {
            Next::Call(Call::WaitPid(pid, options))
        } else {
            Next::Done(Wait::collected_with(options, platform.no_hang, replies[0]))
        }
    }

    /// With no option set the wait blocks, and its answer means what an
    /// answer to `wait` means, whatever the number of the option that asks
    /// not to block.
    pub proof fn lemma_blocking_wait(no_hang: i32, reply: Reply)
        ensures
            Wait::collected_with(0, no_hang, reply) == Wait::collected(reply),
    {
        assert(0i32 & no_hang == 0) by (bit_vector);
    }

    /// Reads an answer to `waitpid` with `options`.
    pub fn read(options: i32, platform: &Platform, reply: &Reply) -> (r: Result<(i32, i32), Wait>)
        ensures
            r == Wait::collected_with(options, platform.no_hang, *reply),
    {
        match reply {
            Reply::Wait { ret, status, errno } => match errno {
                None => Err(Wait::ErrnoNotFound),
                Some(e) => if *ret == 0 && options & platform.no_hang != 0 {
                    Err(Wait::WNoHangExit)
                } else if *ret == -1 {
                    Err(Wait::WaitFailure(*e))
                } else {
                    Ok((*ret, *status))
                },
            },
            _ => Err(Wait::ErrnoNotFound),
        }
    }

    /// Waits for any child.
    pub fn children(replies: &[Reply]) -> (next: Next<Result<(i32, i32), Wait>>)
        ensures
            next == Wait::children_next(replies@),
    {
        if replies.len() == 0 {
            Next::Call(Call::Wait)
        } else {
            match replies[0] {
                Reply::Wait { ret, status, errno } => match errno {
                    None => Next::Done(Err(Wait::ErrnoNotFound)),
                    Some(e) => if ret == -1 {
                        Next::Done(Err(Wait::WaitFailure(e)))
                    } else {
                        Next::Done(Ok((ret, status)))
                    },
                },
                _ => Next::Done(Err(Wait::ErrnoNotFound)),
            }
        }
    }

    /// Waits for the child `pid` with `options`.
    pub fn children_with(pid: i32, options: i32, platform: &Platform, replies: &[Reply]) -> (next:
        Next<Result<(i32, i32), Wait>>)
        ensures
            next == Wait::children_with_next(pid, options, *platform, replies@),
    {
        if replies.len() == 0 {
            Next::Call(Call::WaitPid(pid, options))
        } else {
            Next::Done(Wait::read(options, platform, &replies[0]))
        }
    }

    /// The failure in words.
    pub fn to_string(&self) -> (s: String)
        ensures
            s@ == self.message(),
    {
        match self {
            Wait::ErrnoNotFound => String::from_str("errno not found!"),
            _ => String::from_str("exec failed!"),
        }
    }
}

} // verus!
