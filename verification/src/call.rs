//! The words in which the engine and its caller speak: the system calls that
//! the engine asks for, and what the system answered.

use vstd::prelude::*;

verus! {

/// The direction of a buffered stream over a descriptor.
#[derive(Clone, Copy, Debug, PartialEq, Eq, Structural)]
pub enum Mode {
    /// Opened with `"r"`.
    Read,
    /// Opened with `"w"`.
    Write,
}

/// One system call that the engine asks its caller to make.
#[derive(Clone, Copy, Debug, PartialEq, Eq, Structural)]
pub enum Call {
    /// `pipe`: make a pipe.
    Pipe,
    /// `pipe2`: make a pipe with the given flags.
    Pipe2(i32),
    /// `socketpair` for a domain, a type and a protocol.
    SocketPair(i32, i32, i32),
    /// `fork`, then `getpid` and `getppid` in whichever process observes the
    /// result.
    Fork,
    /// `forkpty` with the addresses of the terminal attributes and of the
    /// window size, zero for none.
    ForkPty(usize, usize),
    /// `close` of a descriptor.
    Close(i32),
    /// `dup` of a descriptor.
    Dup(i32),
    /// `dup2` of the first descriptor onto the second.
    Dup2(i32, i32),
    /// `fdopen` of a descriptor in the given mode.
    FdOpen(i32, Mode),
    /// `fclose` of a stream.
    FClose(usize),
    /// `wait` for any child.
    Wait,
    /// `waitpid` for a process with the given options.
    WaitPid(i32, i32),
    /// `execl` of the shell with the words that the handle gives as its
    /// shell command. It answers only when it failed.
    Shell,
    /// `execlp` of the interactive shell with the words that the terminal
    /// gives as its shell command. It answers only when it failed.
    Terminal,
    /// `_exit` with a status. This call never answers.
    Exit(i32),
}

/// What the system answered to one call. An error number is the one read
/// right after the call.
#[derive(Clone, Copy, Debug, PartialEq, Eq, Structural)]
#[allow(inconsistent_fields)]
pub enum Reply {
    /// To `Pipe`, `Pipe2` and `SocketPair`: the return value, the error
    /// number, and the two descriptors in the order in which the system
    /// wrote them.
    Pair { ret: i32, errno: i32, first: i32, second: i32 },
    /// To `Fork`: the return value, the error number, then the identifier of
    /// the process that observes the answer and of that process's parent.
    Fork { ret: i32, errno: i32, pid: i32, ppid: i32 },
    /// To `ForkPty`: the return value, the error number and the descriptor of
    /// the terminal's controlling side.
    Pty { ret: i32, errno: i32, fd: i32 },
    /// To `Close`, `Dup`, `Dup2`, `FClose`, `Shell` and `Terminal`: the return
    /// value and the error number.
    Status { ret: i32, errno: i32 },
    /// To `FdOpen`: the stream, zero for none, and the error number.
    Stream { handle: usize, errno: i32 },
    /// To `Wait` and `WaitPid`: the return value, the status word, and the
    /// error number where it could be read.
    Wait { ret: i32, status: i32, errno: Option<i32> },
}

/// What a resumable operation has come to: a call that its caller is to make
/// next, or its result.
#[derive(Clone, Copy, Debug, PartialEq, Eq)]
pub enum Next<T> {
    /// Make this call and come back with the answer.
    Call(Call),
    /// The operation is over.
    Done(T),
}

impl Call {
    /// The descriptor or the value that the call's return value must equal for
    /// the call to have succeeded: the target for `Dup2`, zero otherwise.
    pub open spec fn wanted(self) -> int {
        match self {
            Call::Dup2(_, new_fd) => new_fd as int,
            _ => 0,
        }
    }

    /// Whether an answer to this call reports success: the return value is
    /// the one wanted, and it is not `-1`, by which the system reports
    /// failure whatever was wanted. An answer of another kind than the call
    /// gives does not report success.
    pub open spec fn succeeded(self, reply: Reply) -> bool {
        match reply {
            Reply::Status { ret, errno } => ret == self.wanted() && ret != -1,
            _ => false,
        }
    }

    /// Decides whether `reply` reports that this call succeeded.
    pub fn succeeded_by(&self, reply: &Reply) -> (ok: bool)
        ensures
            ok == self.succeeded(*reply),
    {
        match reply {
            Reply::Status { ret, .. } => match self {
                Call::Dup2(_, new_fd) => *ret == *new_fd && *ret != -1,
                _ => *ret == 0,
            },
            _ => false,
        }
    }
}

impl Reply {
    /// The error number that came with the answer; zero where none could be
    /// read.
    pub open spec fn errno(self) -> i32 {
        match self {
            Reply::Pair { errno, .. } => errno,
            Reply::Fork { errno, .. } => errno,
            Reply::Pty { errno, .. } => errno,
            Reply::Status { errno, .. } => errno,
            Reply::Stream { errno, .. } => errno,
            Reply::Wait { errno, .. } => match errno {
                Some(e) => e,
                None => 0,
            },
        }
    }

    /// The error number that came with the answer.
    pub fn error_number(&self) -> (e: i32)
        ensures
            e == self.errno(),
    {
        match self {
            Reply::Pair { errno, .. } => *errno,
            Reply::Fork { errno, .. } => *errno,
            Reply::Pty { errno, .. } => *errno,
            Reply::Status { errno, .. } => *errno,
            Reply::Stream { errno, .. } => *errno,
            Reply::Wait { errno, .. } => match errno {
                Some(e) => *e,
                None => 0,
            },
        }
    }
}

/// Where a run of calls stands once the first answers are in: `Ok(k)` when
/// the first `k` calls succeeded and either no call or no answer is left,
/// `Err(e)` when the first call that did not succeed reported error number
/// `e`. It looks at the calls from `i` on.
pub open spec fn sweep(calls: Seq<Call>, replies: Seq<Reply>, i: int) -> Result<int, i32>
    decreases calls.len() - i,
{
    if i < 0 || i >= calls.len() || i >= replies.len() {
        Ok(i)
    } else if calls[i].succeeded(replies[i]) {
        sweep(calls, replies, i + 1)
    } else {
        Err(replies[i].errno())
    }
}

/// What a run of calls, each made only after the one before it succeeded, has
/// come to: the next call to make, or `Ok` once all have succeeded, or the
/// error number of the first that failed.
pub open spec fn batch_next(calls: Seq<Call>, replies: Seq<Reply>) -> Next<Result<(), i32>> {
    match sweep(calls, replies, 0) {
        Err(e) => Next::Done(Err(e)),
        Ok(k) => if k >= calls.len() {
            Next::Done(Ok(()))
        } else {
            Next::Call(calls[k])
        },
    }
}

/// Runs `calls` in order, one per answer in `replies`, and stops at the first
/// that fails.
pub fn batch(calls: &[Call], replies: &[Reply]) -> (next: Next<Result<(), i32>>)
    ensures
        next == batch_next(calls@, replies@),
{
    let mut i: usize = 0;
    while i < calls.len() && i < replies.len()
        invariant
            0 <= i <= calls.len(),
            i <= replies.len(),
            sweep(calls@, replies@, 0) == sweep(calls@, replies@, i as int),
        decreases calls.len() - i,
    {
        if !calls[i].succeeded_by(&replies[i]) {
            return Next::Done(Err(replies[i].error_number()));
        }
        i = i + 1;
    }
    if i >= calls.len() {
        Next::Done(Ok(()))
    } else {
        Next::Call(calls[i])
    }
}

} // verus!
