//! Why a child could not be started.

use crate::close::Close;
use crate::dup::DupError;
use crate::socket_pair::SocketPairError;
use crate::text::{decimal, push_decimal};
use vstd::prelude::*;
use vstd::string::StringExecFns;

verus! {

/// Why no process handle was made.
#[derive(Clone, Copy, Debug, Eq, PartialEq, Structural)]
pub enum PopenError {
    /// One of the three pipes could not be made. Which one is not kept.
    PipeCreateFailed,
    /// The shell could not be started; the code is what the attempt returned.
    ExecArgFailed(i32),
    /// The process could not be split; `fork` failed with this error number.
    ForkFailed(i32),
    /// A standard stream could not be brought onto its pipe.
    PipeRedirectFailed(i32),
    /// A descriptor could not be duplicated.
    Dup2Errno(DupError),
    /// A descriptor could not be wrapped in a stream; `fdopen` failed with
    /// this error number.
    FdOpenErrno(i32),
    /// A descriptor that the parent must not keep could not be closed.
    CloseError(Close),
    /// No pair of sockets could be made.
    SocketPairError(SocketPairError),
    /// Neither the pair of sockets nor the pipe could be made.
    CreateRedirectError(i32),
    /// A text holds a zero byte, at this position, and cannot be handed to
    /// the system.
    CStringParesError(usize),
}

impl PopenError {
    /// The words in which the failure is reported.
    pub open spec fn message(self) -> Seq<char> {
        match self {
            PopenError::PipeCreateFailed => "create pipe failed!"@,
            PopenError::ExecArgFailed(code) => "exec arg failed! exit code: "@ + decimal(
                code as int,
            ),
            PopenError::ForkFailed(_) => "fork failed!"@,
            PopenError::PipeRedirectFailed(v) => "redirect std(in|out|err) to pipe failed! code: "@
                + decimal(v as int),
            PopenError::Dup2Errno(v) => "dup2 old fd to new fd failed! "@ + v.message(),
            PopenError::FdOpenErrno(v) => "open file descriptor as file* stream failed! errno: "@
                + decimal(v as int),
            PopenError::CloseError(v) => v.message(),
            PopenError::SocketPairError(v) => "socket pair "@ + v.message(),
            PopenError::CreateRedirectError(v) =>
                "create socket pair and stderr pipe both failed! errno: "@ + decimal(v as int),
            PopenError::CStringParesError(_) => "parse nul byte found in pr failed!"@,
        }
    }

    /// The failure in words.
    pub fn to_string(&self) -> (s: String)
        ensures
            s@ == self.message(),
    {
        match self {
            PopenError::PipeCreateFailed => String::from_str("create pipe failed!"),
            PopenError::ExecArgFailed(code) => {
                let mut s = String::from_str("exec arg failed! exit code: ");
                push_decimal(&mut s, *code);
                s
            },
            PopenError::ForkFailed(_) => String::from_str("fork failed!"),
            PopenError::PipeRedirectFailed(v) => {
                let mut s = String::from_str("redirect std(in|out|err) to pipe failed! code: ");
                push_decimal(&mut s, *v);
                s
            },
            PopenError::Dup2Errno(v) => {
                let mut s = String::from_str("dup2 old fd to new fd failed! ");
                let inner = v.to_string();
                s.append(inner.as_str());
                s
            },
            PopenError::FdOpenErrno(v) => {
                let mut s = String::from_str(
                    "open file descriptor as file* stream failed! errno: ",
                );
                push_decimal(&mut s, *v);
                s
            },
            PopenError::CloseError(v) => v.to_string(),
            PopenError::SocketPairError(v) => {
                let mut s = String::from_str("socket pair ");
                let inner = v.to_string();
                s.append(inner.as_str());
                s
            },
            PopenError::CreateRedirectError(v) => {
                let mut s = String::from_str(
                    "create socket pair and stderr pipe both failed! errno: ",
                );
                push_decimal(&mut s, *v);
                s
            },
            PopenError::CStringParesError(_) => String::from_str(
                "parse nul byte found in pr failed!",
            ),
        }
    }
}

} // verus!
