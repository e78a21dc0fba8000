//! Pairs of connected sockets.

use crate::call::{Call, Next, Reply};
use crate::text::{decimal, push_decimal};
use vstd::prelude::*;
use vstd::string::StringExecFns;

verus! {

/// Two connected sockets.
#[derive(Clone, Copy, Debug, Eq, Hash, Ord, PartialEq, PartialOrd)]
pub struct SocketPair {
    /// The two descriptors, in the order in which the system wrote them.
    pub sv: [i32; 2],
}

/// Why no pair of sockets was made.
#[derive(Clone, Copy, Debug, Eq, Hash, Ord, PartialEq, PartialOrd, Structural)]
pub enum SocketPairError {
    /// `socketpair` failed with this error number.
    SocketErrno(i32),
}

impl SocketPairError {
    /// The words in which the failure is reported.
    pub open spec fn message(self) -> Seq<char> {
        match self {
            SocketPairError::SocketErrno(v) => "create socket with socket pair failed! errno: "@
                + decimal(v as int),
        }
    }

    /// The failure in words.
    pub fn to_string(&self) -> (s: String)
        ensures
            s@ == self.message(),
    {
        match self {
            SocketPairError::SocketErrno(v) => {
                let mut s = String::from_str("create socket with socket pair failed! errno: ");
                push_decimal(&mut s, *v);
                s
            },
        }
    }
}

impl SocketPair {
    /// What an answer to `socketpair` means: the two sockets where it
    /// returned zero, the error number otherwise.
    pub open spec fn made(reply: Reply) -> Result<Seq<i32>, SocketPairError> {
        match reply {
            Reply::Pair { ret, errno, first, second } => if ret == 0 {
                Ok(seq![first, second])
            } else {
                Err(SocketPairError::SocketErrno(errno))
            },
            _ => Err(SocketPairError::SocketErrno(reply.errno())),
        }
    }

    /// Makes a pair of connected sockets in `domain`, of type `type_`, for
    /// `protocol`.
    pub fn create(domain: i32, type_: i32, protocol: i32, replies: &[Reply]) -> (next: Next<
        Result<SocketPair, SocketPairError>,
    >)
        ensures
            replies@.len() == 0 ==> next == Next::<Result<SocketPair, SocketPairError>>::Call(
                Call::SocketPair(domain, type_, protocol),
            ),
            replies@.len() > 0 ==> (match (next, SocketPair::made(replies@[0])) {
                (Next::Done(Ok(pair)), Ok(sv)) => pair.sv@ == sv,
                (Next::Done(Err(e)), Err(f)) => e == f,
                _ => false,
            }),
    {
        if replies.len() == 0 {
            Next::Call(Call::SocketPair(domain, type_, protocol))
        } else {
            match replies[0] {
                Reply::Pair { ret, errno, first, second } => if ret == 0 {
                    Next::Done(Ok(SocketPair { sv: [first, second] }))
                } else {
                    Next::Done(Err(SocketPairError::SocketErrno(errno)))
                },
                _ => Next::Done(Err(SocketPairError::SocketErrno(replies[0].error_number()))),
            }
        }
    }
}

} // verus!
