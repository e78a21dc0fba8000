//! The numbers that differ from one operating system to the next.

use vstd::prelude::*;

verus! {

/// The error number of an interrupted call, `libc::EINTR`. Its value is the
/// target's own, so nothing is claimed of it.
#[verifier::external_body]
fn libc_eintr() -> i32 {
    libc::EINTR
}

/// The wait option that asks not to block, `libc::WNOHANG`. Its value is the
/// target's own, so nothing is claimed of it.
#[verifier::external_body]
fn libc_wnohang() -> i32 {
    libc::WNOHANG
}

/// The pipe flag that makes both ends non-blocking, `libc::O_NONBLOCK`. Its
/// value is the target's own, so nothing is claimed of it.
#[verifier::external_body]
fn libc_o_nonblock() -> i32 {
    libc::O_NONBLOCK
}

/// The socket domain of local sockets, `libc::AF_UNIX`. Its value is the
/// target's own, so nothing is claimed of it.
#[verifier::external_body]
fn libc_af_unix() -> i32 {
    libc::AF_UNIX
}

/// The socket type of byte streams, `libc::SOCK_STREAM`. Its value is the
/// target's own, so nothing is claimed of it.
#[verifier::external_body]
fn libc_sock_stream() -> i32 {
    libc::SOCK_STREAM
}

/// The descriptor of the standard input, `libc::STDIN_FILENO`, which is 0
/// on every target.
#[verifier::external_body]
pub(crate) fn libc_stdin_fileno() -> (fd: i32)
    ensures
        fd == 0,
{
    libc::STDIN_FILENO
}

/// The descriptor of the standard output, `libc::STDOUT_FILENO`, which is 1
/// on every target.
#[verifier::external_body]
pub(crate) fn libc_stdout_fileno() -> (fd: i32)
    ensures
        fd == 1,
{
    libc::STDOUT_FILENO
}

/// The descriptor of the standard error, `libc::STDERR_FILENO`, which is 2
/// on every target.
#[verifier::external_body]
pub(crate) fn libc_stderr_fileno() -> (fd: i32)
    ensures
        fd == 2,
{
    libc::STDERR_FILENO
}

/// The platform's numbers that the engine's decisions depend on.
///
/// The engine is verified for every value of them; [`Platform::native`] reads
/// the ones of the machine it runs on.
#[derive(Clone, Copy, Debug, Eq, Hash, Ord, PartialEq, PartialOrd, Structural)]
pub struct Platform {
    /// Error number of a call that a signal interrupted.
    pub interrupted: i32,
    /// Wait option: return at once when no child has changed state.
    pub no_hang: i32,
    /// Pipe flag: reads and writes do not block.
    pub nonblocking: i32,
    /// Socket domain: sockets of this machine.
    pub local: i32,
    /// Socket type: a stream of bytes.
    pub stream: i32,
}

impl Platform {
    /// The numbers of the target this library was built for.
    pub fn native() -> Platform {
        Platform {
            interrupted: libc_eintr(),
            no_hang: libc_wnohang(),
            nonblocking: libc_o_nonblock(),
            local: libc_af_unix(),
            stream: libc_sock_stream(),
        }
    }
}

} // verus!
