//! A subprocess engine without I/O of its own.
//!
//! Given a shell command, the engine starts a child whose standard input,
//! output and error run through three pipes, hands its caller a handle with
//! the three streams and the child's identity, and on release closes the
//! streams and collects the child's status.
//!
//! The library decides; its caller acts. Every operation that needs the
//! operating system is resumable: given the answers to the calls made so far
//! it names the next system call as a [`Call`], or says that it is done and
//! with what result. The caller makes the calls and hands back each answer
//! as a [`Reply`]. What an operation does is therefore a function of the
//! answers alone, and is stated and proved as such.
//!
//! - [`call`]: the calls, the answers, and runs of calls that stop at the
//!   first failure.
//! - [`close`], [`dup`], [`fork`], [`pipe`], [`socket_pair`], [`wait`],
//!   [`pty`]: one operation of the system each, with its typed result.
//! - [`wiring`]: the start of a child, stage by stage, in the parent and in
//!   the child.
//! - [`popen`]: the handle, its start and its release.
//! - [`laws`]: what holds of every start, whatever the system answers.
//! - [`reaping`]: what holds of every release, whatever the system answers.
//! - [`course`]: the answers on which a start succeeds, and the calls that
//!   it makes on the way.
//! - [`table`]: a model of the system's descriptor table, and what the
//!   engine's calls come to in it.
//! - [`error`], [`text`], [`platform`]: the failures and their words, decimal
//!   text, and the numbers that differ between systems.

pub mod call;
pub mod close;
pub mod course;
pub mod dup;
pub mod error;
pub mod fork;
pub mod laws;
pub mod pipe;
pub mod platform;
pub mod popen;
pub mod pty;
pub mod reaping;
pub mod socket_pair;
pub mod table;
pub mod text;
pub mod wait;
pub mod wiring;

pub use call::{Call, Mode, Next, Reply};
pub use close::Close;
pub use dup::{Dup, DupError};
pub use error::PopenError;
pub use fork::{Fork, ForkPid};
pub use pipe::{Pipe, PipeSide};
pub use platform::Platform;
pub use popen::{socket_pipe, Notes, Phase, Popen, Reap, Release};
pub use pty::{Pty, PtyError};
pub use socket_pair::{SocketPair, SocketPairError};
pub use wait::Wait;
pub use wiring::{
    End, Stage, Wiring, CLOSE_FAILED, COMMAND_REFUSED, DUPLICATION_FAILED, REPLACEMENT_FAILED,
};
