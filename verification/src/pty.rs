//! A child behind a pseudo-terminal.

use crate::call::{Call, Next, Reply};
use vstd::prelude::*;
use vstd::string::StringExecFns;

verus! {

/// The text that `String::from_utf8_lossy` makes of bytes.
pub uninterp spec fn utf8_lossy(bytes: Seq<u8>) -> Seq<char>;

/// `String::from_utf8_lossy`: the text of `bytes`, with the replacement
/// character wherever they are not UTF-8. The result depends on the bytes
/// alone and is not spelled out here.
#[verifier::external_body]
fn lossy_text(bytes: &[u8]) -> (text: String)
    ensures
        text@ == utf8_lossy(bytes@),
{
    String::from_utf8_lossy(bytes).into_owned()
}

/// An interactive shell behind a pseudo-terminal.
#[derive(Debug, Clone)]
pub struct Pty {
    /// The descriptor of the terminal's controlling side.
    pub pty_fd: Option<i32>,
    /// The child.
    pub pid: Option<i32>,
    /// The name of the terminal device, as the system wrote it.
    pub device_name: Option<String>,
    /// The address of the terminal attributes that were asked for, zero for
    /// none.
    pub terminal_attr: usize,
    /// The address of the window size that was asked for, zero for none.
    pub windows_size: usize,
}

/// Why no terminal was made.
#[derive(Debug, Clone, Copy, PartialEq, Eq, Structural)]
pub enum PtyError {
    /// `forkpty` failed with this error number.
    ForkFailed(i32),
    /// No terminal could be allocated.
    CreatePtyFailed(i32),
}

/// What a terminal is, with its name as text.
pub ghost struct PtyView {
    pub pty_fd: Option<i32>,
    pub pid: Option<i32>,
    pub device_name: Option<Seq<char>>,
    pub terminal_attr: usize,
    pub windows_size: usize,
}

impl View for Pty {
    type V = PtyView;

    open spec fn view(&self) -> PtyView {
        PtyView {
            pty_fd: self.pty_fd,
            pid: self.pid,
            device_name: match self.device_name {
                Some(name) => Some(name@),
                None => None,
            },
            terminal_attr: self.terminal_attr,
            windows_size: self.windows_size,
        }
    }
}

impl Pty {
    /// The program that the child becomes and the argument that it is
    /// given.
    pub open spec fn shell() -> Seq<Seq<char>> {
        seq!["/bin/zsh"@, "-i"@]
    }

    /// What the call `Terminal` is made with: the name of the program, then
    /// its argument.
    pub fn shell_command() -> (words: Vec<String>)
        ensures
            words@.len() == 2,
            forall|i: int| 0 <= i < 2 ==> (#[trigger] words@[i])@ == Pty::shell()[i],
    {
        let mut words: Vec<String> = Vec::new();
        words.push(String::from_str("/bin/zsh"));
        words.push(String::from_str("-i"));
        words
    }

    /// The status with which the child ends when it could not become the
    /// shell: what the attempt returned.
    pub open spec fn exit_code(reply: Reply) -> i32 {
        match reply {
            Reply::Status { ret, errno } => ret,
            _ => -1i32,
        }
    }

    /// What making a terminal has come to after the answers `replies`, where
    /// `name` is what the system wrote as the device's name.
    ///
    /// A negative answer to `forkpty` is a failure. Zero is seen by the
    /// child, which becomes the shell, and ends with what that attempt
    /// returned if it returns. A positive answer names the child: the parent
    /// has its terminal.
    pub open spec fn new_next(
        terminal_attr: usize,
        windows_size: usize,
        name: Seq<u8>,
        replies: Seq<Reply>,
    ) -> Next<Result<PtyView, PtyError>> {
        if replies.len() == 0 {
            Next::Call(Call::ForkPty(terminal_attr, windows_size))
        } else {
            match replies[0] {
                Reply::Pty { ret, errno, fd } => if ret < 0 {
                    Next::Done(Err(PtyError::ForkFailed(errno)))
                } else if ret == 0 {
                    if replies.len() == 1 {
                        Next::Call(Call::Terminal)
                    } else {
                        Next::Call(Call::Exit(Pty::exit_code(replies[1])))
                    }
                } else {
                    Next::Done(
                        Ok(
                            PtyView {
                                pty_fd: Some(fd),
                                pid: Some(ret),
                                device_name: Some(utf8_lossy(name)),
                                terminal_attr,
                                windows_size,
                            },
                        ),
                    )
                },
                _ => Next::Done(Err(PtyError::ForkFailed(replies[0].errno()))),
            }
        }
    }

    /// Starts an interactive shell behind a new terminal, one call per step:
    /// `replies` holds the answers to the calls made so far, and `name` the
    /// bytes that `forkpty` wrote as the device's name.
    pub fn new(terminal_attr: usize, windows_size: usize, name: &[u8], replies: &[Reply]) -> (next:
        Next<Result<Pty, PtyError>>)
        ensures
            match Pty::new_next(terminal_attr, windows_size, name@, replies@) {
                Next::Call(call) => next == Next::<Result<Pty, PtyError>>::Call(call),
                Next::Done(Err(error)) => next == Next::<Result<Pty, PtyError>>::Done(Err(error)),
                Next::Done(Ok(view)) => next matches Next::Done(Ok(pty)) && pty@ == view,
            },
    {
        if replies.len() == 0 {
            Next::Call(Call::ForkPty(terminal_attr, windows_size))
        } else {
            match replies[0] {
                Reply::Pty { ret, errno, fd } => if ret < 0 {
                    Next::Done(Err(PtyError::ForkFailed(errno)))
                } else if ret == 0 {
                    if replies.len() == 1 {
                        Next::Call(Call::Terminal)
                    } else {
                        let code: i32 = match replies[1] {
                            Reply::Status { ret, errno } => ret,
                            _ => -1,
                        };
                        Next::Call(Call::Exit(code))
                    }
                } else {
                    Next::Done(
                        Ok(
                            Pty {
                                pty_fd: Some(fd),
                                pid: Some(ret),
                                device_name: Some(lossy_text(name)),
                                terminal_attr,
                                windows_size,
                            },
                        ),
                    )
                },
                _ => Next::Done(Err(PtyError::ForkFailed(replies[0].error_number()))),
            }
        }
    }
}

} // verus!
