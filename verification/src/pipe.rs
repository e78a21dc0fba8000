//! Pipes: a read end and a write end, each open or closed.

use crate::call::{Call, Next, Reply};
use crate::close::Close;
use crate::text::{decimal, push_decimal};
use vstd::prelude::*;
use vstd::string::StringExecFns;

verus! {

/// One side of a pipe.
#[derive(Clone, Copy, Debug, PartialEq, Eq, Structural)]
pub enum PipeSide {
    /// The side that is read from.
    Read,
    /// The side that is written to.
    Write,
}

/// A pipe that its holder owns: the two descriptors, and for each whether
/// the holder still has it open.
///
/// A pipe whose two ends are closed is inert: nothing is left to do with it.
#[derive(Clone, Copy, Debug, Eq, Hash, Ord, PartialEq, PartialOrd, Structural)]
pub struct Pipe {
    /// The descriptor of the read end.
    pub read: i32,
    /// The descriptor of the write end.
    pub write: i32,
    /// Whether the read end is open.
    pub read_open: bool,
    /// Whether the write end is open.
    pub write_open: bool,
}

impl Pipe {
    /// A pipe over two descriptors, read end first, both open.
    pub open spec fn over(read: i32, write: i32) -> Pipe {
        Pipe { read, write, read_open: true, write_open: true }
    }

    /// The pipe that holds nothing.
    pub open spec fn inert() -> Pipe {
        Pipe { read: -1i32, write: -1i32, read_open: false, write_open: false }
    }

    /// Whether the pipe holds no open descriptor.
    pub open spec fn is_inert(self) -> bool {
        !self.read_open && !self.write_open
    }

    /// What an answer to `pipe` or `pipe2` means: a pipe over the two
    /// descriptors unless the return value is negative.
    pub open spec fn made(reply: Reply) -> Option<Pipe> {
        match reply {
            Reply::Pair { ret, errno, first, second } => if ret < 0 {
                None
            } else {
                Some(Pipe::over(first, second))
            },
            _ => None,
        }
    }

    /// What making a pipe with `call` has come to.
    pub open spec fn pipe_next(call: Call, replies: Seq<Reply>) -> Next<Option<Pipe>> {
        if replies.len() == 0 {
            Next::Call(call)
        } else {
            Next::Done(Pipe::made(replies[0]))
        }
    }

    /// The descriptor of `side`.
    pub open spec fn end(self, side: PipeSide) -> i32 {
        match side {
            PipeSide::Read => self.read,
            PipeSide::Write => self.write,
        }
    }

    /// The pipe once `side` is closed.
    pub open spec fn without(self, side: PipeSide) -> Pipe {
        match side {
            PipeSide::Read => Pipe { read_open: false, ..self },
            PipeSide::Write => Pipe { write_open: false, ..self },
        }
    }

    /// The descriptor that closing `side` gives up, if that side is open.
    pub open spec fn given_up(self, side: PipeSide) -> Option<i32> {
        match side {
            PipeSide::Read => if self.read_open {
                Some(self.read)
            } else {
                None
            },
            PipeSide::Write => if self.write_open {
                Some(self.write)
            } else {
                None
            },
        }
    }

    /// The descriptors that the pipe still holds, read end first.
    pub open spec fn held(self) -> Seq<i32> {
        (if self.read_open {
            seq![self.read]
        } else {
            Seq::empty()
        }) + (if self.write_open {
            seq![self.write]
        } else {
            Seq::empty()
        })
    }

    /// The words that describe the pipe.
    pub open spec fn message(self) -> Seq<char> {
        "pipe: | for_read(fd[0]) "@ + decimal(self.read as int) + " <<= for_write(fd[1]) "@
            + decimal(self.write as int) + " |"@
    }

    /// A pipe over the two descriptors that the system wrote, both open.
    pub fn new(fds: &[i32; 2]) -> (p: Pipe)
        ensures
            p == Pipe::over(fds[0], fds[1]),
    {
        Pipe { read: fds[0], write: fds[1], read_open: true, write_open: true }
    }

    /// Reads an answer to `pipe` or `pipe2`.
    pub fn read_reply(reply: &Reply) -> (p: Option<Pipe>)
        ensures
            p == Pipe::made(*reply),
    {
        match reply {
            Reply::Pair { ret, errno, first, second } => if *ret < 0 {
                None
            } else {
                Some(Pipe::new(&[*first, *second]))
            },
            _ => None,
        }
    }

    /// Makes a pipe.
    pub fn pipe(replies: &[Reply]) -> (next: Next<Option<Pipe>>)
        ensures
            next == Pipe::pipe_next(Call::Pipe, replies@),
    {
        if replies.len() == 0 {
            Next::Call(Call::Pipe)
        } else {
            Next::Done(Pipe::read_reply(&replies[0]))
        }
    }

    /// Makes a pipe with the flags `flag`.
    pub fn pipe2(flag: i32, replies: &[Reply]) -> (next: Next<Option<Pipe>>)
        ensures
            next == Pipe::pipe_next(Call::Pipe2(flag), replies@),
    {
        if replies.len() == 0 {
            Next::Call(Call::Pipe2(flag))
        } else {
            Next::Done(Pipe::read_reply(&replies[0]))
        }
    }

    /// The descriptor of `side`: the read end for `Read`, the write end for
    /// `Write`.
    pub fn get(&self, side: PipeSide) -> (fd: i32)
        ensures
            fd == self.end(side),
    {
        match side {
            PipeSide::Read => self.read,
            PipeSide::Write => self.write,
        }
    }

    /// Gives up `side`: returns its descriptor for the caller to close, and
    /// nothing where that side is closed already.
    pub fn close(&mut self, side: PipeSide) -> (fd: Option<i32>)
        ensures
            fd == old(self).given_up(side),
            *final(self) == old(self).without(side),
    {
        match side {
            PipeSide::Read => {
                let was = self.read_open;
                self.read_open = false;
                if was {
                    Some(self.read)
                } else {
                    None
                }
            },
            PipeSide::Write => {
                let was = self.write_open;
                self.write_open = false;
                if was {
                    Some(self.write)
                } else {
                    None
                }
            },
        }
    }

    /// Closes what the pipe still holds, read end first, one call per step.
    pub fn release(&self, replies: &[Reply]) -> (next: Next<Result<(), Close>>)
        ensures
            next == Close::close_next(self.held(), replies@),
    {
        let mut fds: Vec<i32> = Vec::new();
        if self.read_open {
            fds.push(self.read);
        }
        if self.write_open {
            fds.push(self.write);
        }
        assert(fds@ == self.held());
        Close::close(fds.as_slice(), replies)
    }

    /// The pipe in words.
    pub fn to_string(&self) -> (s: String)
        ensures
            s@ == self.message(),
    {
        let mut s = String::from_str("pipe: | for_read(fd[0]) ");
        push_decimal(&mut s, self.read);
        s.append(" <<= for_write(fd[1]) ");
        push_decimal(&mut s, self.write);
        s.append(" |");
        s
    }
}

} // verus!
