//! Starting a child behind three pipes, one system call at a time.
//!
//! A [`Wiring`] is the state of one attempt: the stage it is in, the three
//! pipes with what is still open of them, and the streams made so far. Its
//! next call is [`Wiring::pending`]; the answer to that call takes it to
//! [`Wiring::fed`]. After `fork` the attempt goes on in two processes, each
//! with its own copy of the state and its own answers.

use crate::call::{Call, Mode, Reply};
use crate::close::Close;
use crate::error::PopenError;
use crate::fork::{Fork, ForkPid};
use crate::pipe::{Pipe, PipeSide};
use crate::platform::{libc_stderr_fileno, libc_stdin_fileno, libc_stdout_fileno, Platform};
use crate::wait::Wait;
use vstd::prelude::*;

verus! {

/// The status with which a child ends that could not bring one of its ends
/// onto a standard stream.
pub const DUPLICATION_FAILED: i32 = 101;

/// The status with which a child ends that could not close a descriptor of
/// the pipes.
pub const CLOSE_FAILED: i32 = 102;

/// The status with which a child ends whose command cannot be handed to the
/// shell.
pub const COMMAND_REFUSED: i32 = 103;

/// The status with which a child ends that could not become the shell, where
/// what the attempt returned cannot serve: its status byte is zero, which
/// reads as success, or is that of an earlier step.
pub const REPLACEMENT_FAILED: i32 = 104;

/// What the parent sees of the status with which a child ends: its lowest
/// eight bits.
pub open spec fn status_byte(code: i32) -> i32 {
    code & 0xff
}

/// The status with which a child ends that could not become the shell: what
/// the attempt returned, unless the parent could not tell that from success
/// or from the failure of an earlier step.
pub open spec fn replacement_status(ret: i32) -> i32 {
    if status_byte(ret) == 0 || status_byte(ret) == DUPLICATION_FAILED || status_byte(ret)
        == CLOSE_FAILED || status_byte(ret) == COMMAND_REFUSED {
        REPLACEMENT_FAILED
    } else {
        ret
    }
}

/// The status with which a child ends that could not become the shell.
pub fn status_of_replacement(ret: i32) -> (code: i32)
    ensures
        code == replacement_status(ret),
{
    let byte: i32 = ret & 0xff;
    if byte == 0 || byte == DUPLICATION_FAILED || byte == CLOSE_FAILED || byte == COMMAND_REFUSED {
        REPLACEMENT_FAILED
    } else {
        ret
    }
}

/// One of the six ends of the three pipes.
#[derive(Clone, Copy, Debug, PartialEq, Eq, Structural)]
pub enum End {
    /// The read end of the input pipe: the child's standard input.
    InputRead,
    /// The write end of the input pipe: the parent writes to it.
    InputWrite,
    /// The read end of the output pipe: the parent reads from it.
    OutputRead,
    /// The write end of the output pipe: the child's standard output.
    OutputWrite,
    /// The read end of the error pipe: the parent reads from it.
    ErrorRead,
    /// The write end of the error pipe: the child's standard error.
    ErrorWrite,
}

/// Where an attempt stands.
#[derive(Clone, Copy, Debug, PartialEq, Eq, Structural)]
pub enum Stage {
    /// Making the pipes; the number tells how many are made.
    Piping(u8),
    /// About to split.
    Splitting,
    /// In the parent: closing the ends that belong to the child.
    ParentClosing,
    /// In the parent: wrapping the ends it keeps in streams.
    ParentWrapping,
    /// In the child: bringing its ends onto the standard streams; the
    /// number tells how many are in place.
    ChildDuplicating(u8),
    /// In the child: closing every descriptor of the pipes that is not a
    /// standard stream.
    ChildClosing,
    /// In the child: about to become the shell.
    ChildReplacing,
    /// In the child: ending with this status.
    ChildExiting(i32),
    /// Giving back whatever is still held, and then waiting for the child if
    /// there is one, before failing with this error.
    Unwinding(PopenError),
    /// The parent holds a child and its three streams.
    Ready,
    /// The attempt failed: nothing of it is held any more, and no child is
    /// left that was not waited for.
    Failed(PopenError),
}

/// The state of one attempt to start a child.
#[derive(Clone, Copy, Debug, PartialEq, Eq, Structural)]
pub struct Wiring {
    /// Where the attempt stands.
    pub stage: Stage,
    /// The pipe that becomes the child's standard input.
    pub input: Pipe,
    /// The pipe that becomes the child's standard output.
    pub output: Pipe,
    /// The pipe that becomes the child's standard error.
    pub error: Pipe,
    /// The stream over the input pipe's write end, zero while there is none.
    pub stdin: usize,
    /// The stream over the output pipe's read end, zero while there is none.
    pub stdout: usize,
    /// The stream over the error pipe's read end, zero while there is none.
    pub stderr: usize,
    /// The child that the parent has and has not waited for.
    pub pid: Option<i32>,
    /// The first failure to give something back that the attempt went past.
    pub noted: Option<Close>,
    /// The numbers of the platform.
    pub platform: Platform,
    /// Whether the command can be handed to the shell: it holds no zero byte.
    pub sendable: bool,
}

impl End {
    /// The standard stream that a child's end is brought onto.
    pub open spec fn slot(self) -> i32 {
        match self {
            End::InputRead => 0,
            End::OutputWrite => 1,
            _ => 2,
        }
    }

    /// The mode of the stream that the parent makes over an end.
    pub open spec fn mode(self) -> Mode {
        match self {
            End::InputWrite => Mode::Write,
            _ => Mode::Read,
        }
    }
}

/// Whether a descriptor is one of the three standard streams: 0, 1 and 2.
pub open spec fn is_slot(fd: i32) -> bool {
    0 <= fd <= 2
}

/// The child's end that is brought onto standard stream `k`.
pub open spec fn childs_end(k: u8) -> End {
    if k == 0 {
        End::InputRead
    } else if k == 1 {
        End::OutputWrite
    } else {
        End::ErrorWrite
    }
}

impl Wiring {
    /// An attempt that has not made any call yet.
    pub open spec fn start(platform: Platform, sendable: bool) -> Wiring {
        Wiring {
            stage: Stage::Piping(0),
            input: Pipe::inert(),
            output: Pipe::inert(),
            error: Pipe::inert(),
            stdin: 0,
            stdout: 0,
            stderr: 0,
            pid: None,
            noted: None,
            platform,
            sendable,
        }
    }

    /// The descriptor of an end.
    pub open spec fn fd(self, end: End) -> i32 {
        match end {
            End::InputRead => self.input.read,
            End::InputWrite => self.input.write,
            End::OutputRead => self.output.read,
            End::OutputWrite => self.output.write,
            End::ErrorRead => self.error.read,
            End::ErrorWrite => self.error.write,
        }
    }

    /// Whether this process holds an end open as a descriptor.
    pub open spec fn is_open(self, end: End) -> bool {
        match end {
            End::InputRead => self.input.read_open,
            End::InputWrite => self.input.write_open,
            End::OutputRead => self.output.read_open,
            End::OutputWrite => self.output.write_open,
            End::ErrorRead => self.error.read_open,
            End::ErrorWrite => self.error.write_open,
        }
    }

    /// The state once an end is no longer held as a descriptor.
    pub open spec fn without(self, end: End) -> Wiring {
        match end {
            End::InputRead => Wiring { input: self.input.without(PipeSide::Read), ..self },
            End::InputWrite => Wiring { input: self.input.without(PipeSide::Write), ..self },
            End::OutputRead => Wiring { output: self.output.without(PipeSide::Read), ..self },
            End::OutputWrite => Wiring { output: self.output.without(PipeSide::Write), ..self },
            End::ErrorRead => Wiring { error: self.error.without(PipeSide::Read), ..self },
            End::ErrorWrite => Wiring { error: self.error.without(PipeSide::Write), ..self },
        }
    }

    /// The state once pipe number `k` is made.
    pub open spec fn with_pipe(self, k: u8, pipe: Pipe) -> Wiring {
        if k == 0 {
            Wiring { input: pipe, ..self }
        } else if k == 1 {
            Wiring { output: pipe, ..self }
        } else {
            Wiring { error: pipe, ..self }
        }
    }

    /// The first of the child's ends that is still open here.
    pub open spec fn child_end(self) -> Option<End> {
        if self.is_open(End::InputRead) {
            Some(End::InputRead)
        } else if self.is_open(End::OutputWrite) {
            Some(End::OutputWrite)
        } else if self.is_open(End::ErrorWrite) {
            Some(End::ErrorWrite)
        } else {
            None
        }
    }

    /// The first of the parent's ends that is still a bare descriptor.
    pub open spec fn kept_end(self) -> Option<End> {
        if self.is_open(End::InputWrite) {
            Some(End::InputWrite)
        } else if self.is_open(End::OutputRead) {
            Some(End::OutputRead)
        } else if self.is_open(End::ErrorRead) {
            Some(End::ErrorRead)
        } else {
            None
        }
    }

    /// The first end, input pipe first and read end first, that is open and
    /// that `wanted` admits.
    pub open spec fn first_open(self, wanted: spec_fn(i32) -> bool) -> Option<End> {
        if self.is_open(End::InputRead) && wanted(self.fd(End::InputRead)) {
            Some(End::InputRead)
        } else if self.is_open(End::InputWrite) && wanted(self.fd(End::InputWrite)) {
            Some(End::InputWrite)
        } else if self.is_open(End::OutputRead) && wanted(self.fd(End::OutputRead)) {
            Some(End::OutputRead)
        } else if self.is_open(End::OutputWrite) && wanted(self.fd(End::OutputWrite)) {
            Some(End::OutputWrite)
        } else if self.is_open(End::ErrorRead) && wanted(self.fd(End::ErrorRead)) {
            Some(End::ErrorRead)
        } else if self.is_open(End::ErrorWrite) && wanted(self.fd(End::ErrorWrite)) {
            Some(End::ErrorWrite)
        } else {
            None
        }
    }

    /// The first end that is still open.
    pub open spec fn open_end(self) -> Option<End> {
        self.first_open(|fd: i32| true)
    }

    /// The first end that is still open under a number that is not a
    /// standard stream.
    pub open spec fn stray_end(self) -> Option<End> {
        self.first_open(|fd: i32| !is_slot(fd))
    }

    /// The first stream that is still held.
    pub open spec fn stream(self) -> Option<usize> {
        if self.stdin != 0 {
            Some(self.stdin)
        } else if self.stdout != 0 {
            Some(self.stdout)
        } else if self.stderr != 0 {
            Some(self.stderr)
        } else {
            None
        }
    }

    /// The state once the first stream is given back.
    pub open spec fn without_stream(self) -> Wiring {
        if self.stdin != 0 {
            Wiring { stdin: 0, ..self }
        } else if self.stdout != 0 {
            Wiring { stdout: 0, ..self }
        } else {
            Wiring { stderr: 0, ..self }
        }
    }

    /// The state once one of the parent's ends has passed into a stream.
    pub open spec fn wrapped(self, end: End, handle: usize) -> Wiring {
        match end {
            End::InputWrite => Wiring { stdin: handle, ..self.without(end) },
            End::OutputRead => Wiring { stdout: handle, ..self.without(end) },
            _ => Wiring { stderr: handle, ..self.without(end) },
        }
    }

    /// The state with a failure to give something back noted, unless one is
    /// noted already.
    pub open spec fn noting(self, failure: Close) -> Wiring {
        match self.noted {
            Some(_) => self,
            None => Wiring { noted: Some(failure), ..self },
        }
    }

    /// Whether this process holds nothing of the attempt: no end of a pipe
    /// and no stream.
    pub open spec fn holds_nothing(self) -> bool {
        self.input.is_inert() && self.output.is_inert() && self.error.is_inert() && self.stdin == 0
            && self.stdout == 0 && self.stderr == 0
    }

    /// The state in stage `stage`.
    pub open spec fn at(self, stage: Stage) -> Wiring {
        Wiring { stage, ..self }
    }

    /// One step past a stage in which nothing is left to do; any other
    /// state as it is.
    pub open spec fn advanced(self) -> Wiring {
        match self.stage {
            Stage::ParentClosing => if self.child_end() is None {
                self.at(Stage::ParentWrapping)
            } else {
                self
            },
            Stage::ParentWrapping => if self.kept_end() is None {
                self.at(Stage::Ready)
            } else {
                self
            },
            Stage::ChildDuplicating(k) => if k >= 3 {
                self.at(Stage::ChildClosing)
            } else if self.fd(childs_end(k)) == childs_end(k).slot() {
                self.at(Stage::ChildDuplicating((k + 1) as u8))
            } else {
                self
            },
            Stage::ChildClosing => if self.stray_end() is None {
                self.at(Stage::ChildReplacing)
            } else {
                self
            },
            Stage::ChildReplacing => if !self.sendable {
                self.at(Stage::ChildExiting(COMMAND_REFUSED))
            } else {
                self
            },
            Stage::Unwinding(error) => if self.stream() is None && self.open_end() is None
                && self.pid is None {
                self.at(Stage::Failed(error))
            } else {
                self
            },
            _ => self,
        }
    }

    /// The state brought to the first stage in which something is left to
    /// do. No stage is more than six steps from one.
    #[verifier::opaque]
    pub open spec fn settled(self) -> Wiring {
        self.advanced().advanced().advanced().advanced().advanced().advanced()
    }

    /// The state that gives back what is held and then fails with `error`.
    pub open spec fn unwinding(self, error: PopenError) -> Wiring {
        self.at(Stage::Unwinding(error)).settled()
    }

    /// The call that the attempt waits for, if it is not over.
    pub open spec fn pending(self) -> Option<Call> {
        match self.stage {
            Stage::Piping(k) => Some(
                if k < 2 {
                    Call::Pipe
                } else {
                    Call::Pipe2(self.platform.nonblocking)
                },
            ),
            Stage::Splitting => Some(Call::Fork),
            Stage::ParentClosing => match self.child_end() {
                Some(end) => Some(Call::Close(self.fd(end))),
                None => None,
            },
            Stage::ParentWrapping => match self.kept_end() {
                Some(end) => Some(Call::FdOpen(self.fd(end), end.mode())),
                None => None,
            },
            Stage::ChildDuplicating(k) => Some(
                Call::Dup2(self.fd(childs_end(k)), childs_end(k).slot()),
            ),
            Stage::ChildClosing => match self.stray_end() {
                Some(end) => Some(Call::Close(self.fd(end))),
                None => None,
            },
            Stage::ChildReplacing => Some(Call::Shell),
            Stage::ChildExiting(code) => Some(Call::Exit(code)),
            Stage::Unwinding(_) => match self.stream() {
                Some(handle) => Some(Call::FClose(handle)),
                None => match self.open_end() {
                    Some(end) => Some(Call::Close(self.fd(end))),
                    None => match self.pid {
                        Some(pid) => Some(Call::WaitPid(pid, 0)),
                        None => None,
                    },
                },
            },
            Stage::Ready | Stage::Failed(_) => None,
        }
    }

    /// Whether an answer to the wait says that a signal interrupted it.
    pub open spec fn interrupted(self, reply: Reply) -> bool {
        Wait::collected(reply) == Err::<(i32, i32), Wait>(
            Wait::WaitFailure(self.platform.interrupted),
        )
    }

    /// The state once the child is waited for.
    pub open spec fn reaped(self) -> Wiring {
        Wiring { pid: None, ..self }
    }

    /// The state after the pending call was answered with `reply`.
    ///
    /// A pipe that cannot be made, a split that fails, a child's end that
    /// the parent cannot close and an end that cannot be wrapped each start
    /// the unwinding. While unwinding every answer is taken as it comes: a
    /// failure is noted and the next thing is given back. Once nothing is
    /// held, a parent that has a child waits for it, again and again while
    /// the wait is interrupted, so that no child is left behind; only then
    /// has the attempt failed. In the child a failure ends the process, with
    /// a status that tells the step.
    pub open spec fn fed(self, reply: Reply) -> Wiring {
        match self.stage {
            Stage::Piping(k) => match Pipe::made(reply) {
                Some(pipe) => self.with_pipe(k, pipe).at(
                    if k >= 2 {
                        Stage::Splitting
                    } else {
                        Stage::Piping((k + 1) as u8)
                    },
                ),
                None => self.unwinding(PopenError::PipeCreateFailed),
            },
            Stage::Splitting => match Fork::side(reply) {
                ForkPid::Parent((_, child)) => Wiring {
                    pid: Some(child),
                    ..self
                }.at(Stage::ParentClosing).settled(),
                ForkPid::Children(_) => self.at(Stage::ChildDuplicating(0)).settled(),
                ForkPid::Failed(errno) => self.unwinding(PopenError::ForkFailed(errno)),
            },
            Stage::ParentClosing => match self.child_end() {
                Some(end) => if Call::Close(self.fd(end)).succeeded(reply) {
                    self.without(end).settled()
                } else {
                    self.without(end).unwinding(
                        PopenError::CloseError(Close::CloseErrno(reply.errno())),
                    )
                },
                None => self.settled(),
            },
            Stage::ParentWrapping => match self.kept_end() {
                Some(end) => match reply {
                    Reply::Stream { handle, errno } => if handle != 0 {
                        self.wrapped(end, handle).settled()
                    } else {
                        self.unwinding(PopenError::FdOpenErrno(errno))
                    },
                    _ => self.unwinding(PopenError::FdOpenErrno(reply.errno())),
                },
                None => self.settled(),
            },
            Stage::ChildDuplicating(k) => if Call::Dup2(
                self.fd(childs_end(k)),
                childs_end(k).slot(),
            ).succeeded(reply) {
                self.at(
                    if k >= 3 {
                        Stage::ChildClosing
                    } else {
                        Stage::ChildDuplicating((k + 1) as u8)
                    },
                ).settled()
            } else {
                self.at(Stage::ChildExiting(DUPLICATION_FAILED))
            },
            Stage::ChildClosing => match self.stray_end() {
                Some(end) => if Call::Close(self.fd(end)).succeeded(reply) {
                    self.without(end).settled()
                } else {
                    self.without(end).at(Stage::ChildExiting(CLOSE_FAILED))
                },
                None => self.settled(),
            },
            Stage::ChildReplacing => match reply {
                Reply::Status { ret, errno } => self.at(
                    Stage::ChildExiting(replacement_status(ret)),
                ),
                _ => self.at(Stage::ChildExiting(REPLACEMENT_FAILED)),
            },
            Stage::ChildExiting(_) => self,
            Stage::Unwinding(_) => match self.stream() {
                Some(handle) => if Call::FClose(handle).succeeded(reply) {
                    self.without_stream().settled()
                } else {
                    self.without_stream().noting(Close::FCloseErrno(reply.errno())).settled()
                },
                None => match self.open_end() {
                    Some(end) => if Call::Close(self.fd(end)).succeeded(reply) {
                        self.without(end).settled()
                    } else {
                        self.without(end).noting(Close::CloseErrno(reply.errno())).settled()
                    },
                    None => match self.pid {
                        Some(_) => if self.interrupted(reply) {
                            self
                        } else {
                            self.reaped().settled()
                        },
                        None => self.settled(),
                    },
                },
            },
            Stage::Ready | Stage::Failed(_) => self,
        }
    }

    /// The state after the answers `replies`, each to the call that was
    /// pending at its turn.
    pub open spec fn after(self, replies: Seq<Reply>) -> Wiring
        decreases replies.len(),
    {
        if replies.len() == 0 {
            self
        } else {
            self.after(replies.drop_last()).fed(replies.last())
        }
    }
}

impl Wiring {
    /// Whether the attempt is over.
    pub open spec fn is_over(self) -> bool {
        self.stage is Ready || self.stage is Failed
    }

    /// Whether something is left to do unless the attempt is over.
    pub open spec fn live(self) -> bool {
        !self.is_over() ==> self.pending() is Some
    }

    /// How many steps a state may be from a stage in which something is
    /// left to do.
    pub open spec fn rank(self) -> nat {
        match self.stage {
            Stage::ParentClosing => 2,
            Stage::ParentWrapping => 1,
            Stage::ChildDuplicating(k) => if k >= 3 {
                3
            } else {
                (6 - k) as nat
            },
            Stage::ChildClosing => 2,
            Stage::ChildReplacing => 1,
            Stage::Unwinding(_) => 1,
            _ => 0,
        }
    }

    /// Whether a step changes nothing.
    pub open spec fn is_stable(self) -> bool {
        self.advanced() == self
    }

    /// A step changes nothing or brings the state nearer to a stage in which
    /// something is left to do.
    pub proof fn lemma_advanced(self)
        ensures
            self.is_stable() || self.advanced().rank() < self.rank(),
            self.rank() <= 6,
            self.rank() == 0 ==> self.is_stable(),
            self.is_stable() ==> self.live(),
    {
    }

    /// A settled state is one that no step changes, with something left to do
    /// unless the attempt is over.
    pub proof fn lemma_settled(self)
        ensures
            self.settled().is_stable(),
            self.settled().live(),
            self.is_stable() ==> self.settled() == self,
            self.settled().input == self.input,
            self.settled().output == self.output,
            self.settled().error == self.error,
            self.settled().stdin == self.stdin,
            self.settled().stdout == self.stdout,
            self.settled().stderr == self.stderr,
            self.settled().pid == self.pid,
            self.settled().noted == self.noted,
            self.settled().platform == self.platform,
            self.settled().sendable == self.sendable,
    {
        reveal(Wiring::settled);
        let w1 = self.advanced();
        let w2 = w1.advanced();
        let w3 = w2.advanced();
        let w4 = w3.advanced();
        let w5 = w4.advanced();
        let w6 = w5.advanced();
        self.lemma_advanced();
        w1.lemma_advanced();
        w2.lemma_advanced();
        w3.lemma_advanced();
        w4.lemma_advanced();
        w5.lemma_advanced();
        w6.lemma_advanced();
        assert(w6 == self.settled());
    }

    /// An answer never brings an attempt to a halt.
    pub proof fn lemma_fed_live(self, reply: Reply)
        ensures
            self.fed(reply).live(),
    {
        assert forall|w: Wiring| #[trigger] w.settled().live() by {
            w.lemma_settled();
        }
    }

    /// No answers bring an attempt to a halt.
    pub proof fn lemma_after_live(self, replies: Seq<Reply>)
        requires
            self.live(),
        ensures
            self.after(replies).live(),
        decreases replies.len(),
    {
        if replies.len() > 0 {
            self.lemma_after_live(replies.drop_last());
            self.after(replies.drop_last()).lemma_fed_live(replies.last());
        }
    }
}

impl End {
    /// The standard stream that a child's end is brought onto.
    pub fn slot_number(&self) -> (fd: i32)
        ensures
            fd == self.slot(),
    {
        match self {
            End::InputRead => libc_stdin_fileno(),
            End::OutputWrite => libc_stdout_fileno(),
            _ => libc_stderr_fileno(),
        }
    }

    /// The mode of the stream that the parent makes over an end.
    pub fn stream_mode(&self) -> (mode: Mode)
        ensures
            mode == self.mode(),
    {
        match self {
            End::InputWrite => Mode::Write,
            _ => Mode::Read,
        }
    }
}

/// The child's end that is brought onto standard stream `k`.
pub fn end_for_slot(k: u8) -> (end: End)
    ensures
        end == childs_end(k),
{
    if k == 0 {
        End::InputRead
    } else if k == 1 {
        End::OutputWrite
    } else {
        End::ErrorWrite
    }
}

impl Wiring {
    /// An attempt that has not made any call yet.
    pub fn new(platform: Platform, sendable: bool) -> (w: Wiring)
        ensures
            w == Wiring::start(platform, sendable),
    {
        let inert = Pipe { read: -1, write: -1, read_open: false, write_open: false };
        Wiring {
            stage: Stage::Piping(0),
            input: inert,
            output: inert,
            error: inert,
            stdin: 0,
            stdout: 0,
            stderr: 0,
            pid: None,
            noted: None,
            platform,
            sendable,
        }
    }

    /// The descriptor of an end.
    pub fn descriptor(&self, end: End) -> (fd: i32)
        ensures
            fd == self.fd(end),
    {
        match end {
            End::InputRead => self.input.read,
            End::InputWrite => self.input.write,
            End::OutputRead => self.output.read,
            End::OutputWrite => self.output.write,
            End::ErrorRead => self.error.read,
            End::ErrorWrite => self.error.write,
        }
    }

    /// Whether this process holds an end open as a descriptor.
    pub fn holds(&self, end: End) -> (open: bool)
        ensures
            open == self.is_open(end),
    {
        match end {
            End::InputRead => self.input.read_open,
            End::InputWrite => self.input.write_open,
            End::OutputRead => self.output.read_open,
            End::OutputWrite => self.output.write_open,
            End::ErrorRead => self.error.read_open,
            End::ErrorWrite => self.error.write_open,
        }
    }

    fn drop_end(self, end: End) -> (w: Wiring)
        ensures
            w == self.without(end),
    {
        let mut w = self;
        match end {
            End::InputRead => {
                w.input.read_open = false;
            },
            End::InputWrite => {
                w.input.write_open = false;
            },
            End::OutputRead => {
                w.output.read_open = false;
            },
            End::OutputWrite => {
                w.output.write_open = false;
            },
            End::ErrorRead => {
                w.error.read_open = false;
            },
            End::ErrorWrite => {
                w.error.write_open = false;
            },
        }
        w
    }

    fn find_child_end(&self) -> (end: Option<End>)
        ensures
            end == self.child_end(),
    {
        if self.input.read_open {
            Some(End::InputRead)
        } else if self.output.write_open {
            Some(End::OutputWrite)
        } else if self.error.write_open {
            Some(End::ErrorWrite)
        } else {
            None
        }
    }

    fn find_kept_end(&self) -> (end: Option<End>)
        ensures
            end == self.kept_end(),
    {
        if self.input.write_open {
            Some(End::InputWrite)
        } else if self.output.read_open {
            Some(End::OutputRead)
        } else if self.error.read_open {
            Some(End::ErrorRead)
        } else {
            None
        }
    }

    fn find_open_end(&self) -> (end: Option<End>)
        ensures
            end == self.open_end(),
    {
        if self.input.read_open {
            Some(End::InputRead)
        } else if self.input.write_open {
            Some(End::InputWrite)
        } else if self.output.read_open {
            Some(End::OutputRead)
        } else if self.output.write_open {
            Some(End::OutputWrite)
        } else if self.error.read_open {
            Some(End::ErrorRead)
        } else if self.error.write_open {
            Some(End::ErrorWrite)
        } else {
            None
        }
    }

    fn find_stray_end(&self) -> (end: Option<End>)
        ensures
            end == self.stray_end(),
    {
        if self.input.read_open && !in_slots(self.input.read) {
            Some(End::InputRead)
        } else if self.input.write_open && !in_slots(self.input.write) {
            Some(End::InputWrite)
        } else if self.output.read_open && !in_slots(self.output.read) {
            Some(End::OutputRead)
        } else if self.output.write_open && !in_slots(self.output.write) {
            Some(End::OutputWrite)
        } else if self.error.read_open && !in_slots(self.error.read) {
            Some(End::ErrorRead)
        } else if self.error.write_open && !in_slots(self.error.write) {
            Some(End::ErrorWrite)
        } else {
            None
        }
    }

    fn find_stream(&self) -> (handle: Option<usize>)
        ensures
            handle == self.stream(),
    {
        if self.stdin != 0 {
            Some(self.stdin)
        } else if self.stdout != 0 {
            Some(self.stdout)
        } else if self.stderr != 0 {
            Some(self.stderr)
        } else {
            None
        }
    }

    fn drop_stream(self) -> (w: Wiring)
        ensures
            w == self.without_stream(),
    {
        let mut w = self;
        if self.stdin != 0 {
            w.stdin = 0;
        } else if self.stdout != 0 {
            w.stdout = 0;
        } else {
            w.stderr = 0;
        }
        w
    }

    fn wrap(self, end: End, handle: usize) -> (w: Wiring)
        ensures
            w == self.wrapped(end, handle),
    {
        let mut w = self.drop_end(end);
        match end {
            End::InputWrite => {
                w.stdin = handle;
            },
            End::OutputRead => {
                w.stdout = handle;
            },
            _ => {
                w.stderr = handle;
            },
        }
        w
    }

    fn note(self, failure: Close) -> (w: Wiring)
        ensures
            w == self.noting(failure),
    {
        let mut w = self;
        match self.noted {
            Some(_) => {},
            None => {
                w.noted = Some(failure);
            },
        }
        w
    }

    fn to_stage(self, stage: Stage) -> (w: Wiring)
        ensures
            w == self.at(stage),
    {
        let mut w = self;
        w.stage = stage;
        w
    }

    fn advance(self) -> (w: Wiring)
        ensures
            w == self.advanced(),
    {
        match self.stage {
            Stage::ParentClosing => match self.find_child_end() {
                None => self.to_stage(Stage::ParentWrapping),
                Some(_) => self,
            },
            Stage::ParentWrapping => match self.find_kept_end() {
                None => self.to_stage(Stage::Ready),
                Some(_) => self,
            },
            Stage::ChildDuplicating(k) => if k >= 3 {
                self.to_stage(Stage::ChildClosing)
            } else if self.descriptor(end_for_slot(k)) == end_for_slot(k).slot_number() {
                self.to_stage(Stage::ChildDuplicating(k + 1))
            } else {
                self
            },
            Stage::ChildClosing => match self.find_stray_end() {
                None => self.to_stage(Stage::ChildReplacing),
                Some(_) => self,
            },
            Stage::ChildReplacing => if !self.sendable {
                self.to_stage(Stage::ChildExiting(COMMAND_REFUSED))
            } else {
                self
            },
            Stage::Unwinding(error) => {
                let stream = self.find_stream();
                let end = self.find_open_end();
                if stream.is_none() && end.is_none() && self.pid.is_none() {
                    self.to_stage(Stage::Failed(error))
                } else {
                    self
                }
            },
            _ => self,
        }
    }

    fn settle(self) -> (w: Wiring)
        ensures
            w == self.settled(),
    {
        reveal(Wiring::settled);
        self.advance().advance().advance().advance().advance().advance()
    }

    fn unwind(self, error: PopenError) -> (w: Wiring)
        ensures
            w == self.unwinding(error),
    {
        self.to_stage(Stage::Unwinding(error)).settle()
    }

    /// The call that the attempt waits for, if it is not over.
    pub fn next_call(&self) -> (call: Option<Call>)
        ensures
            call == self.pending(),
    {
        match self.stage {
            Stage::Piping(k) => Some(
                if k < 2 {
                    Call::Pipe
                } else {
                    Call::Pipe2(self.platform.nonblocking)
                },
            ),
            Stage::Splitting => Some(Call::Fork),
            Stage::ParentClosing => match self.find_child_end() {
                Some(end) => Some(Call::Close(self.descriptor(end))),
                None => None,
            },
            Stage::ParentWrapping => match self.find_kept_end() {
                Some(end) => Some(Call::FdOpen(self.descriptor(end), end.stream_mode())),
                None => None,
            },
            Stage::ChildDuplicating(k) => {
                let end = end_for_slot(k);
                Some(Call::Dup2(self.descriptor(end), end.slot_number()))
            },
            Stage::ChildClosing => match self.find_stray_end() {
                Some(end) => Some(Call::Close(self.descriptor(end))),
                None => None,
            },
            Stage::ChildReplacing => Some(Call::Shell),
            Stage::ChildExiting(code) => Some(Call::Exit(code)),
            Stage::Unwinding(_) => match self.find_stream() {
                Some(handle) => Some(Call::FClose(handle)),
                None => match self.find_open_end() {
                    Some(end) => Some(Call::Close(self.descriptor(end))),
                    None => match self.pid {
                        Some(pid) => Some(Call::WaitPid(pid, 0)),
                        None => None,
                    },
                },
            },
            Stage::Ready | Stage::Failed(_) => None,
        }
    }

    /// Takes the answer to the pending call.
    pub fn feed(self, reply: &Reply) -> (w: Wiring)
        ensures
            w == self.fed(*reply),
    {
        match self.stage {
            Stage::Piping(k) => match Pipe::read_reply(reply) {
                Some(pipe) => {
                    let mut w = self;
                    if k == 0 {
                        w.input = pipe;
                    } else if k == 1 {
                        w.output = pipe;
                    } else {
                        w.error = pipe;
                    }
                    if k >= 2 {
                        w.to_stage(Stage::Splitting)
                    } else {
                        w.to_stage(Stage::Piping(k + 1))
                    }
                },
                None => self.unwind(PopenError::PipeCreateFailed),
            },
            Stage::Splitting => match Fork::read(reply) {
                ForkPid::Parent((_, child)) => {
                    let mut w = self;
                    w.pid = Some(child);
                    w.to_stage(Stage::ParentClosing).settle()
                },
                ForkPid::Children(_) => self.to_stage(Stage::ChildDuplicating(0)).settle(),
                ForkPid::Failed(errno) => self.unwind(PopenError::ForkFailed(errno)),
            },
            Stage::ParentClosing => match self.find_child_end() {
                Some(end) => if Call::Close(self.descriptor(end)).succeeded_by(reply) {
                    self.drop_end(end).settle()
                } else {
                    self.drop_end(end).unwind(
                        PopenError::CloseError(Close::CloseErrno(reply.error_number())),
                    )
                },
                None => self.settle(),
            },
            Stage::ParentWrapping => match self.find_kept_end() {
                Some(end) => match reply {
                    Reply::Stream { handle, errno } => if *handle != 0 {
                        self.wrap(end, *handle).settle()
                    } else {
                        self.unwind(PopenError::FdOpenErrno(*errno))
                    },
                    _ => self.unwind(PopenError::FdOpenErrno(reply.error_number())),
                },
                None => self.settle(),
            },
            Stage::ChildDuplicating(k) => {
                let end = end_for_slot(k);
                if Call::Dup2(self.descriptor(end), end.slot_number()).succeeded_by(reply) {
                    if k >= 3 {
                        self.to_stage(Stage::ChildClosing).settle()
                    } else {
                        self.to_stage(Stage::ChildDuplicating(k + 1)).settle()
                    }
                } else {
                    self.to_stage(Stage::ChildExiting(DUPLICATION_FAILED))
                }
            },
            Stage::ChildClosing => match self.find_stray_end() {
                Some(end) => if Call::Close(self.descriptor(end)).succeeded_by(reply) {
                    self.drop_end(end).settle()
                } else {
                    self.drop_end(end).to_stage(Stage::ChildExiting(CLOSE_FAILED))
                },
                None => self.settle(),
            },
            Stage::ChildReplacing => match reply {
                Reply::Status { ret, errno } => self.to_stage(
                    Stage::ChildExiting(status_of_replacement(*ret)),
                ),
                _ => self.to_stage(Stage::ChildExiting(REPLACEMENT_FAILED)),
            },
            Stage::ChildExiting(_) => self,
            Stage::Unwinding(_) => match self.find_stream() {
                Some(handle) => if Call::FClose(handle).succeeded_by(reply) {
                    self.drop_stream().settle()
                } else {
                    self.drop_stream().note(Close::FCloseErrno(reply.error_number())).settle()
                },
                None => match self.find_open_end() {
                    Some(end) => if Call::Close(self.descriptor(end)).succeeded_by(reply) {
                        self.drop_end(end).settle()
                    } else {
                        self.drop_end(end).note(Close::CloseErrno(reply.error_number())).settle()
                    },
                    None => match self.pid {
                        Some(_) => {
                            proof {
                                Wait::lemma_blocking_wait(self.platform.no_hang, *reply);
                            }
                            let again = match Wait::read(0, &self.platform, reply) {
                                Err(Wait::WaitFailure(errno)) => errno == self.platform.interrupted,
                                _ => false,
                            };
                            if again {
                                self
                            } else {
                                let mut w = self;
                                w.pid = None;
                                w.settle()
                            }
                        },
                        None => self.settle(),
                    },
                },
            },
            Stage::Ready | Stage::Failed(_) => self,
        }
    }

    /// Takes the answers `replies`, each to the call that was pending at its
    /// turn.
    pub fn run(self, replies: &[Reply]) -> (w: Wiring)
        ensures
            w == self.after(replies@),
    {
        let mut w = self;
        let mut i: usize = 0;
        while i < replies.len()
            invariant
                i <= replies.len(),
                w == self.after(replies@.take(i as int)),
            decreases replies.len() - i,
        {
            proof {
                assert(replies@.take(i + 1).drop_last() == replies@.take(i as int));
            }
            w = w.feed(&replies[i]);
            i = i + 1;
        }
        proof {
            assert(replies@.take(i as int) == replies@);
        }
        w
    }
}

/// Decides whether a descriptor is one of the three standard streams.
pub fn in_slots(fd: i32) -> (b: bool)
    ensures
        b == is_slot(fd),
{
    fd == libc_stdin_fileno() || fd == libc_stdout_fileno() || fd == libc_stderr_fileno()
}

} // verus!
