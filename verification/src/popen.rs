//! The process handle: a child behind three streams, from its start to the
//! collection of its status.

use crate::call::{Call, Next, Reply};
use crate::close::Close;
use crate::error::PopenError;
use crate::platform::Platform;
use crate::socket_pair::SocketPairError;
use crate::wait::Wait;
use crate::wiring::{Stage, Wiring};
use vstd::prelude::*;
use vstd::string::StringExecFns;
use vstd::utf8::encode_utf8;

verus! {

/// How the wait for a child ended.
#[derive(Clone, Copy, Debug, Eq, Hash, Ord, PartialEq, PartialOrd, Structural)]
pub enum Reap {
    /// The status was collected: the child's identifier and its status word.
    Exited(i32, i32),
    /// The wait failed for good.
    Failed(Wait),
    /// The handle had no child to wait for.
    NoChild,
}

/// Where a handle stands between its start and its end.
#[derive(Clone, Copy, Debug, Eq, Hash, Ord, PartialEq, PartialOrd, Structural)]
pub enum Phase {
    /// In use: nothing of it is given back yet.
    Active,
    /// Being released: a stream is still to be closed.
    StreamsClosing,
    /// Being released: the streams are closed and the child is waited for.
    Reaping,
    /// Released: the streams are closed and the wait is over.
    Reaped,
}

/// The failures to close a stream that a release went past, one place for
/// each stream.
#[derive(Clone, Copy, Debug, Eq, Hash, Ord, PartialEq, PartialOrd, Structural)]
pub struct Notes {
    /// Why the stream into the child's standard input could not be closed.
    pub stdin: Option<Close>,
    /// Why the stream out of the child's standard output could not be closed.
    pub stdout: Option<Close>,
    /// Why the stream out of the child's standard error could not be closed.
    pub stderr: Option<Close>,
}

/// A child that runs a shell command behind three streams.
#[derive(Clone, Debug, Eq, Hash, Ord, PartialEq, PartialOrd)]
pub struct Popen {
    /// The command that the shell runs.
    pub arg: String,
    /// The stream into the child's standard input, zero for none.
    pub stdin: usize,
    /// The stream out of the child's standard output, zero for none.
    pub stdout: usize,
    /// The stream out of the child's standard error, zero for none.
    pub stderr: usize,
    /// The child.
    pub pid: Option<i32>,
    /// How the wait for the child ended, once it has.
    pub reaped: Option<Reap>,
    /// The failures to close a stream that the release went past.
    pub noted: Notes,
    /// The numbers of the platform that the handle lives on.
    pub platform: Platform,
}

/// The state of the release of a handle: what is left of it.
#[derive(Clone, Copy, Debug, Eq, Hash, Ord, PartialEq, PartialOrd, Structural)]
pub struct Release {
    /// The stream into the child's standard input, zero once closed.
    pub stdin: usize,
    /// The stream out of the child's standard output, zero once closed.
    pub stdout: usize,
    /// The stream out of the child's standard error, zero once closed.
    pub stderr: usize,
    /// The child.
    pub pid: Option<i32>,
    /// How the wait for the child ended, once it has.
    pub reaped: Option<Reap>,
    /// The failures to close a stream.
    pub noted: Notes,
    /// The numbers of the platform.
    pub platform: Platform,
}

impl Release {
    /// The first stream that is still open: input, then output, then error.
    pub open spec fn stream(self) -> Option<usize> {
        if self.stdin != 0 {
            Some(self.stdin)
        } else if self.stdout != 0 {
            Some(self.stdout)
        } else if self.stderr != 0 {
            Some(self.stderr)
        } else {
            None
        }
    }

    /// The state once the first open stream counts as closed, with the
    /// failure to close it, if there was one, noted in its place.
    pub open spec fn without_stream(self, failure: Option<Close>) -> Release {
        if self.stdin != 0 {
            Release { stdin: 0, noted: Notes { stdin: failure, ..self.noted }, ..self }
        } else if self.stdout != 0 {
            Release { stdout: 0, noted: Notes { stdout: failure, ..self.noted }, ..self }
        } else {
            Release { stderr: 0, noted: Notes { stderr: failure, ..self.noted }, ..self }
        }
    }

    /// What an answer to `fclose` leaves to note: nothing where it reports
    /// success, the error number otherwise.
    pub open spec fn failure(handle: usize, reply: Reply) -> Option<Close> {
        if Call::FClose(handle).succeeded(reply) {
            None
        } else {
            Some(Close::FCloseErrno(reply.errno()))
        }
    }

    /// The state with the wait over.
    pub open spec fn ended(self, reap: Reap) -> Release {
        Release { reaped: Some(reap), ..self }
    }

    /// The state with the release ended where nothing is left to do: no
    /// stream is open and there is no child.
    pub open spec fn settled(self) -> Release {
        if self.reaped is None && self.stream() is None && self.pid is None {
            self.ended(Reap::NoChild)
        } else {
            self
        }
    }

    /// Where the release stands.
    pub open spec fn phase(self) -> Phase {
        if self.reaped is Some {
            Phase::Reaped
        } else if self.stream() is Some {
            Phase::StreamsClosing
        } else {
            Phase::Reaping
        }
    }

    /// Whether an answer to the wait says that a signal interrupted it.
    pub open spec fn interrupted(self, reply: Reply) -> bool {
        Wait::collected(reply) == Err::<(i32, i32), Wait>(
            Wait::WaitFailure(self.platform.interrupted),
        )
    }

    /// How the wait ended with an answer that says something else than
    /// that it was interrupted.
    pub open spec fn reap(self, reply: Reply) -> Reap {
        match Wait::collected(reply) {
            Ok((pid, status)) => Reap::Exited(pid, status),
            Err(failure) => Reap::Failed(failure),
        }
    }

    /// The call that the release waits for, if it is not over: the streams
    /// are closed first, in their order, then the child is waited for, and
    /// the wait blocks.
    pub open spec fn pending(self) -> Option<Call> {
        if self.reaped is Some {
            None
        } else {
            match self.stream() {
                Some(handle) => Some(Call::FClose(handle)),
                None => match self.pid {
                    Some(pid) => Some(Call::WaitPid(pid, 0)),
                    None => None,
                },
            }
        }
    }

    /// The state after the pending call was answered with `reply`. A stream
    /// counts as closed whatever the answer; a failure is noted in its
    /// place. A wait that was interrupted changes nothing, so that it is
    /// made again.
    pub open spec fn fed(self, reply: Reply) -> Release {
        if self.reaped is Some {
            self
        } else {
            match self.stream() {
                Some(handle) => self.without_stream(Release::failure(handle, reply)).settled(),
                None => match self.pid {
                    Some(_) => if self.interrupted(reply) {
                        self
                    } else {
                        self.ended(self.reap(reply))
                    },
                    None => self.settled(),
                },
            }
        }
    }

    /// The state after the answers `replies`, each to the call that was
    /// pending at its turn.
    pub open spec fn after(self, replies: Seq<Reply>) -> Release
        decreases replies.len(),
    {
        if replies.len() == 0 {
            self
        } else {
            self.after(replies.drop_last()).fed(replies.last())
        }
    }

    /// Whether something is left to do unless the release is over.
    pub open spec fn live(self) -> bool {
        self.reaped is None ==> self.pending() is Some
    }

    /// A release that is not stuck stays so.
    pub proof fn lemma_fed_live(self, reply: Reply)
        requires
            self.live(),
        ensures
            self.fed(reply).live(),
    {
    }

    /// No answers bring a release that is not stuck to a halt.
    pub proof fn lemma_after_live(self, replies: Seq<Reply>)
        requires
            self.live(),
        ensures
            self.after(replies).live(),
        decreases replies.len(),
    {
        if replies.len() > 0 {
            self.lemma_after_live(replies.drop_last());
            self.after(replies.drop_last()).lemma_fed_live(replies.last());
        }
    }

    fn find_stream(&self) -> (handle: Option<usize>)
        ensures
            handle == self.stream(),
    {
        if self.stdin != 0 {
            Some(self.stdin)
        } else if self.stdout != 0 {
            Some(self.stdout)
        } else if self.stderr != 0 {
            Some(self.stderr)
        } else {
            None
        }
    }

    fn drop_stream(self, failure: Option<Close>) -> (r: Release)
        ensures
            r == self.without_stream(failure),
    {
        let mut r = self;
        if self.stdin != 0 {
            r.stdin = 0;
            r.noted.stdin = failure;
        } else if self.stdout != 0 {
            r.stdout = 0;
            r.noted.stdout = failure;
        } else {
            r.stderr = 0;
            r.noted.stderr = failure;
        }
        r
    }

    fn end(self, reap: Reap) -> (r: Release)
        ensures
            r == self.ended(reap),
    {
        let mut r = self;
        r.reaped = Some(reap);
        r
    }

    fn settle(self) -> (r: Release)
        ensures
            r == self.settled(),
    {
        if self.reaped.is_none() && self.find_stream().is_none() && self.pid.is_none() {
            self.end(Reap::NoChild)
        } else {
            self
        }
    }

    /// Where the release stands.
    pub fn current_phase(&self) -> (phase: Phase)
        ensures
            phase == self.phase(),
    {
        if self.reaped.is_some() {
            Phase::Reaped
        } else if self.find_stream().is_some() {
            Phase::StreamsClosing
        } else {
            Phase::Reaping
        }
    }

    /// The call that the release waits for, if it is not over.
    pub fn next_call(&self) -> (call: Option<Call>)
        ensures
            call == self.pending(),
    {
        if self.reaped.is_some() {
            None
        } else {
            match self.find_stream() {
                Some(handle) => Some(Call::FClose(handle)),
                None => match self.pid {
                    Some(pid) => Some(Call::WaitPid(pid, 0)),
                    None => None,
                },
            }
        }
    }

    /// Takes the answer to the pending call.
    pub fn feed(self, reply: &Reply) -> (r: Release)
        ensures
            r == self.fed(*reply),
    {
        proof {
            Wait::lemma_blocking_wait(self.platform.no_hang, *reply);
        }
        if self.reaped.is_some() {
            self
        } else {
            match self.find_stream() {
                Some(handle) => {
                    let failure = if Call::FClose(handle).succeeded_by(reply) {
                        None
                    } else {
                        Some(Close::FCloseErrno(reply.error_number()))
                    };
                    self.drop_stream(failure).settle()
                },
                None => match self.pid {
                    Some(_) => match Wait::read(0, &self.platform, reply) {
                        Ok((pid, status)) => self.end(Reap::Exited(pid, status)),
                        Err(failure) => {
                            let again = match failure {
                                Wait::WaitFailure(errno) => errno == self.platform.interrupted,
                                _ => false,
                            };
                            if again {
                                self
                            } else {
                                self.end(Reap::Failed(failure))
                            }
                        },
                    },
                    None => self.settle(),
                },
            }
        }
    }

    /// Takes the answers `replies`, each to the call that was pending at its
    /// turn.
    pub fn run(self, replies: &[Reply]) -> (r: Release)
        ensures
            r == self.after(replies@),
    {
        let mut r = self;
        let mut i: usize = 0;
        while i < replies.len()
            invariant
                i <= replies.len(),
                r == self.after(replies@.take(i as int)),
            decreases replies.len() - i,
        {
            proof {
                assert(replies@.take(i + 1).drop_last() == replies@.take(i as int));
            }
            r = r.feed(&replies[i]);
            i = i + 1;
        }
        proof {
            assert(replies@.take(i as int) == replies@);
        }
        r
    }
}

impl Popen {
    /// Whether the command can be handed to the shell: its bytes hold no
    /// zero.
    pub open spec fn sendable(self) -> bool {
        !encode_utf8(self.arg@).contains(0u8)
    }

    /// The program that the child becomes and the arguments that it is
    /// given: the shell, under the name `sh`, told to run the command.
    pub open spec fn shell(self) -> Seq<Seq<char>> {
        seq!["/bin/sh"@, "sh"@, "-c"@, self.arg@]
    }

    /// The state of the handle's start after the answers `replies`.
    pub open spec fn wiring(self, replies: Seq<Reply>) -> Wiring {
        Wiring::start(self.platform, self.sendable()).after(replies)
    }

    /// The handle once its start is over: the streams and the child are
    /// those of the attempt.
    pub open spec fn populated(self, w: Wiring) -> Popen {
        Popen { stdin: w.stdin, stdout: w.stdout, stderr: w.stderr, pid: w.pid, ..self }
    }

    /// What the start of the handle has come to after the answers `replies`:
    /// the next call, the populated handle, or the failure.
    pub open spec fn exec_next(self, replies: Seq<Reply>) -> Next<Result<Popen, PopenError>> {
        let w = self.wiring(replies);
        match w.stage {
            Stage::Ready => Next::Done(Ok(self.populated(w))),
            Stage::Failed(error) => Next::Done(Err(error)),
            _ => Next::Call(w.pending().unwrap()),
        }
    }

    /// What is left of the handle to release.
    pub open spec fn release(self) -> Release {
        Release {
            stdin: self.stdin,
            stdout: self.stdout,
            stderr: self.stderr,
            pid: self.pid,
            reaped: self.reaped,
            noted: self.noted,
            platform: self.platform,
        }.settled()
    }

    /// The handle once its release has come to `r`.
    pub open spec fn released(self, r: Release) -> Popen {
        Popen {
            stdin: r.stdin,
            stdout: r.stdout,
            stderr: r.stderr,
            reaped: r.reaped,
            noted: r.noted,
            ..self
        }
    }

    /// Where the handle stands: in use until its release is over.
    pub open spec fn phase(self) -> Phase {
        if self.reaped is Some {
            Phase::Reaped
        } else {
            Phase::Active
        }
    }

    /// A handle for the command `arg`, without a child yet.
    pub fn arg(arg: &str) -> (handle: Box<Popen>)
        ensures
            handle.arg@ == arg@,
            handle.stdin == 0,
            handle.stdout == 0,
            handle.stderr == 0,
            handle.pid is None,
            handle.reaped is None,
            handle.noted == (Notes { stdin: None, stdout: None, stderr: None }),
    {
        Box::new(
            Popen {
                arg: String::from_str(arg),
                stdin: 0,
                stdout: 0,
                stderr: 0,
                pid: None,
                reaped: None,
                noted: Notes { stdin: None, stdout: None, stderr: None },
                platform: Platform::native(),
            },
        )
    }

    /// Decides whether the command can be handed to the shell.
    pub fn is_sendable(&self) -> (ok: bool)
        ensures
            ok == self.sendable(),
    {
        let bytes = self.arg.as_str().as_bytes();
        let mut i: usize = 0;
        while i < bytes.len()
            invariant
                i <= bytes.len(),
                bytes@ == encode_utf8(self.arg@),
                forall|j: int| 0 <= j < i ==> bytes@[j] != 0u8,
            decreases bytes.len() - i,
        {
            if bytes[i] == 0 {
                return false;
            }
            i = i + 1;
        }
        true
    }

    /// What the call `Shell` is made with: the path of the program, then
    /// its arguments.
    pub fn shell_command(&self) -> (words: Vec<String>)
        ensures
            words@.len() == 4,
            forall|i: int| 0 <= i < 4 ==> (#[trigger] words@[i])@ == self.shell()[i],
    {
        let mut words: Vec<String> = Vec::new();
        words.push(String::from_str("/bin/sh"));
        words.push(String::from_str("sh"));
        words.push(String::from_str("-c"));
        words.push(self.arg.clone());
        words
    }

    /// The state of the handle's start after the answers `replies`.
    pub fn attempt(&self, replies: &[Reply]) -> (w: Wiring)
        ensures
            w == self.wiring(replies@),
    {
        Wiring::new(self.platform, self.is_sendable()).run(replies)
    }

    /// Starts the child, one call per step: `replies` holds the answers to
    /// the calls made so far. The three pipes are made first, then the
    /// process splits; the parent closes the child's ends and wraps its own
    /// in streams, the child brings its ends onto its standard streams and
    /// becomes the shell that runs the command. A start that cannot go on
    /// gives back what it holds and waits for its child, if it has one,
    /// before it reports the failure.
    pub fn exec(self: Box<Popen>, replies: &[Reply]) -> (next: Next<Result<Box<Popen>, PopenError>>)
        ensures
            match self.exec_next(replies@) {
                Next::Call(call) => next == Next::<Result<Box<Popen>, PopenError>>::Call(call),
                Next::Done(Err(error)) => next == Next::<Result<Box<Popen>, PopenError>>::Done(
                    Err(error),
                ),
                Next::Done(Ok(handle)) => next matches Next::Done(Ok(made)) && *made == handle,
            },
    {
        let w = self.attempt(replies);
        proof {
            Wiring::start(self.platform, self.sendable()).lemma_after_live(replies@);
        }
        match w.stage {
            Stage::Ready => {
                let mut handle = self;
                handle.stdin = w.stdin;
                handle.stdout = w.stdout;
                handle.stderr = w.stderr;
                handle.pid = w.pid;
                Next::Done(Ok(handle))
            },
            Stage::Failed(error) => Next::Done(Err(error)),
            _ => match w.next_call() {
                Some(call) => Next::Call(call),
                None => Next::Done(Err(PopenError::PipeCreateFailed)),
            },
        }
    }

    /// Where the handle stands.
    pub fn current_phase(&self) -> (phase: Phase)
        ensures
            phase == self.phase(),
    {
        if self.reaped.is_some() {
            Phase::Reaped
        } else {
            Phase::Active
        }
    }

    /// Releases the handle, one call per step: `replies` holds the answers
    /// to the calls made so far. The streams are closed first, input, output,
    /// error; then the child is waited for, again and again while the wait is
    /// interrupted. Until the release is over the handle is as it was; then
    /// it holds no stream and knows how the wait ended. A handle whose
    /// release is over has nothing left to release.
    pub fn teardown(&mut self, replies: &[Reply]) -> (next: Next<Reap>)
        ensures
            match old(self).release().after(replies@).reaped {
                Some(reap) => next == Next::Done(reap) && *final(self) == old(self).released(
                    old(self).release().after(replies@),
                ),
                None => next == Next::<Reap>::Call(
                    old(self).release().after(replies@).pending().unwrap(),
                ) && *final(self) == *old(self),
            },
    {
        let begin = Release {
            stdin: self.stdin,
            stdout: self.stdout,
            stderr: self.stderr,
            pid: self.pid,
            reaped: self.reaped,
            noted: self.noted,
            platform: self.platform,
        };
        let r = begin.settle().run(replies);
        proof {
            old(self).release().lemma_after_live(replies@);
        }
        match r.reaped {
            Some(reap) => {
                self.stdin = r.stdin;
                self.stdout = r.stdout;
                self.stderr = r.stderr;
                self.reaped = r.reaped;
                self.noted = r.noted;
                Next::Done(reap)
            },
            None => match r.next_call() {
                Some(call) => Next::Call(call),
                None => Next::Done(Reap::NoChild),
            },
        }
    }
}

/// The two descriptors of an answer that reports success.
pub open spec fn pair_made(reply: Reply) -> Option<Seq<i32>> {
    match reply {
        Reply::Pair { ret, errno, first, second } => if ret == 0 {
            Some(seq![first, second])
        } else {
            None
        },
        _ => None,
    }
}

/// What the answers to `socketpair` and to `pipe2` mean together: the
/// sockets and the pipe where both were made, and otherwise which of the two
/// was not, with the error number that came with the second answer.
pub open spec fn socket_pipe_made(sockets: Reply, pipe: Reply) -> Result<
    (Seq<i32>, Seq<i32>),
    PopenError,
> {
    match (pair_made(sockets), pair_made(pipe)) {
        (Some(sv), Some(fd)) => Ok((sv, fd)),
        (None, Some(_)) => Err(
            PopenError::SocketPairError(SocketPairError::SocketErrno(pipe.errno())),
        ),
        (Some(_), None) => Err(PopenError::PipeCreateFailed),
        (None, None) => Err(PopenError::CreateRedirectError(pipe.errno())),
    }
}

/// The two descriptors that are left over where exactly one of the two was
/// made: they are of no use without the other, and are given back.
pub open spec fn socket_pipe_left_over(sockets: Reply, pipe: Reply) -> Option<Seq<i32>> {
    match (pair_made(sockets), pair_made(pipe)) {
        (Some(sv), None) => Some(sv),
        (None, Some(fd)) => Some(fd),
        _ => None,
    }
}

/// What making the sockets and the pipe has come to after the answers
/// `replies`. Both calls are made before either answer is looked at. Where
/// both were made, or neither, that is the end. Where one was made and the
/// other was not, the two descriptors of the one that was made are closed
/// first, whatever the closes answer, and then the failure is reported.
pub open spec fn socket_pipe_next(platform: Platform, replies: Seq<Reply>) -> Next<
    Result<(Seq<i32>, Seq<i32>), PopenError>,
> {
    if replies.len() == 0 {
        Next::Call(Call::SocketPair(platform.local, platform.stream, 0))
    } else if replies.len() == 1 {
        Next::Call(Call::Pipe2(platform.nonblocking))
    } else {
        match socket_pipe_left_over(replies[0], replies[1]) {
            Some(left) => if replies.len() == 2 {
                Next::Call(Call::Close(left[0]))
            } else if replies.len() == 3 {
                Next::Call(Call::Close(left[1]))
            } else {
                Next::Done(socket_pipe_made(replies[0], replies[1]))
            },
            None => Next::Done(socket_pipe_made(replies[0], replies[1])),
        }
    }
}

/// Makes a pair of local stream sockets and a non-blocking pipe, one call per
/// step: `replies` holds the answers to the calls made so far.
pub fn socket_pipe(platform: &Platform, replies: &[Reply]) -> (next: Next<
    Result<[[i32; 2]; 2], PopenError>,
>)
    ensures
        match socket_pipe_next(*platform, replies@) {
            Next::Call(call) => next == Next::<Result<[[i32; 2]; 2], PopenError>>::Call(call),
            Next::Done(Err(error)) => next == Next::<Result<[[i32; 2]; 2], PopenError>>::Done(
                Err(error),
            ),
            Next::Done(Ok((sv, fd))) => next matches Next::Done(Ok(both)) && both@[0]@ == sv
                && both@[1]@ == fd,
        },
{
    if replies.len() == 0 {
        Next::Call(Call::SocketPair(platform.local, platform.stream, 0))
    } else if replies.len() == 1 {
        Next::Call(Call::Pipe2(platform.nonblocking))
    } else {
        let errno = replies[1].error_number();
        let sockets = match replies[0] {
            Reply::Pair { ret, errno, first, second } => if ret == 0 {
                Some([first, second])
            } else {
                None
            },
            _ => None,
        };
        let pipe = match replies[1] {
            Reply::Pair { ret, errno, first, second } => if ret == 0 {
                Some([first, second])
            } else {
                None
            },
            _ => None,
        };
        match (sockets, pipe) {
            (Some(sv), Some(fd)) => Next::Done(Ok([sv, fd])),
            (None, Some(fd)) => if replies.len() == 2 {
                Next::Call(Call::Close(fd[0]))
            } else if replies.len() == 3 {
                Next::Call(Call::Close(fd[1]))
            } else {
                Next::Done(Err(PopenError::SocketPairError(SocketPairError::SocketErrno(errno))))
            },
            (Some(sv), None) => if replies.len() == 2 {
                Next::Call(Call::Close(sv[0]))
            } else if replies.len() == 3 {
                Next::Call(Call::Close(sv[1]))
            } else {
                Next::Done(Err(PopenError::PipeCreateFailed))
            },
            (None, None) => Next::Done(Err(PopenError::CreateRedirectError(errno))),
        }
    }
}

} // verus!
