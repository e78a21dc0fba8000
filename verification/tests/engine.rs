use libc_tools::{
    Call, Close, End, Mode, Next, Notes, Phase, Platform, Popen, PopenError, Reap, Release, Reply,
    Stage, Wait, Wiring, CLOSE_FAILED, COMMAND_REFUSED, DUPLICATION_FAILED, REPLACEMENT_FAILED,
};

const EBADF: i32 = 9;
const EMFILE: i32 = 24;
const ENOENT: i32 = 2;
const NOTHING: Notes = Notes { stdin: None, stdout: None, stderr: None };

/// A stand-in for the operating system: it keeps a table of descriptors and
/// of streams, and answers each call as a system would.
struct Kernel {
    open: Vec<i32>,
    streams: Vec<(usize, i32)>,
    limit: usize,
    next_stream: usize,
    fork: i32,
    fork_errno: i32,
    interruptions: u32,
    status: i32,
    fail_close_of: Option<i32>,
    fail_open_of: Option<i32>,
    calls: Vec<Call>,
}

impl Kernel {
    fn new() -> Kernel {
        Kernel {
            open: vec![0, 1, 2],
            streams: Vec::new(),
            limit: 1024,
            next_stream: 0x1000,
            fork: 4242,
            fork_errno: 0,
            interruptions: 0,
            status: 0,
            fail_close_of: None,
            fail_open_of: None,
            calls: Vec::new(),
        }
    }

    fn lowest_free(&self) -> i32 {
        let mut fd = 0;
        while self.open.contains(&fd) {
            fd += 1;
        }
        fd
    }

    fn perform(&mut self, call: Call) -> Reply {
        self.calls.push(call);
        match call {
            Call::Pipe | Call::Pipe2(_) => {
                if self.open.len() + 2 > self.limit {
                    return Reply::Pair { ret: -1, errno: EMFILE, first: 0, second: 0 };
                }
                let first = self.lowest_free();
                self.open.push(first);
                let second = self.lowest_free();
                self.open.push(second);
                Reply::Pair { ret: 0, errno: 0, first, second }
            }
            Call::Fork => Reply::Fork { ret: self.fork, errno: self.fork_errno, pid: 41, ppid: 1 },
            Call::Close(fd) => {
                if self.fail_close_of == Some(fd) || !self.open.contains(&fd) {
                    return Reply::Status { ret: -1, errno: EBADF };
                }
                self.open.retain(|held| *held != fd);
                Reply::Status { ret: 0, errno: 0 }
            }
            Call::Dup2(old, new) => {
                if !self.open.contains(&old) {
                    return Reply::Status { ret: -1, errno: EBADF };
                }
                if !self.open.contains(&new) {
                    self.open.push(new);
                }
                Reply::Status { ret: new, errno: 0 }
            }
            Call::FdOpen(fd, _) => {
                if self.fail_open_of == Some(fd) || !self.open.contains(&fd) {
                    return Reply::Stream { handle: 0, errno: EBADF };
                }
                self.next_stream += 0x100;
                self.streams.push((self.next_stream, fd));
                Reply::Stream { handle: self.next_stream, errno: 0 }
            }
            Call::FClose(handle) => match self.streams.iter().position(|s| s.0 == handle) {
                Some(at) => {
                    let (_, fd) = self.streams.remove(at);
                    self.open.retain(|held| *held != fd);
                    Reply::Status { ret: 0, errno: 0 }
                }
                None => Reply::Status { ret: -1, errno: EBADF },
            },
            Call::WaitPid(pid, _) => {
                if self.interruptions > 0 {
                    self.interruptions -= 1;
                    Reply::Wait { ret: -1, status: 0, errno: Some(libc::EINTR) }
                } else {
                    Reply::Wait { ret: pid, status: self.status, errno: Some(0) }
                }
            }
            Call::Shell => Reply::Status { ret: -1, errno: ENOENT },
            other => panic!("a call that this test does not expect: {:?}", other),
        }
    }
}

/// How a start ended in the process that ran it.
#[derive(Debug, PartialEq)]
enum Started {
    Parent(Result<Box<Popen>, PopenError>),
    Exit(i32),
}

fn start(kernel: &mut Kernel, command: &str) -> Started {
    let handle = Popen::arg(command);
    let mut replies: Vec<Reply> = Vec::new();
    loop {
        match handle.clone().exec(&replies) {
            Next::Call(Call::Exit(code)) => return Started::Exit(code),
            Next::Call(call) => replies.push(kernel.perform(call)),
            Next::Done(result) => return Started::Parent(result),
        }
    }
}

fn started(kernel: &mut Kernel, command: &str) -> Box<Popen> {
    match start(kernel, command) {
        Started::Parent(Ok(handle)) => handle,
        other => panic!("no handle: {:?}", other),
    }
}

fn release(kernel: &mut Kernel, handle: &mut Popen) -> Reap {
    let mut replies: Vec<Reply> = Vec::new();
    loop {
        match handle.teardown(&replies) {
            Next::Call(call) => replies.push(kernel.perform(call)),
            Next::Done(reap) => return reap,
        }
    }
}

fn closes(calls: &[Call]) -> Vec<i32> {
    calls
        .iter()
        .filter_map(|call| match call {
            Call::Close(fd) => Some(*fd),
            _ => None,
        })
        .collect()
}

#[test]
fn test_popen_date() {
    let mut kernel = Kernel::new();
    let handle = started(&mut kernel, "date");
    assert_eq!(handle.arg, "date");
    assert_eq!(handle.pid, Some(4242));
}

#[test]
fn test_out_err() {
    let mut kernel = Kernel::new();
    let popen = started(&mut kernel, "rustc src/run.rs && ./run");
    assert!(popen.stdout != 0);
    assert!(popen.stderr != 0);
    assert!(popen.stdin != 0);
    assert_eq!(kernel.streams.len(), 3);
}

#[test]
fn test_execl() {
    let words = Popen::arg("ls").shell_command();
    assert_eq!(words, vec!["/bin/sh", "sh", "-c", "ls"]);
}

#[test]
fn the_standard_streams_are_those_of_libc() {
    assert_eq!(End::InputRead.slot_number(), 0);
    assert_eq!(End::OutputWrite.slot_number(), 1);
    assert_eq!(End::ErrorWrite.slot_number(), 2);
    assert_eq!(End::InputRead.slot_number(), libc::STDIN_FILENO);
    assert_eq!(End::OutputWrite.slot_number(), libc::STDOUT_FILENO);
    assert_eq!(End::ErrorWrite.slot_number(), libc::STDERR_FILENO);
    assert_eq!(End::InputWrite.stream_mode(), Mode::Write);
    assert_eq!(End::OutputRead.stream_mode(), Mode::Read);
    assert_eq!(End::ErrorRead.stream_mode(), Mode::Read);
    for fd in [0, 1, 2] {
        assert!(libc_tools::wiring::in_slots(fd));
    }
    for fd in [-1, 3, 4, i32::MAX, i32::MIN] {
        assert!(!libc_tools::wiring::in_slots(fd));
    }
}

#[test]
fn a_new_handle_is_empty() {
    let handle = Popen::arg("time");
    assert_eq!(handle.arg, "time");
    assert_eq!(handle.stdin, 0);
    assert_eq!(handle.stdout, 0);
    assert_eq!(handle.stderr, 0);
    assert_eq!(handle.pid, None);
    assert_eq!(handle.reaped, None);
    assert_eq!(handle.noted, NOTHING);
    assert_eq!(handle.platform, Platform::native());
    assert_eq!(handle.current_phase(), Phase::Active);
}

#[test]
fn the_parent_makes_its_calls_in_order() {
    let mut kernel = Kernel::new();
    let handle = started(&mut kernel, "date");
    assert_eq!(
        kernel.calls,
        vec![
            Call::Pipe,
            Call::Pipe,
            Call::Pipe2(libc::O_NONBLOCK),
            Call::Fork,
            Call::Close(3),
            Call::Close(6),
            Call::Close(8),
            Call::FdOpen(4, Mode::Write),
            Call::FdOpen(5, Mode::Read),
            Call::FdOpen(7, Mode::Read),
        ]
    );
    assert_eq!(handle.stdin, 0x1100);
    assert_eq!(handle.stdout, 0x1200);
    assert_eq!(handle.stderr, 0x1300);
}

#[test]
fn the_parent_does_not_hold_the_childs_ends() {
    let mut kernel = Kernel::new();
    let handle = started(&mut kernel, "date");
    let after = handle.attempt(&[
        Reply::Pair { ret: 0, errno: 0, first: 3, second: 4 },
        Reply::Pair { ret: 0, errno: 0, first: 5, second: 6 },
        Reply::Pair { ret: 0, errno: 0, first: 7, second: 8 },
        Reply::Fork { ret: 4242, errno: 0, pid: 41, ppid: 1 },
        Reply::Status { ret: 0, errno: 0 },
        Reply::Status { ret: 0, errno: 0 },
        Reply::Status { ret: 0, errno: 0 },
    ]);
    assert_eq!(after.stage, Stage::ParentWrapping);
    assert!(!after.holds(End::InputRead));
    assert!(!after.holds(End::OutputWrite));
    assert!(!after.holds(End::ErrorWrite));
    assert!(after.holds(End::InputWrite));
    assert!(after.holds(End::OutputRead));
    assert!(after.holds(End::ErrorRead));
    // Closing them a second time is refused: they are closed already.
    for fd in [3, 6, 8] {
        assert_eq!(kernel.perform(Call::Close(fd)), Reply::Status { ret: -1, errno: EBADF });
    }
    for fd in [4, 5, 7] {
        assert!(kernel.open.contains(&fd));
    }
}

#[test]
fn a_ready_attempt_holds_streams_only() {
    let mut kernel = Kernel::new();
    let handle = Popen::arg("date");
    let mut replies: Vec<Reply> = Vec::new();
    loop {
        match handle.attempt(&replies).next_call() {
            Some(call) => replies.push(kernel.perform(call)),
            None => break,
        }
    }
    let w = handle.attempt(&replies);
    assert_eq!(w.stage, Stage::Ready);
    for end in [
        End::InputRead,
        End::InputWrite,
        End::OutputRead,
        End::OutputWrite,
        End::ErrorRead,
        End::ErrorWrite,
    ] {
        assert!(!w.holds(end));
    }
    assert_eq!(w.descriptor(End::InputRead), 3);
    assert_eq!(w.descriptor(End::ErrorWrite), 8);
    assert_eq!((w.stdin, w.stdout, w.stderr), (0x1100, 0x1200, 0x1300));
    assert_eq!(w.pid, Some(4242));
    assert_eq!(w.noted, None);
}

#[test]
fn the_child_wires_its_standard_streams_and_becomes_the_shell() {
    let mut kernel = Kernel::new();
    kernel.fork = 0;
    let ended = start(&mut kernel, "date");
    assert_eq!(
        kernel.calls,
        vec![
            Call::Pipe,
            Call::Pipe,
            Call::Pipe2(libc::O_NONBLOCK),
            Call::Fork,
            Call::Dup2(3, 0),
            Call::Dup2(6, 1),
            Call::Dup2(8, 2),
            Call::Close(3),
            Call::Close(4),
            Call::Close(5),
            Call::Close(6),
            Call::Close(7),
            Call::Close(8),
            Call::Shell,
        ]
    );
    // The stand-in cannot become the shell: the child ends with what the
    // attempt returned.
    assert_eq!(ended, Started::Exit(-1));
    let mut left = kernel.open.clone();
    left.sort();
    assert_eq!(left, vec![0, 1, 2]);
}

#[test]
fn the_child_leaves_a_descriptor_that_is_in_place() {
    let mut kernel = Kernel::new();
    kernel.open = vec![1, 2];
    kernel.fork = 0;
    let ended = start(&mut kernel, "date");
    // The input pipe's read end got number 0: it is the standard input
    // already, and is neither duplicated nor closed.
    assert_eq!(
        kernel.calls[4..].to_vec(),
        vec![
            Call::Dup2(5, 1),
            Call::Dup2(7, 2),
            Call::Close(3),
            Call::Close(4),
            Call::Close(5),
            Call::Close(6),
            Call::Close(7),
            Call::Shell,
        ]
    );
    assert_eq!(ended, Started::Exit(-1));
}

#[test]
fn the_child_ends_when_a_duplication_fails() {
    let handle = Popen::arg("date");
    let replies = [
        Reply::Pair { ret: 0, errno: 0, first: 3, second: 4 },
        Reply::Pair { ret: 0, errno: 0, first: 5, second: 6 },
        Reply::Pair { ret: 0, errno: 0, first: 7, second: 8 },
        Reply::Fork { ret: 0, errno: 0, pid: 42, ppid: 41 },
        Reply::Status { ret: 0, errno: 0 },
        Reply::Status { ret: -1, errno: EBADF },
    ];
    assert_eq!(handle.clone().exec(&replies[..4]), Next::Call(Call::Dup2(3, 0)));
    assert_eq!(handle.clone().exec(&replies[..5]), Next::Call(Call::Dup2(6, 1)));
    assert_eq!(handle.clone().exec(&replies), Next::Call(Call::Exit(DUPLICATION_FAILED)));
    assert_eq!(DUPLICATION_FAILED, 101);
    // Nothing brings the child back: it goes on asking to end.
    let mut more = replies.to_vec();
    more.push(Reply::Status { ret: 0, errno: 0 });
    assert_eq!(handle.clone().exec(&more), Next::Call(Call::Exit(DUPLICATION_FAILED)));
}

#[test]
fn the_child_ends_when_a_close_fails() {
    let mut kernel = Kernel::new();
    kernel.fork = 0;
    kernel.fail_close_of = Some(5);
    assert_eq!(start(&mut kernel, "date"), Started::Exit(CLOSE_FAILED));
    assert_eq!(CLOSE_FAILED, 102);
    assert_eq!(kernel.calls.last(), Some(&Call::Close(5)));
}

#[test]
fn the_child_ends_when_the_command_cannot_be_handed_over() {
    let mut kernel = Kernel::new();
    kernel.fork = 0;
    assert_eq!(start(&mut kernel, "da\0te"), Started::Exit(COMMAND_REFUSED));
    assert_eq!(COMMAND_REFUSED, 103);
    assert!(!kernel.calls.contains(&Call::Shell));
    assert!(!Popen::arg("da\0te").is_sendable());
    assert!(Popen::arg("date").is_sendable());
    assert!(Popen::arg("").is_sendable());
    assert!(Popen::arg("d\u{e9}j\u{e0} vu").is_sendable());
}

#[test]
fn the_child_ends_with_what_the_shell_attempt_returned() {
    let handle = Popen::arg("no-such-command");
    let mut replies = vec![
        Reply::Pair { ret: 0, errno: 0, first: 3, second: 4 },
        Reply::Pair { ret: 0, errno: 0, first: 5, second: 6 },
        Reply::Pair { ret: 0, errno: 0, first: 7, second: 8 },
        Reply::Fork { ret: 0, errno: 0, pid: 42, ppid: 41 },
    ];
    for _ in 0..9 {
        let next = handle.clone().exec(&replies);
        match next {
            Next::Call(Call::Dup2(_, new)) => replies.push(Reply::Status { ret: new, errno: 0 }),
            Next::Call(Call::Close(_)) => replies.push(Reply::Status { ret: 0, errno: 0 }),
            other => panic!("unexpected: {:?}", other),
        }
    }
    assert_eq!(handle.clone().exec(&replies), Next::Call(Call::Shell));
    let before = replies.clone();
    replies.push(Reply::Status { ret: -1, errno: ENOENT });
    assert_eq!(handle.clone().exec(&replies), Next::Call(Call::Exit(-1)));
    // What the attempt returned is the status, unless the parent could not
    // tell it from success or from an earlier step.
    for (ret, code) in [
        (2, 2),
        (127, 127),
        (255, 255),
        (0, REPLACEMENT_FAILED),
        (256, REPLACEMENT_FAILED),
        (-256, REPLACEMENT_FAILED),
        (101, REPLACEMENT_FAILED),
        (102, REPLACEMENT_FAILED),
        (103, REPLACEMENT_FAILED),
        (104, 104),
        (256 + 102, REPLACEMENT_FAILED),
    ] {
        let mut answers = before.clone();
        answers.push(Reply::Status { ret, errno: ENOENT });
        assert_eq!(handle.clone().exec(&answers), Next::Call(Call::Exit(code)));
    }
    assert_eq!(REPLACEMENT_FAILED, 104);
    let mut answers = before.clone();
    answers.push(Reply::Stream { handle: 1, errno: 0 });
    assert_eq!(handle.clone().exec(&answers), Next::Call(Call::Exit(REPLACEMENT_FAILED)));
}

#[test]
fn a_command_that_cannot_run_gives_a_stable_status() {
    // The shell reports a command that it cannot find with status 127.
    let mut seen = Vec::new();
    for _ in 0..3 {
        let mut kernel = Kernel::new();
        kernel.status = 127 << 8;
        let mut handle = started(&mut kernel, "no-such-command-anywhere");
        let reap = release(&mut kernel, &mut handle);
        assert_eq!(reap, Reap::Exited(4242, 127 << 8));
        seen.push(reap);
    }
    assert!(seen.iter().all(|reap| *reap == seen[0]));
    assert!(matches!(seen[0], Reap::Exited(_, status) if status != 0));
}

#[test]
fn a_failed_third_pipe_leaves_nothing_open() {
    let mut kernel = Kernel::new();
    // Room for two pipes and no more.
    kernel.limit = kernel.open.len() + 5;
    let baseline = kernel.open.clone();
    assert_eq!(start(&mut kernel, "date"), Started::Parent(Err(PopenError::PipeCreateFailed)));
    assert_eq!(kernel.open, baseline);
    assert_eq!(closes(&kernel.calls), vec![3, 4, 5, 6]);
    assert!(!kernel.calls.contains(&Call::Fork));
}

#[test]
fn a_failed_second_pipe_leaves_nothing_open() {
    let mut kernel = Kernel::new();
    kernel.limit = kernel.open.len() + 3;
    let baseline = kernel.open.clone();
    assert_eq!(start(&mut kernel, "date"), Started::Parent(Err(PopenError::PipeCreateFailed)));
    assert_eq!(kernel.open, baseline);
    assert_eq!(closes(&kernel.calls), vec![3, 4]);
}

#[test]
fn a_failed_first_pipe_fails_at_once() {
    let mut kernel = Kernel::new();
    kernel.limit = kernel.open.len();
    assert_eq!(start(&mut kernel, "date"), Started::Parent(Err(PopenError::PipeCreateFailed)));
    assert_eq!(kernel.calls, vec![Call::Pipe]);
}

#[test]
fn a_close_that_fails_while_unwinding_does_not_hide_the_pipe_failure() {
    let mut kernel = Kernel::new();
    kernel.limit = kernel.open.len() + 5;
    kernel.fail_close_of = Some(4);
    let handle = Popen::arg("date");
    let mut replies: Vec<Reply> = Vec::new();
    let result = loop {
        match handle.clone().exec(&replies) {
            Next::Call(call) => replies.push(kernel.perform(call)),
            Next::Done(result) => break result,
        }
    };
    assert_eq!(result, Err(PopenError::PipeCreateFailed));
    assert_eq!(closes(&kernel.calls), vec![3, 4, 5, 6]);
    let w = handle.attempt(&replies);
    assert_eq!(w.stage, Stage::Failed(PopenError::PipeCreateFailed));
    assert_eq!(w.noted, Some(Close::CloseErrno(EBADF)));
}

#[test]
fn a_failed_split_gives_everything_back() {
    let mut kernel = Kernel::new();
    kernel.fork = -1;
    kernel.fork_errno = 11;
    let baseline = kernel.open.clone();
    assert_eq!(start(&mut kernel, "date"), Started::Parent(Err(PopenError::ForkFailed(11))));
    assert_eq!(kernel.open, baseline);
    assert_eq!(closes(&kernel.calls), vec![3, 4, 5, 6, 7, 8]);
}

#[test]
fn a_close_that_fails_in_the_parent_is_reported() {
    let mut kernel = Kernel::new();
    kernel.fail_close_of = Some(6);
    assert_eq!(
        start(&mut kernel, "date"),
        Started::Parent(Err(PopenError::CloseError(Close::CloseErrno(EBADF))))
    );
    // The descriptor that could not be closed is not tried again; the others
    // are given back, and then the child is waited for.
    assert_eq!(closes(&kernel.calls), vec![3, 6, 4, 5, 7, 8]);
    assert_eq!(kernel.calls.last(), Some(&Call::WaitPid(4242, 0)));
    assert_eq!(kernel.calls.iter().filter(|call| **call == Call::WaitPid(4242, 0)).count(), 1);
    assert!(kernel.streams.is_empty());
    assert_eq!(kernel.open, vec![0, 1, 2, 6]);
}

#[test]
fn a_failed_start_does_not_leave_its_child_behind() {
    for interruptions in [0, 1, 5] {
        let mut kernel = Kernel::new();
        kernel.fail_open_of = Some(7);
        kernel.interruptions = interruptions;
        let handle = Popen::arg("date");
        let mut replies: Vec<Reply> = Vec::new();
        let result = loop {
            match handle.clone().exec(&replies) {
                Next::Call(call) => replies.push(kernel.perform(call)),
                Next::Done(result) => break result,
            }
        };
        assert_eq!(result, Err(PopenError::FdOpenErrno(EBADF)));
        let waits =
            kernel.calls.iter().filter(|call| **call == Call::WaitPid(4242, 0)).count() as u32;
        assert_eq!(waits, interruptions + 1);
        assert_eq!(kernel.calls.last(), Some(&Call::WaitPid(4242, 0)));
        let w = handle.attempt(&replies);
        assert_eq!(w.stage, Stage::Failed(PopenError::FdOpenErrno(EBADF)));
        assert_eq!(w.pid, None);
        // Until the wait is answered the failure is not reported.
        let short = &replies[..replies.len() - 1];
        assert_eq!(handle.clone().exec(short), Next::Call(Call::WaitPid(4242, 0)));
        assert_eq!(handle.attempt(short).pid, Some(4242));
    }
}

#[test]
fn a_wait_that_fails_ends_the_unwinding_all_the_same() {
    let handle = Popen::arg("date");
    let mut replies = vec![
        Reply::Pair { ret: 0, errno: 0, first: 3, second: 4 },
        Reply::Pair { ret: 0, errno: 0, first: 5, second: 6 },
        Reply::Pair { ret: 0, errno: 0, first: 7, second: 8 },
        Reply::Fork { ret: 4242, errno: 0, pid: 41, ppid: 1 },
        Reply::Status { ret: -1, errno: EBADF },
    ];
    for _ in 0..5 {
        replies.push(Reply::Status { ret: 0, errno: 0 });
    }
    assert_eq!(handle.clone().exec(&replies), Next::Call(Call::WaitPid(4242, 0)));
    replies.push(Reply::Wait { ret: -1, status: 0, errno: Some(10) });
    assert_eq!(
        handle.clone().exec(&replies),
        Next::Done(Err(PopenError::CloseError(Close::CloseErrno(EBADF))))
    );
}

#[test]
fn a_stream_that_cannot_be_made_is_reported() {
    let mut kernel = Kernel::new();
    kernel.fail_open_of = Some(5);
    let baseline = kernel.open.clone();
    assert_eq!(start(&mut kernel, "date"), Started::Parent(Err(PopenError::FdOpenErrno(EBADF))));
    assert_eq!(
        kernel.calls[7..].to_vec(),
        vec![
            Call::FdOpen(4, Mode::Write),
            Call::FdOpen(5, Mode::Read),
            Call::FClose(0x1100),
            Call::Close(5),
            Call::Close(7),
            Call::WaitPid(4242, 0),
        ]
    );
    assert!(kernel.streams.is_empty());
    assert_eq!(kernel.open, baseline);
}

#[test]
fn release_closes_the_streams_and_then_waits() {
    let mut kernel = Kernel::new();
    kernel.status = 256;
    let mut handle = started(&mut kernel, "date");
    let before = kernel.calls.len();
    assert_eq!(release(&mut kernel, &mut handle), Reap::Exited(4242, 256));
    assert_eq!(
        kernel.calls[before..].to_vec(),
        vec![
            Call::FClose(0x1100),
            Call::FClose(0x1200),
            Call::FClose(0x1300),
            Call::WaitPid(4242, 0),
        ]
    );
    assert_eq!((handle.stdin, handle.stdout, handle.stderr), (0, 0, 0));
    assert_eq!(handle.reaped, Some(Reap::Exited(4242, 256)));
    assert_eq!(handle.noted, NOTHING);
    assert_eq!(handle.current_phase(), Phase::Reaped);
    assert_eq!(handle.pid, Some(4242));
}

#[test]
fn release_leaves_the_handle_alone_until_it_is_over() {
    let mut kernel = Kernel::new();
    let mut handle = started(&mut kernel, "date");
    let whole = handle.clone();
    let closed = Reply::Status { ret: 0, errno: 0 };
    assert_eq!(handle.teardown(&[]), Next::Call(Call::FClose(0x1100)));
    assert_eq!(handle.teardown(&[closed]), Next::Call(Call::FClose(0x1200)));
    assert_eq!(handle.teardown(&[closed, closed]), Next::Call(Call::FClose(0x1300)));
    assert_eq!(handle.teardown(&[closed, closed, closed]), Next::Call(Call::WaitPid(4242, 0)));
    assert_eq!(handle, whole);
    assert_eq!(handle.current_phase(), Phase::Active);
}

#[test]
fn release_goes_through_its_phases() {
    let platform = Platform::native();
    let r = Release {
        stdin: 10,
        stdout: 20,
        stderr: 30,
        pid: Some(7),
        reaped: None,
        noted: NOTHING,
        platform,
    };
    let closed = Reply::Status { ret: 0, errno: 0 };
    assert_eq!(r.current_phase(), Phase::StreamsClosing);
    let r = r.feed(&closed);
    assert_eq!((r.stdin, r.stdout, r.stderr), (0, 20, 30));
    assert_eq!(r.current_phase(), Phase::StreamsClosing);
    let r = r.feed(&closed).feed(&closed);
    assert_eq!(r.current_phase(), Phase::Reaping);
    assert_eq!(r.next_call(), Some(Call::WaitPid(7, 0)));
    let r = r.feed(&Reply::Wait { ret: 7, status: 0, errno: Some(0) });
    assert_eq!(r.current_phase(), Phase::Reaped);
    assert_eq!(r.next_call(), None);
    assert_eq!(r.reaped, Some(Reap::Exited(7, 0)));
}

#[test]
fn an_interrupted_wait_is_made_again() {
    for interruptions in [1, 2, 7, 100] {
        let mut kernel = Kernel::new();
        kernel.interruptions = interruptions;
        kernel.status = 3 << 8;
        let mut handle = started(&mut kernel, "date");
        let before = kernel.calls.len();
        assert_eq!(release(&mut kernel, &mut handle), Reap::Exited(4242, 3 << 8));
        let waits = kernel.calls[before..]
            .iter()
            .filter(|call| **call == Call::WaitPid(4242, 0))
            .count();
        assert_eq!(waits as u32, interruptions + 1);
        assert_eq!(handle.reaped, Some(Reap::Exited(4242, 3 << 8)));
    }
}

#[test]
fn an_interruption_is_told_by_the_platforms_number() {
    let platform = Platform { interrupted: 27, no_hang: 1, nonblocking: 4, local: 1, stream: 1 };
    let r = Release {
        stdin: 0,
        stdout: 0,
        stderr: 0,
        pid: Some(7),
        reaped: None,
        noted: NOTHING,
        platform,
    };
    let again = r.feed(&Reply::Wait { ret: -1, status: 0, errno: Some(27) });
    assert_eq!(again, r);
    let over = r.feed(&Reply::Wait { ret: -1, status: 0, errno: Some(4) });
    assert_eq!(over.reaped, Some(Reap::Failed(Wait::WaitFailure(4))));
}

#[test]
fn a_wait_that_fails_for_good_ends_the_release() {
    let mut kernel = Kernel::new();
    let mut handle = started(&mut kernel, "date");
    let closed = Reply::Status { ret: 0, errno: 0 };
    let gone = Reply::Wait { ret: -1, status: 0, errno: Some(10) };
    assert_eq!(
        handle.teardown(&[closed, closed, closed, gone]),
        Next::Done(Reap::Failed(Wait::WaitFailure(10)))
    );
    assert_eq!(handle.reaped, Some(Reap::Failed(Wait::WaitFailure(10))));
    let mut other = started(&mut kernel, "date");
    let lost = Reply::Wait { ret: 4242, status: 0, errno: None };
    assert_eq!(
        other.teardown(&[closed, closed, closed, lost]),
        Next::Done(Reap::Failed(Wait::ErrnoNotFound))
    );
}

#[test]
fn a_stream_that_cannot_be_closed_is_noted_and_passed_over() {
    let mut kernel = Kernel::new();
    let mut handle = started(&mut kernel, "date");
    let closed = Reply::Status { ret: 0, errno: 0 };
    let stuck = |errno: i32| Reply::Status { ret: -1, errno };
    let exited = Reply::Wait { ret: 4242, status: 0, errno: Some(0) };
    assert_eq!(handle.teardown(&[stuck(5)]), Next::Call(Call::FClose(0x1200)));
    assert_eq!(
        handle.teardown(&[stuck(5), closed, stuck(9), exited]),
        Next::Done(Reap::Exited(4242, 0))
    );
    assert_eq!(
        handle.noted,
        Notes {
            stdin: Some(Close::FCloseErrno(5)),
            stdout: None,
            stderr: Some(Close::FCloseErrno(9)),
        }
    );
    assert_eq!((handle.stdin, handle.stdout, handle.stderr), (0, 0, 0));
}

#[test]
fn a_second_release_does_nothing() {
    let mut kernel = Kernel::new();
    kernel.status = 256;
    let mut handle = started(&mut kernel, "date");
    assert_eq!(release(&mut kernel, &mut handle), Reap::Exited(4242, 256));
    let after = handle.clone();
    let calls = kernel.calls.len();
    assert_eq!(release(&mut kernel, &mut handle), Reap::Exited(4242, 256));
    assert_eq!(kernel.calls.len(), calls);
    assert_eq!(handle, after);
    assert_eq!(
        handle.teardown(&[Reply::Status { ret: 0, errno: 0 }]),
        Next::Done(Reap::Exited(4242, 256))
    );
    assert_eq!(handle, after);
}

#[test]
fn a_handle_without_a_child_has_nothing_to_wait_for() {
    let mut kernel = Kernel::new();
    let mut handle = Popen::arg("date");
    assert_eq!(release(&mut kernel, &mut handle), Reap::NoChild);
    assert!(kernel.calls.is_empty());
    assert_eq!(handle.reaped, Some(Reap::NoChild));
}

#[test]
fn a_hundred_cycles_leak_nothing() {
    let mut kernel = Kernel::new();
    let baseline = kernel.open.len();
    for _ in 0..100 {
        let mut handle = started(&mut kernel, "true");
        assert_eq!(kernel.open.len(), baseline + 3);
        assert_eq!(release(&mut kernel, &mut handle), Reap::Exited(4242, 0));
        assert_eq!(kernel.open.len(), baseline);
        assert!(kernel.streams.is_empty());
    }
}

#[test]
fn a_hundred_failed_starts_leak_nothing() {
    let mut kernel = Kernel::new();
    kernel.limit = kernel.open.len() + 5;
    let baseline = kernel.open.len();
    for _ in 0..100 {
        assert_eq!(start(&mut kernel, "true"), Started::Parent(Err(PopenError::PipeCreateFailed)));
        assert_eq!(kernel.open.len(), baseline);
    }
}

#[test]
fn an_attempt_can_be_fed_step_by_step() {
    let mut kernel = Kernel::new();
    let mut w = Wiring::new(Platform::native(), true);
    assert_eq!(w.stage, Stage::Piping(0));
    let mut steps = 0;
    while let Some(call) = w.next_call() {
        w = w.feed(&kernel.perform(call));
        steps += 1;
    }
    assert_eq!(steps, 10);
    assert_eq!(w.stage, Stage::Ready);
    assert_eq!(w, Wiring::new(Platform::native(), true).run(&[
        Reply::Pair { ret: 0, errno: 0, first: 3, second: 4 },
        Reply::Pair { ret: 0, errno: 0, first: 5, second: 6 },
        Reply::Pair { ret: 0, errno: 0, first: 7, second: 8 },
        Reply::Fork { ret: 4242, errno: 0, pid: 41, ppid: 1 },
        Reply::Status { ret: 0, errno: 0 },
        Reply::Status { ret: 0, errno: 0 },
        Reply::Status { ret: 0, errno: 0 },
        Reply::Stream { handle: 0x1100, errno: 0 },
        Reply::Stream { handle: 0x1200, errno: 0 },
        Reply::Stream { handle: 0x1300, errno: 0 },
    ]));
    // An attempt that is over takes no further answer.
    assert_eq!(w.feed(&Reply::Status { ret: -1, errno: 5 }), w);
}
