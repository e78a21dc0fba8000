use libc_tools::{
    socket_pipe, Call, Close, Dup, DupError, Fork, ForkPid, Next, Pipe, PipeSide, Platform,
    PopenError, Pty, PtyError, Reply, SocketPair, SocketPairError, Wait,
};

fn ok() -> Reply {
    Reply::Status { ret: 0, errno: 0 }
}

fn failed(errno: i32) -> Reply {
    Reply::Status { ret: -1, errno }
}

fn pair(first: i32, second: i32) -> Reply {
    Reply::Pair { ret: 0, errno: 0, first, second }
}

fn made(reply: Reply) -> Pipe {
    match Pipe::pipe(&[reply]) {
        Next::Done(Some(pipe)) => pipe,
        other => panic!("no pipe: {:?}", other),
    }
}

#[test]
fn fork_box() {}

#[test]
fn tty_shell() {}

#[test]
fn test_close_pipe() {
    assert_eq!(Pipe::pipe(&[]), Next::Call(Call::Pipe));
    let pipe = made(pair(3, 4));
    assert_eq!(pipe.read, 3);
    assert_eq!(pipe.write, 4);
    assert!(pipe.read_open && pipe.write_open);
}

#[test]
fn test_create_pipe_macro() {
    let pipes1 = vec![made(pair(3, 4)), made(pair(5, 6))];
    let pipes2 = vec![made(pair(7, 8))];
    assert!(pipes1.len() == 2);
    assert!(pipes2.len() == 1);
    let s: Vec<i32> = pipes1.iter().flat_map(|p| [p.read, p.write]).collect();
    assert_eq!(s, vec![3, 4, 5, 6]);
    assert_eq!(Close::close(&s, &[ok(), ok(), ok(), ok()]), Next::Done(Ok(())));
    let s1: Vec<i32> = pipes2.iter().flat_map(|p| [p.read, p.write]).collect();
    assert_eq!(Close::close(&s1, &[ok(), ok()]), Next::Done(Ok(())));
}

#[test]
fn socketpair_redirect() {
    assert_eq!(
        SocketPair::create(libc::PF_UNIX, libc::SOCK_DGRAM, 0, &[]),
        Next::Call(Call::SocketPair(libc::PF_UNIX, libc::SOCK_DGRAM, 0))
    );
    let made = SocketPair::create(libc::PF_UNIX, libc::SOCK_DGRAM, 0, &[pair(9, 10)]);
    let sockets = match made {
        Next::Done(Ok(sockets)) => sockets,
        other => panic!("no sockets: {:?}", other),
    };
    assert_eq!(sockets.sv, [9, 10]);
    assert_eq!(Close::close(&[sockets.sv[0]], &[]), Next::Call(Call::Close(9)));
    assert_eq!(Close::close(&[sockets.sv[0]], &[ok()]), Next::Done(Ok(())));
}

#[test]
fn close_asks_for_each_descriptor_in_order() {
    let fds = [3, 4, 5];
    assert_eq!(Close::close(&fds, &[]), Next::Call(Call::Close(3)));
    assert_eq!(Close::close(&fds, &[ok()]), Next::Call(Call::Close(4)));
    assert_eq!(Close::close(&fds, &[ok(), ok()]), Next::Call(Call::Close(5)));
    assert_eq!(Close::close(&fds, &[ok(), ok(), ok()]), Next::Done(Ok(())));
}

#[test]
fn close_of_nothing_is_done() {
    assert_eq!(Close::close(&[], &[]), Next::Done(Ok(())));
    assert_eq!(Close::fclose(&[], &[]), Next::Done(Ok(())));
}

#[test]
fn close_stops_at_the_first_failure() {
    let fds = [3, 4, 5];
    assert_eq!(
        Close::close(&fds, &[ok(), failed(9)]),
        Next::Done(Err(Close::CloseErrno(9)))
    );
    assert_eq!(
        Close::close(&fds, &[ok(), failed(9), ok()]),
        Next::Done(Err(Close::CloseErrno(9)))
    );
    assert_eq!(Close::close(&fds, &[failed(4), failed(9)]), Next::Done(Err(Close::CloseErrno(4))));
}

#[test]
fn close_takes_an_answer_of_another_kind_as_failure() {
    let reply = Reply::Stream { handle: 7, errno: 5 };
    assert_eq!(Close::close(&[3], &[reply]), Next::Done(Err(Close::CloseErrno(5))));
    let odd = Reply::Status { ret: 7, errno: 3 };
    assert_eq!(Close::close(&[3], &[odd]), Next::Done(Err(Close::CloseErrno(3))));
}

#[test]
fn fclose_reports_its_own_error() {
    let ps = [100usize, 200];
    assert_eq!(Close::fclose(&ps, &[]), Next::Call(Call::FClose(100)));
    assert_eq!(Close::fclose(&ps, &[ok()]), Next::Call(Call::FClose(200)));
    assert_eq!(Close::fclose(&ps, &[ok(), ok()]), Next::Done(Ok(())));
    assert_eq!(Close::fclose(&ps, &[failed(5)]), Next::Done(Err(Close::FCloseErrno(5))));
}

#[test]
fn close_messages() {
    assert_eq!(Close::CloseErrno(9).to_string(), "close fd failed! errno: 9");
    assert_eq!(Close::FCloseErrno(-12).to_string(), "fclose file failed! errno: -12");
    assert_eq!(Close::CloseErrno(0).to_string(), "close fd failed! errno: 0");
    assert_eq!(
        Close::CloseErrno(i32::MIN).to_string(),
        format!("close fd failed! errno: {}", i32::MIN)
    );
    assert_eq!(
        Close::CloseErrno(i32::MAX).to_string(),
        format!("close fd failed! errno: {}", i32::MAX)
    );
}

#[test]
fn decimal_text_agrees_with_the_standard_one() {
    let values =
        [0, 1, 9, 10, 11, 99, 100, 101, 1000, 65535, -1, -9, -10, -100, 2147483647, -2147483648];
    for v in values {
        assert_eq!(DupError::Errno(v).to_string(), format!("dup error, errno: {}", v));
    }
}

#[test]
fn dup_returns_the_new_descriptor() {
    assert_eq!(Dup::dup(3, &[]), Next::Call(Call::Dup(3)));
    assert_eq!(Dup::dup(3, &[Reply::Status { ret: 7, errno: 0 }]), Next::Done(Ok(7)));
    assert_eq!(Dup::dup(3, &[failed(24)]), Next::Done(Err(DupError::Errno(24))));
}

#[test]
fn dup2_succeeds_only_with_the_target() {
    assert_eq!(Dup::dup2(3, 1, &[]), Next::Call(Call::Dup2(3, 1)));
    assert_eq!(Dup::dup2(3, 1, &[Reply::Status { ret: 1, errno: 0 }]), Next::Done(Ok(1)));
    assert_eq!(Dup::dup2(3, 1, &[failed(9)]), Next::Done(Err(DupError::Errno(9))));
    assert_eq!(Dup::dup2(0, -1, &[failed(9)]), Next::Done(Err(DupError::Errno(9))));
    assert_eq!(
        Dup::dup2(3, 1, &[Reply::Status { ret: 2, errno: 7 }]),
        Next::Done(Err(DupError::Errno(7)))
    );
}

#[test]
fn close_to_skips_a_descriptor_in_place() {
    assert_eq!(Dup::transform(1).close_to(1, &[]), Next::Done(Ok(1)));
    assert_eq!(Dup::transform(5).close_to(1, &[]), Next::Call(Call::Dup2(5, 1)));
    assert_eq!(
        Dup::transform(5).close_to(1, &[Reply::Status { ret: 1, errno: 0 }]),
        Next::Done(Ok(1))
    );
    assert_eq!(Dup::transform(5).close_to(1, &[failed(9)]), Next::Done(Err(DupError::Errno(9))));
}

#[test]
fn dup2s_moves_each_descriptor_that_is_not_in_place() {
    let olds = [5, 1, 7];
    let news = [0, 1, 2];
    let moved = |n: i32| Reply::Status { ret: n, errno: 0 };
    assert_eq!(Dup::dup2s(&olds, &news, &[]), Next::Call(Call::Dup2(5, 0)));
    assert_eq!(Dup::dup2s(&olds, &news, &[moved(0)]), Next::Call(Call::Dup2(7, 2)));
    assert_eq!(Dup::dup2s(&olds, &news, &[moved(0), moved(2)]), Next::Done(Ok(())));
    assert_eq!(
        Dup::dup2s(&olds, &news, &[moved(0), failed(9)]),
        Next::Done(Err(DupError::Errno(9)))
    );
    assert_eq!(Dup::dup2s(&olds, &news, &[failed(24)]), Next::Done(Err(DupError::Errno(24))));
    assert_eq!(Dup::dup2s(&[0], &[-1], &[failed(9)]), Next::Done(Err(DupError::Errno(9))));
    assert_eq!(Dup::dup2s(&[], &[], &[]), Next::Done(Ok(())));
    assert_eq!(Dup::dup2s(&[4, 4], &[4, 4], &[]), Next::Done(Ok(())));
}

#[test]
fn dup_error_message() {
    assert_eq!(DupError::Errno(9).to_string(), "dup error, errno: 9");
}

#[test]
fn fork_asks_for_the_call_first() {
    assert_eq!(Fork::fork(&[]), Next::Call(Call::Fork));
}

#[test]
fn fork_tells_the_two_sides_apart() {
    let child = Reply::Fork { ret: 0, errno: 0, pid: 42, ppid: 41 };
    assert_eq!(Fork::fork(&[child]), Next::Done(ForkPid::Children((41, 42))));
    let parent = Reply::Fork { ret: 42, errno: 0, pid: 41, ppid: 1 };
    assert_eq!(Fork::fork(&[parent]), Next::Done(ForkPid::Parent((41, 42))));
    let least = Reply::Fork { ret: 1, errno: 0, pid: 41, ppid: 1 };
    assert_eq!(Fork::fork(&[least]), Next::Done(ForkPid::Parent((41, 1))));
    let most = Reply::Fork { ret: i32::MAX, errno: 0, pid: 41, ppid: 1 };
    assert_eq!(Fork::fork(&[most]), Next::Done(ForkPid::Parent((41, i32::MAX))));
}

#[test]
fn fork_failure_is_a_third_outcome() {
    let none = Reply::Fork { ret: -1, errno: 11, pid: 41, ppid: 1 };
    assert_eq!(Fork::fork(&[none]), Next::Done(ForkPid::Failed(11)));
    let lowest = Reply::Fork { ret: i32::MIN, errno: 12, pid: 41, ppid: 1 };
    assert_eq!(Fork::fork(&[lowest]), Next::Done(ForkPid::Failed(12)));
    assert_eq!(Fork::fork(&[failed(3)]), Next::Done(ForkPid::Failed(3)));
}

#[test]
fn wait_for_any_child() {
    assert_eq!(Wait::children(&[]), Next::Call(Call::Wait));
    let exited = Reply::Wait { ret: 42, status: 256, errno: Some(0) };
    assert_eq!(Wait::children(&[exited]), Next::Done(Ok((42, 256))));
    let none = Reply::Wait { ret: -1, status: 0, errno: Some(10) };
    assert_eq!(Wait::children(&[none]), Next::Done(Err(Wait::WaitFailure(10))));
    let lost = Reply::Wait { ret: -1, status: 0, errno: None };
    assert_eq!(Wait::children(&[lost]), Next::Done(Err(Wait::ErrnoNotFound)));
    let zero = Reply::Wait { ret: 0, status: 0, errno: Some(0) };
    assert_eq!(Wait::children(&[zero]), Next::Done(Ok((0, 0))));
}

#[test]
fn wait_for_one_child_with_options() {
    let platform = Platform::native();
    let hang = platform.no_hang;
    assert_eq!(Wait::children_with(42, 0, &platform, &[]), Next::Call(Call::WaitPid(42, 0)));
    assert_eq!(Wait::children_with(42, hang, &platform, &[]), Next::Call(Call::WaitPid(42, hang)));
    let nothing = Reply::Wait { ret: 0, status: 0, errno: Some(0) };
    assert_eq!(
        Wait::children_with(42, hang, &platform, &[nothing]),
        Next::Done(Err(Wait::WNoHangExit))
    );
    assert_eq!(Wait::children_with(42, 0, &platform, &[nothing]), Next::Done(Ok((0, 0))));
    let exited = Reply::Wait { ret: 42, status: 32512, errno: Some(0) };
    assert_eq!(Wait::children_with(42, hang, &platform, &[exited]), Next::Done(Ok((42, 32512))));
    let failed = Reply::Wait { ret: -1, status: 0, errno: Some(10) };
    assert_eq!(
        Wait::children_with(42, 0, &platform, &[failed]),
        Next::Done(Err(Wait::WaitFailure(10)))
    );
    let lost = Reply::Wait { ret: 42, status: 0, errno: None };
    assert_eq!(
        Wait::children_with(42, 0, &platform, &[lost]),
        Next::Done(Err(Wait::ErrnoNotFound))
    );
}

#[test]
fn wait_options_are_tested_bit_by_bit() {
    let platform = Platform { interrupted: 4, no_hang: 1, nonblocking: 2048, local: 1, stream: 1 };
    let nothing = Reply::Wait { ret: 0, status: 0, errno: Some(0) };
    assert_eq!(
        Wait::children_with(42, 3, &platform, &[nothing]),
        Next::Done(Err(Wait::WNoHangExit))
    );
    assert_eq!(Wait::children_with(42, 2, &platform, &[nothing]), Next::Done(Ok((0, 0))));
}

#[test]
fn wait_messages() {
    assert_eq!(Wait::ErrnoNotFound.to_string(), "errno not found!");
    assert_eq!(Wait::WaitFailure(4).to_string(), "exec failed!");
    assert_eq!(Wait::WNoHangExit.to_string(), "exec failed!");
}

#[test]
fn the_platform_is_the_one_of_libc() {
    let platform = Platform::native();
    assert_eq!(platform.interrupted, libc::EINTR);
    assert_eq!(platform.no_hang, libc::WNOHANG);
    assert_eq!(platform.nonblocking, libc::O_NONBLOCK);
    assert_eq!(platform.local, libc::AF_UNIX);
    assert_eq!(platform.stream, libc::SOCK_STREAM);
}

#[test]
fn pipe_is_made_unless_the_call_failed() {
    assert_eq!(Pipe::pipe(&[]), Next::Call(Call::Pipe));
    assert_eq!(Pipe::pipe2(2048, &[]), Next::Call(Call::Pipe2(2048)));
    let none = Reply::Pair { ret: -1, errno: 24, first: 0, second: 0 };
    assert_eq!(Pipe::pipe(&[none]), Next::Done(None));
    assert_eq!(Pipe::pipe2(2048, &[none]), Next::Done(None));
    assert_eq!(Pipe::pipe(&[ok()]), Next::Done(None));
    assert_eq!(Pipe::pipe2(2048, &[pair(5, 6)]), Next::Done(Some(Pipe::new(&[5, 6]))));
}

#[test]
fn pipe_gives_the_end_of_a_side() {
    let pipe = Pipe::new(&[3, 4]);
    assert_eq!(pipe.get(PipeSide::Read), 3);
    assert_eq!(pipe.get(PipeSide::Write), 4);
}

#[test]
fn pipe_closes_each_side_once() {
    let mut pipe = Pipe::new(&[3, 4]);
    assert_eq!(pipe.close(PipeSide::Read), Some(3));
    assert_eq!(pipe.close(PipeSide::Read), None);
    assert!(!pipe.read_open && pipe.write_open);
    assert_eq!(pipe.close(PipeSide::Write), Some(4));
    assert_eq!(pipe.close(PipeSide::Write), None);
    assert_eq!(pipe.release(&[]), Next::Done(Ok(())));
}

#[test]
fn pipe_release_closes_what_is_open() {
    let mut pipe = Pipe::new(&[3, 4]);
    assert_eq!(pipe.release(&[]), Next::Call(Call::Close(3)));
    assert_eq!(pipe.release(&[ok()]), Next::Call(Call::Close(4)));
    assert_eq!(pipe.release(&[ok(), ok()]), Next::Done(Ok(())));
    assert_eq!(pipe.release(&[failed(9)]), Next::Done(Err(Close::CloseErrno(9))));
    pipe.close(PipeSide::Read);
    assert_eq!(pipe.release(&[]), Next::Call(Call::Close(4)));
}

#[test]
fn pipe_message() {
    assert_eq!(
        Pipe::new(&[3, 4]).to_string(),
        "pipe: | for_read(fd[0]) 3 <<= for_write(fd[1]) 4 |"
    );
}

#[test]
fn socket_pair_is_made_or_reports_the_error() {
    assert_eq!(SocketPair::create(1, 1, 0, &[]), Next::Call(Call::SocketPair(1, 1, 0)));
    assert_eq!(
        SocketPair::create(1, 1, 0, &[pair(5, 6)]),
        Next::Done(Ok(SocketPair { sv: [5, 6] }))
    );
    let none = Reply::Pair { ret: -1, errno: 97, first: 0, second: 0 };
    assert_eq!(
        SocketPair::create(1, 1, 0, &[none]),
        Next::Done(Err(SocketPairError::SocketErrno(97)))
    );
    assert_eq!(
        SocketPairError::SocketErrno(97).to_string(),
        "create socket with socket pair failed! errno: 97"
    );
}

#[test]
fn socket_pipe_makes_both_calls_and_then_decides() {
    let platform = Platform::native();
    let none = |errno: i32| Reply::Pair { ret: -1, errno, first: 0, second: 0 };
    assert_eq!(
        socket_pipe(&platform, &[]),
        Next::Call(Call::SocketPair(libc::AF_UNIX, libc::SOCK_STREAM, 0))
    );
    assert_eq!(socket_pipe(&platform, &[pair(5, 6)]), Next::Call(Call::Pipe2(libc::O_NONBLOCK)));
    assert_eq!(socket_pipe(&platform, &[none(97)]), Next::Call(Call::Pipe2(libc::O_NONBLOCK)));
    assert_eq!(
        socket_pipe(&platform, &[pair(5, 6), pair(7, 8)]),
        Next::Done(Ok([[5, 6], [7, 8]]))
    );
    // Where only one of the two was made, its two descriptors are closed
    // before the failure is reported, whatever the closes answer.
    let pipe_only = [none(97), Reply::Pair { ret: 0, errno: 97, first: 7, second: 8 }];
    assert_eq!(socket_pipe(&platform, &pipe_only), Next::Call(Call::Close(7)));
    let mut answers = pipe_only.to_vec();
    answers.push(ok());
    assert_eq!(socket_pipe(&platform, &answers), Next::Call(Call::Close(8)));
    answers.push(failed(9));
    assert_eq!(
        socket_pipe(&platform, &answers),
        Next::Done(Err(PopenError::SocketPairError(SocketPairError::SocketErrno(97))))
    );
    let sockets_only = [pair(5, 6), none(24)];
    assert_eq!(socket_pipe(&platform, &sockets_only), Next::Call(Call::Close(5)));
    let mut answers = sockets_only.to_vec();
    answers.push(failed(9));
    assert_eq!(socket_pipe(&platform, &answers), Next::Call(Call::Close(6)));
    answers.push(ok());
    assert_eq!(socket_pipe(&platform, &answers), Next::Done(Err(PopenError::PipeCreateFailed)));
    answers.push(ok());
    assert_eq!(socket_pipe(&platform, &answers), Next::Done(Err(PopenError::PipeCreateFailed)));
    assert_eq!(
        socket_pipe(&platform, &[none(97), none(24)]),
        Next::Done(Err(PopenError::CreateRedirectError(24)))
    );
}

#[test]
fn popen_error_messages() {
    assert_eq!(PopenError::PipeCreateFailed.to_string(), "create pipe failed!");
    assert_eq!(PopenError::ExecArgFailed(-1).to_string(), "exec arg failed! exit code: -1");
    assert_eq!(PopenError::ForkFailed(11).to_string(), "fork failed!");
    assert_eq!(
        PopenError::PipeRedirectFailed(3).to_string(),
        "redirect std(in|out|err) to pipe failed! code: 3"
    );
    assert_eq!(
        PopenError::Dup2Errno(DupError::Errno(9)).to_string(),
        "dup2 old fd to new fd failed! dup error, errno: 9"
    );
    assert_eq!(
        PopenError::FdOpenErrno(22).to_string(),
        "open file descriptor as file* stream failed! errno: 22"
    );
    assert_eq!(
        PopenError::CloseError(Close::CloseErrno(9)).to_string(),
        "close fd failed! errno: 9"
    );
    assert_eq!(
        PopenError::SocketPairError(SocketPairError::SocketErrno(97)).to_string(),
        "socket pair create socket with socket pair failed! errno: 97"
    );
    assert_eq!(
        PopenError::CreateRedirectError(24).to_string(),
        "create socket pair and stderr pipe both failed! errno: 24"
    );
    assert_eq!(PopenError::CStringParesError(3).to_string(), "parse nul byte found in pr failed!");
}

#[test]
fn pty_parent_gets_its_terminal() {
    let mut name = [0u8; 50];
    name[..10].copy_from_slice(b"/dev/pts/3");
    assert_eq!(
        match Pty::new(0, 0, &name, &[]) {
            Next::Call(call) => call,
            _ => panic!("no call"),
        },
        Call::ForkPty(0, 0)
    );
    let reply = Reply::Pty { ret: 77, errno: 0, fd: 5 };
    let pty = match Pty::new(0, 0, &name, &[reply]) {
        Next::Done(Ok(pty)) => pty,
        _ => panic!("no terminal"),
    };
    assert_eq!(pty.pty_fd, Some(5));
    assert_eq!(pty.pid, Some(77));
    assert_eq!(pty.terminal_attr, 0);
    assert_eq!(pty.windows_size, 0);
    let text = pty.device_name.unwrap();
    assert_eq!(text.len(), 50);
    assert!(text.starts_with("/dev/pts/3\0"));
}

#[test]
fn pty_name_is_read_leniently() {
    let name = [0x66u8, 0xff, 0x6f];
    let reply = Reply::Pty { ret: 77, errno: 0, fd: 5 };
    let pty = match Pty::new(0, 0, &name, &[reply]) {
        Next::Done(Ok(pty)) => pty,
        _ => panic!("no terminal"),
    };
    assert_eq!(pty.device_name.unwrap(), "f\u{fffd}o");
}

#[test]
fn pty_child_becomes_the_shell_or_ends() {
    let name = [0u8; 50];
    let child = Reply::Pty { ret: 0, errno: 0, fd: 0 };
    assert!(matches!(Pty::new(1, 2, &name, &[child]), Next::Call(Call::Terminal)));
    assert!(matches!(Pty::new(1, 2, &name, &[child, failed(2)]), Next::Call(Call::Exit(-1))));
}

#[test]
fn pty_runs_an_interactive_shell() {
    assert_eq!(Pty::shell_command(), vec!["/bin/zsh", "-i"]);
}

#[test]
fn pty_failure_carries_the_error_number() {
    let name = [0u8; 50];
    let none = Reply::Pty { ret: -1, errno: 12, fd: 0 };
    assert!(matches!(
        Pty::new(0, 0, &name, &[none]),
        Next::Done(Err(PtyError::ForkFailed(12)))
    ));
}
