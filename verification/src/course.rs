//! The course of a start that succeeds, in closed form: which answers bring
//! the parent to its handle, which calls it makes on the way, and that no
//! other answers do.

use crate::call::{Call, Mode, Next, Reply};
use crate::close::Close;
use crate::error::PopenError;
use crate::fork::Fork;
use crate::laws::{
    law_unwinding_gives_back_one, law_unwinding_waits_for_the_child, lemma_unwinding_runs,
};
use crate::pipe::Pipe;
use crate::platform::Platform;
use crate::popen::Popen;
use crate::wiring::{End, Stage, Wiring};
use vstd::prelude::*;

verus! {

/// Whether answer number `i` of a start is the one that lets the parent go
/// on: the three pipes are made, the split is seen by the parent, the three
/// closes succeed, and the three streams are there.
pub open spec fn goes_on(replies: Seq<Reply>, i: int) -> bool {
    if i < 3 {
        Pipe::made(replies[i]) is Some
    } else if i == 3 {
        Fork::side(replies[i]) is Parent
    } else if i < 7 {
        Call::Close(0).succeeded(replies[i])
    } else {
        replies[i] matches Reply::Stream { handle, .. } && handle != 0
    }
}

/// Whether the first `n` answers each let the parent go on.
pub open spec fn goes_on_until(replies: Seq<Reply>, n: int) -> bool {
    n <= replies.len() && forall|i: int| 0 <= i < n ==> #[trigger] goes_on(replies, i)
}

/// Whether the answers bring the parent to its handle: there are ten that
/// let it go on. What comes after them is not looked at.
pub open spec fn succeeds(replies: Seq<Reply>) -> bool {
    goes_on_until(replies, 10)
}

/// The stream that an answer to `fdopen` brought.
pub open spec fn stream_of(reply: Reply) -> usize {
    match reply {
        Reply::Stream { handle, .. } => handle,
        _ => 0,
    }
}

/// The child that an answer to `fork` named.
pub open spec fn child_of(reply: Reply) -> i32 {
    match reply {
        Reply::Fork { ret, .. } => ret,
        _ => 0,
    }
}

/// Pipe number `k` as the answers made it, or the pipe that holds nothing
/// while there is no answer for it.
pub open spec fn pipe_of(replies: Seq<Reply>, k: int, n: int) -> Pipe {
    if k < n {
        Pipe::made(replies[k]).unwrap()
    } else {
        Pipe::inert()
    }
}

/// Where a start stands after `n` answers that let the parent go on: first
/// the pipes are there one by one, then the child; then the child's ends are
/// closed, input read, output write, error write; then the parent's ends
/// pass into streams, input write, output read, error read.
pub open spec fn on_course(
    platform: Platform,
    sendable: bool,
    replies: Seq<Reply>,
    n: int,
) -> Wiring {
    let input = pipe_of(replies, 0, n);
    let output = pipe_of(replies, 1, n);
    let error = pipe_of(replies, 2, n);
    Wiring {
        stage: if n < 3 {
            Stage::Piping(n as u8)
        } else if n == 3 {
            Stage::Splitting
        } else if n < 7 {
            Stage::ParentClosing
        } else if n < 10 {
            Stage::ParentWrapping
        } else {
            Stage::Ready
        },
        input: Pipe {
            read_open: input.read_open && n < 5,
            write_open: input.write_open && n < 8,
            ..input
        },
        output: Pipe {
            read_open: output.read_open && n < 9,
            write_open: output.write_open && n < 6,
            ..output
        },
        error: Pipe {
            read_open: error.read_open && n < 10,
            write_open: error.write_open && n < 7,
            ..error
        },
        stdin: if n >= 8 {
            stream_of(replies[7])
        } else {
            0
        },
        stdout: if n >= 9 {
            stream_of(replies[8])
        } else {
            0
        },
        stderr: if n >= 10 {
            stream_of(replies[9])
        } else {
            0
        },
        pid: if n >= 4 {
            Some(child_of(replies[3]))
        } else {
            None
        },
        noted: None,
        platform,
        sendable,
    }
}

/// The call that a start makes after `n` answers that let the parent go on.
pub open spec fn call_on_course(platform: Platform, replies: Seq<Reply>, n: int) -> Call {
    let input = pipe_of(replies, 0, n);
    let output = pipe_of(replies, 1, n);
    let error = pipe_of(replies, 2, n);
    if n < 2 {
        Call::Pipe
    } else if n == 2 {
        Call::Pipe2(platform.nonblocking)
    } else if n == 3 {
        Call::Fork
    } else if n == 4 {
        Call::Close(input.read)
    } else if n == 5 {
        Call::Close(output.write)
    } else if n == 6 {
        Call::Close(error.write)
    } else if n == 7 {
        Call::FdOpen(input.write, Mode::Write)
    } else if n == 8 {
        Call::FdOpen(output.read, Mode::Read)
    } else {
        Call::FdOpen(error.read, Mode::Read)
    }
}

impl Wiring {
    /// Whether the state has left the course to a handle: it is the child's,
    /// or the attempt unwinds or has failed.
    pub open spec fn is_off_course(self) -> bool {
        !self.is_parents() || self.stage is Unwinding || self.stage is Failed
    }

    /// A state that is settled already settles to itself.
    pub proof fn lemma_stable_settled(self)
        requires
            self.is_stable(),
        ensures
            self.settled() == self,
    {
        self.lemma_settled();
    }

    /// A state one step from a settled one settles to that one.
    pub proof fn lemma_one_step_settled(self)
        requires
            self.advanced().is_stable(),
        ensures
            self.settled() == self.advanced(),
    {
        self.lemma_settled_advanced();
        self.advanced().lemma_settled();
    }

    /// Settling does not bring a state back on course.
    pub proof fn lemma_settled_off_course(self)
        requires
            self.is_off_course(),
        ensures
            self.settled().is_off_course(),
    {
        reveal(Wiring::settled);
    }

    /// No answer brings a state back on course.
    pub proof fn lemma_fed_off_course(self, reply: Reply)
        requires
            self.is_off_course(),
        ensures
            self.fed(reply).is_off_course(),
    {
        assert forall|x: Wiring| x.is_off_course() implies (#[trigger] x.settled())
            .is_off_course() by {
            x.lemma_settled_off_course();
        }
    }

    /// No answers bring a state back on course.
    pub proof fn lemma_after_off_course(self, replies: Seq<Reply>)
        requires
            self.is_off_course(),
        ensures
            self.after(replies).is_off_course(),
        decreases replies.len(),
    {
        if replies.len() > 0 {
            self.lemma_after_off_course(replies.drop_last());
            self.after(replies.drop_last()).lemma_fed_off_course(replies.last());
        }
    }

    /// An attempt that is over takes no further answer.
    pub proof fn lemma_after_over(self, replies: Seq<Reply>)
        requires
            self.is_over(),
        ensures
            self.after(replies) == self,
        decreases replies.len(),
    {
        if replies.len() > 0 {
            self.lemma_after_over(replies.drop_last());
        }
    }
}

/// One answer that lets the parent go on takes the start one place along its
/// course; any other answer takes it off.
proof fn lemma_step_on_course(platform: Platform, sendable: bool, replies: Seq<Reply>, n: int)
    requires
        0 <= n < 10,
        n < replies.len(),
        goes_on_until(replies, n),
    ensures
        goes_on(replies, n) ==> on_course(platform, sendable, replies, n).fed(replies[n])
            == on_course(platform, sendable, replies, n + 1),
        !goes_on(replies, n) ==> on_course(platform, sendable, replies, n).fed(
            replies[n],
        ).is_off_course(),
        on_course(platform, sendable, replies, n).pending() == Some(
            call_on_course(platform, replies, n),
        ),
{
    let w = on_course(platform, sendable, replies, n);
    let reply = replies[n];
    assert(n >= 1 ==> goes_on(replies, 0));
    assert(n >= 2 ==> goes_on(replies, 1));
    assert(n >= 3 ==> goes_on(replies, 2));
    assert(n >= 4 ==> goes_on(replies, 3));
    assert(n >= 8 ==> goes_on(replies, 7));
    assert(n >= 9 ==> goes_on(replies, 8));
    assert forall|x: Wiring| x.is_off_course() implies (#[trigger] x.settled()).is_off_course() by {
        x.lemma_settled_off_course();
    }
    if goes_on(replies, n) {
        let next = on_course(platform, sendable, replies, n + 1);
        if n < 3 {
            assert(w.fed(reply) == next);
        } else if n == 3 {
            let x = Wiring { pid: Some(child_of(reply)), ..w }.at(Stage::ParentClosing);
            x.lemma_stable_settled();
            assert(w.fed(reply) == next);
        } else if n < 6 {
            let end = w.child_end().unwrap();
            let x = w.without(end);
            x.lemma_stable_settled();
            assert(w.fed(reply) == next);
        } else if n == 6 {
            let x = w.without(End::ErrorWrite);
            x.lemma_one_step_settled();
            assert(w.fed(reply) == next);
        } else if n < 9 {
            let end = w.kept_end().unwrap();
            let x = w.wrapped(end, stream_of(reply));
            x.lemma_stable_settled();
            assert(w.fed(reply) == next);
        } else {
            let x = w.wrapped(End::ErrorRead, stream_of(reply));
            x.lemma_one_step_settled();
            assert(w.fed(reply) == next);
        }
    } else {
        if n == 3 {
            assert(!Wiring::is_parents(w.at(Stage::ChildDuplicating(0))));
        }
        assert(w.fed(reply).is_off_course());
    }
}

/// After `n` answers that let the parent go on, the start stands at place
/// `n` of its course.
proof fn lemma_on_course(platform: Platform, sendable: bool, replies: Seq<Reply>, n: int)
    requires
        0 <= n <= 10,
        goes_on_until(replies, n),
    ensures
        Wiring::start(platform, sendable).after(replies.take(n)) == on_course(
            platform,
            sendable,
            replies,
            n,
        ),
    decreases n,
{
    let start = Wiring::start(platform, sendable);
    if n == 0 {
        assert(replies.take(0).len() == 0);
        assert(on_course(platform, sendable, replies, 0) == start);
    } else {
        assert(goes_on_until(replies, n - 1));
        assert(goes_on(replies, n - 1));
        lemma_on_course(platform, sendable, replies, n - 1);
        lemma_step_on_course(platform, sendable, replies, n - 1);
        assert(replies.take(n).drop_last() == replies.take(n - 1));
        assert(replies.take(n).last() == replies[n - 1]);
    }
}

/// Where the answers take the start, told from the first `n` that let the
/// parent go on.
proof fn lemma_course(platform: Platform, sendable: bool, replies: Seq<Reply>, n: int)
    requires
        0 <= n <= 10,
        goes_on_until(replies, n),
    ensures
        succeeds(replies) ==> Wiring::start(platform, sendable).after(replies) == on_course(
            platform,
            sendable,
            replies,
            10,
        ),
        !succeeds(replies) ==> !(Wiring::start(platform, sendable).after(replies).stage is Ready),
    decreases 10 - n,
{
    let start = Wiring::start(platform, sendable);
    lemma_on_course(platform, sendable, replies, n);
    let here = on_course(platform, sendable, replies, n);
    assert(replies == replies.take(n) + replies.skip(n));
    start.lemma_after_concat(replies.take(n), replies.skip(n));
    if n == 10 {
        here.lemma_after_over(replies.skip(n));
    } else if replies.len() == n {
        assert(replies.take(n) == replies);
        assert(!succeeds(replies));
    } else if goes_on(replies, n) {
        assert(goes_on_until(replies, n + 1));
        lemma_course(platform, sendable, replies, n + 1);
    } else {
        assert(!succeeds(replies));
        lemma_step_on_course(platform, sendable, replies, n);
        let rest = replies.skip(n);
        assert(rest == seq![replies[n]] + replies.skip(n + 1));
        here.lemma_after_concat(seq![replies[n]], replies.skip(n + 1));
        assert(here.after(seq![replies[n]]) == here.fed(replies[n])) by {
            assert(seq![replies[n]].drop_last() == Seq::<Reply>::empty());
            assert(here.after(Seq::<Reply>::empty()) == here);
        }
        here.fed(replies[n]).lemma_after_off_course(replies.skip(n + 1));
    }
}

/// A start hands out its handle exactly when ten answers let the parent go
/// on: the three pipes are made, the split is seen by the parent, the
/// child's three ends are closed, and the parent's three ends are wrapped.
/// The handle then has the three streams that were made, in their order, and
/// the child that the split named; and nothing else of it has changed.
pub proof fn law_start_succeeds_exactly_when_each_call_does(handle: Popen, replies: Seq<Reply>)
    ensures
        succeeds(replies) <==> handle.exec_next(replies) is Done && handle.exec_next(
            replies,
        )->Done_0 is Ok,
        succeeds(replies) ==> handle.exec_next(replies) == Next::Done(
            Ok::<Popen, PopenError>(
                Popen {
                    stdin: stream_of(replies[7]),
                    stdout: stream_of(replies[8]),
                    stderr: stream_of(replies[9]),
                    pid: Some(child_of(replies[3])),
                    ..handle
                },
            ),
        ),
{
    assert(goes_on_until(replies, 0));
    lemma_course(handle.platform, handle.sendable(), replies, 0);
}

/// While every answer lets the parent go on, the start asks for its calls in
/// a fixed order: two pipes and a third that does not block, the split, the
/// close of the input pipe's read end and of the write ends of the output
/// and error pipes, and a stream for writing over the input pipe's write end
/// and for reading over the read ends of the output and error pipes.
pub proof fn law_start_asks_in_order(handle: Popen, replies: Seq<Reply>)
    requires
        replies.len() < 10,
        goes_on_until(replies, replies.len() as int),
    ensures
        handle.exec_next(replies) == Next::<Result<Popen, PopenError>>::Call(
            call_on_course(handle.platform, replies, replies.len() as int),
        ),
{
    let n = replies.len() as int;
    lemma_on_course(handle.platform, handle.sendable(), replies, n);
    assert(replies.take(n) == replies);
    // The call at place `n` does not depend on the answer that is to come.
    let more = replies.push(Reply::Status { ret: 0, errno: 0 });
    assert forall|i: int| 0 <= i < n implies #[trigger] goes_on(more, i) by {
        assert(goes_on(replies, i));
        assert(more[i] == replies[i]);
    }
    assert(goes_on_until(more, n));
    lemma_step_on_course(handle.platform, handle.sendable(), more, n);
    assert(on_course(handle.platform, handle.sendable(), more, n) == on_course(
        handle.platform,
        handle.sendable(),
        replies,
        n,
    )) by {
        assert forall|k: int| 0 <= k < n implies more[k] == replies[k] by {}
    }
    assert(call_on_course(handle.platform, more, n) == call_on_course(
        handle.platform,
        replies,
        n,
    )) by {
        assert forall|k: int| 0 <= k < n implies more[k] == replies[k] by {}
    }
}

/// The failure that a start reports when answer number `n` is the first that
/// does not let the parent go on, and it is not the child that sees it: a
/// pipe that was not made, a split that failed, a close that failed, or a
/// stream that was not made, each but the first with its error number.
pub open spec fn failure_at(replies: Seq<Reply>, n: int) -> PopenError {
    if n < 3 {
        PopenError::PipeCreateFailed
    } else if n == 3 {
        PopenError::ForkFailed(Fork::side(replies[n])->Failed_0)
    } else if n < 7 {
        PopenError::CloseError(Close::CloseErrno(replies[n].errno()))
    } else {
        PopenError::FdOpenErrno(replies[n].errno())
    }
}

/// How many things the parent holds when answer number `n` is the first that
/// does not let it go on: two for each pipe that was made, less the child's
/// ends that it has tried to close.
pub open spec fn held_at(n: int) -> nat {
    if n < 3 {
        (2 * n) as nat
    } else if n == 3 {
        6
    } else if n < 7 {
        (9 - n) as nat
    } else {
        3
    }
}

/// Whether answer number `n` is the first that does not let the parent go
/// on, and is not the child's view of the split.
pub open spec fn fails_at(replies: Seq<Reply>, n: int) -> bool {
    &&& 0 <= n < 10
    &&& n < replies.len()
    &&& goes_on_until(replies, n)
    &&& !goes_on(replies, n)
    &&& n == 3 ==> Fork::side(replies[n]) is Failed
}

/// Where the start stands right after the first answer that does not let
/// the parent go on: it unwinds, or has failed where it held nothing.
proof fn lemma_failure_begins(platform: Platform, sendable: bool, replies: Seq<Reply>, n: int)
    requires
        fails_at(replies, n),
    ensures
        ({
            let w = Wiring::start(platform, sendable).after(replies.take(n + 1));
            &&& w.held() == held_at(n)
            &&& w.pid == child_at(replies, n)
            &&& w.platform == platform
            &&& w.stage == (if n == 0 {
                Stage::Failed(failure_at(replies, n))
            } else {
                Stage::Unwinding(failure_at(replies, n))
            })
        }),
{
    reveal(Wiring::held);
    let start = Wiring::start(platform, sendable);
    lemma_on_course(platform, sendable, replies, n);
    let here = on_course(platform, sendable, replies, n);
    assert(replies.take(n + 1).drop_last() == replies.take(n));
    assert(replies.take(n + 1).last() == replies[n]);
    assert(n >= 1 ==> goes_on(replies, 0));
    assert(n >= 2 ==> goes_on(replies, 1));
    assert(n >= 3 ==> goes_on(replies, 2));
    assert(n >= 4 ==> goes_on(replies, 3));
    assert(n >= 8 ==> goes_on(replies, 7));
    assert(n >= 9 ==> goes_on(replies, 8));
    let error = failure_at(replies, n);
    if 4 <= n < 7 {
        let end = here.child_end().unwrap();
        here.without(end).at(Stage::Unwinding(error)).lemma_unwinding_settled();
    } else {
        here.at(Stage::Unwinding(error)).lemma_unwinding_settled();
    }
}

/// The child that the parent has when answer number `n` is the first that
/// does not let it go on: the one that the split named, if the split is
/// behind it.
pub open spec fn child_at(replies: Seq<Reply>, n: int) -> Option<i32> {
    if n >= 4 {
        Some(child_of(replies[3]))
    } else {
        None
    }
}

/// Where the start stands once it has given back what it held: without a
/// child it has failed, with a child it still unwinds, and waits.
proof fn lemma_failure_unwound(platform: Platform, sendable: bool, replies: Seq<Reply>, n: int)
    requires
        fails_at(replies, n),
        replies.len() >= n + 1 + held_at(n),
    ensures
        ({
            let w = Wiring::start(platform, sendable).after(replies.take(n + 1 + held_at(n)));
            &&& w.holds_nothing()
            &&& w.pid == child_at(replies, n)
            &&& w.platform == platform
            &&& w.stage == (if n < 4 {
                Stage::Failed(failure_at(replies, n))
            } else {
                Stage::Unwinding(failure_at(replies, n))
            })
        }),
{
    let start = Wiring::start(platform, sendable);
    lemma_failure_begins(platform, sendable, replies, n);
    let begun = start.after(replies.take(n + 1));
    let held = held_at(n);
    let upto = replies.take(n + 1 + held);
    let rest = upto.skip(n + 1);
    assert(upto.take(n + 1) == replies.take(n + 1));
    assert(upto == replies.take(n + 1) + rest);
    start.lemma_after_concat(replies.take(n + 1), rest);
    begun.lemma_held_nothing();
    if n > 0 {
        lemma_unwinding_runs(begun, rest, held);
        assert(rest.take(held as int) == rest);
        lemma_platform_stays(begun, rest);
    } else {
        assert(rest.len() == 0);
    }
}

/// The numbers of the platform stay with an attempt.
proof fn lemma_platform_stays(w: Wiring, replies: Seq<Reply>)
    ensures
        w.after(replies).platform == w.platform,
    decreases replies.len(),
{
    if replies.len() > 0 {
        lemma_platform_stays(w, replies.drop_last());
        assert forall|x: Wiring| #![trigger x.settled()] x.settled().platform == x.platform by {
            x.lemma_settled();
        }
    }
}

/// While the start still holds something after the first answer that does
/// not let the parent go on, it unwinds and asks for a close.
proof fn lemma_failure_goes_on(platform: Platform, sendable: bool, replies: Seq<Reply>, n: int)
    requires
        fails_at(replies, n),
        replies.len() < n + 1 + held_at(n),
    ensures
        Wiring::start(platform, sendable).after(replies).stage is Unwinding,
        Wiring::start(platform, sendable).after(replies).pending() is Some,
        Wiring::start(platform, sendable).after(replies).pending().unwrap() is Close
            || Wiring::start(platform, sendable).after(replies).pending().unwrap() is FClose,
{
    let start = Wiring::start(platform, sendable);
    lemma_failure_begins(platform, sendable, replies, n);
    let begun = start.after(replies.take(n + 1));
    let rest = replies.skip(n + 1);
    assert(replies == replies.take(n + 1) + rest);
    start.lemma_after_concat(replies.take(n + 1), rest);
    begun.lemma_held_nothing();
    lemma_unwinding_runs(begun, rest, rest.len());
    assert(rest.take(rest.len() as int) == rest);
    let now = begun.after(rest);
    now.lemma_held_nothing();
    law_unwinding_gives_back_one(now, Reply::Status { ret: 0, errno: 0 });
}

/// Where the start stands once the answers have let it give back what it
/// held, where the split is not behind it: it has failed, and stays so.
proof fn lemma_failure_is_over(platform: Platform, sendable: bool, replies: Seq<Reply>, n: int)
    requires
        fails_at(replies, n),
        n < 4,
        replies.len() >= n + 1 + held_at(n),
    ensures
        Wiring::start(platform, sendable).after(replies).stage == Stage::Failed(
            failure_at(replies, n),
        ),
{
    let start = Wiring::start(platform, sendable);
    let from = n + 1 + held_at(n);
    lemma_failure_unwound(platform, sendable, replies, n);
    let upto = replies.take(from);
    assert(replies == upto + replies.skip(from));
    start.lemma_after_concat(upto, replies.skip(from));
    start.after(upto).lemma_after_over(replies.skip(from));
}

/// Where the start stands behind the split once it has given back what it
/// held, while every answer to the wait is an interruption: it waits.
proof fn lemma_failure_waits(platform: Platform, sendable: bool, replies: Seq<Reply>, n: int)
    requires
        fails_at(replies, n),
        n >= 4,
        replies.len() >= n + 1 + held_at(n),
        forall|i: int|
            n + 1 + held_at(n) <= i < replies.len() ==> Wiring::start(
                platform,
                sendable,
            ).interrupted(#[trigger] replies[i]),
    ensures
        Wiring::start(platform, sendable).after(replies) == Wiring::start(
            platform,
            sendable,
        ).after(replies.take(n + 1 + held_at(n))),
        Wiring::start(platform, sendable).after(replies).stage == Stage::Unwinding(
            failure_at(replies, n),
        ),
        Wiring::start(platform, sendable).after(replies).pending() == Some(
            Call::WaitPid(child_of(replies[3]), 0),
        ),
{
    let start = Wiring::start(platform, sendable);
    let from = n + 1 + held_at(n);
    lemma_failure_unwound(platform, sendable, replies, n);
    let upto = replies.take(from);
    let waiting = start.after(upto);
    let interruptions = replies.skip(from);
    assert forall|i: int| 0 <= i < interruptions.len() implies waiting.interrupted(
        #[trigger] interruptions[i],
    ) by {
        assert(start.interrupted(replies[from + i]));
    }
    law_unwinding_waits_for_the_child(
        waiting,
        interruptions,
        Reply::Wait { ret: 0, status: 0, errno: Some(0) },
    );
    assert(replies == upto + interruptions);
    start.lemma_after_concat(upto, interruptions);
}

/// Where the start stands behind the split once the wait is answered by
/// something else than an interruption, at answer number `m`: it has failed,
/// and stays so.
proof fn lemma_failure_is_over_after_the_wait(
    platform: Platform,
    sendable: bool,
    replies: Seq<Reply>,
    n: int,
    m: int,
)
    requires
        fails_at(replies, n),
        n >= 4,
        n + 1 + held_at(n) <= m < replies.len(),
        forall|i: int|
            n + 1 + held_at(n) <= i < m ==> Wiring::start(platform, sendable).interrupted(
                #[trigger] replies[i],
            ),
        !Wiring::start(platform, sendable).interrupted(replies[m]),
    ensures
        Wiring::start(platform, sendable).after(replies).stage == Stage::Failed(
            failure_at(replies, n),
        ),
{
    let start = Wiring::start(platform, sendable);
    let before = replies.take(m);
    assert(fails_at(before, n)) by {
        assert forall|i: int| 0 <= i < n implies #[trigger] goes_on(before, i) by {
            assert(goes_on(replies, i));
        }
    }
    assert forall|i: int| n + 1 + held_at(n) <= i < before.len() implies start.interrupted(
        #[trigger] before[i],
    ) by {
        assert(start.interrupted(replies[i]));
    }
    lemma_failure_waits(platform, sendable, before, n);
    assert(failure_at(before, n) == failure_at(replies, n));
    let waiting = start.after(before);
    let through = replies.take(m + 1);
    assert(through.drop_last() == before);
    assert(through.last() == replies[m]);
    lemma_failure_unwound(platform, sendable, before, n);
    assert(waiting.interrupted(replies[m]) == start.interrupted(replies[m]));
    waiting.reaped().lemma_unwinding_settled();
    assert(replies == through + replies.skip(m + 1));
    start.lemma_after_concat(through, replies.skip(m + 1));
    start.after(through).lemma_after_over(replies.skip(m + 1));
}

/// A start that cannot go on reports its failure once it has given back what
/// it held, and not before: when answer number `n` is the first that does
/// not let the parent go on, the start asks for one call for each thing that
/// it holds, whatever those calls answer. Where the split is not behind it,
/// it then fails with the failure of answer `n`, and later answers are not
/// looked at. Where the split is behind it, it then asks for the wait for
/// its child.
pub proof fn law_start_fails_after_unwinding(handle: Popen, replies: Seq<Reply>, n: int)
    requires
        fails_at(replies, n),
    ensures
        replies.len() < n + 1 + held_at(n) ==> handle.exec_next(replies) is Call && (
        handle.exec_next(replies)->Call_0 is Close || handle.exec_next(replies)->Call_0 is FClose),
        n < 4 && replies.len() >= n + 1 + held_at(n) ==> handle.exec_next(replies) == Next::<
            Result<Popen, PopenError>,
        >::Done(Err(failure_at(replies, n))),
        n >= 4 && replies.len() == n + 1 + held_at(n) ==> handle.exec_next(replies) == Next::<
            Result<Popen, PopenError>,
        >::Call(Call::WaitPid(child_of(replies[3]), 0)),
{
    if replies.len() < n + 1 + held_at(n) {
        lemma_failure_goes_on(handle.platform, handle.sendable(), replies, n);
    } else if n < 4 {
        lemma_failure_is_over(handle.platform, handle.sendable(), replies, n);
    } else if replies.len() == n + 1 + held_at(n) {
        lemma_failure_waits(handle.platform, handle.sendable(), replies, n);
    }
}

/// Whether an answer to the wait says to a handle's start that a signal
/// interrupted it.
pub open spec fn interrupts(handle: Popen, reply: Reply) -> bool {
    Wiring::start(handle.platform, handle.sendable()).interrupted(reply)
}

/// A start that fails behind the split does not leave its child behind: once
/// it has given back what it held it waits for the child, makes the wait
/// again while a signal interrupts it, and reports the failure of answer `n`
/// at the first other answer to the wait, answer number `m`. Later answers
/// are not looked at.
pub proof fn law_start_fails_after_the_wait(handle: Popen, replies: Seq<Reply>, n: int, m: int)
    requires
        fails_at(replies, n),
        n >= 4,
        n + 1 + held_at(n) <= m,
        forall|i: int|
            n + 1 + held_at(n) <= i < m && i < replies.len() ==> interrupts(
                handle,
                #[trigger] replies[i],
            ),
    ensures
        m < replies.len() && !interrupts(handle, replies[m]) ==> handle.exec_next(replies)
            == Next::<Result<Popen, PopenError>>::Done(Err(failure_at(replies, n))),
        n + 1 + held_at(n) <= replies.len() <= m ==> handle.exec_next(replies) == Next::<
            Result<Popen, PopenError>,
        >::Call(Call::WaitPid(child_of(replies[3]), 0)),
{
    let start = Wiring::start(handle.platform, handle.sendable());
    if m < replies.len() {
        if !interrupts(handle, replies[m]) {
            assert forall|i: int| n + 1 + held_at(n) <= i < m implies start.interrupted(
                #[trigger] replies[i],
            ) by {
                assert(interrupts(handle, replies[i]));
            }
            lemma_failure_is_over_after_the_wait(
                handle.platform,
                handle.sendable(),
                replies,
                n,
                m,
            );
        }
    } else if n + 1 + held_at(n) <= replies.len() {
        assert forall|i: int| n + 1 + held_at(n) <= i < replies.len() implies start.interrupted(
            #[trigger] replies[i],
        ) by {
            assert(interrupts(handle, replies[i]));
        }
        lemma_failure_waits(handle.platform, handle.sendable(), replies, n);
    }
}

/// The child never comes back: once the split was seen by the child, the
/// start asks for one call after another, the last of them the end of the
/// process, and hands out neither a handle nor a failure.
pub proof fn law_child_never_returns(handle: Popen, replies: Seq<Reply>, more: Seq<Reply>)
    requires
        !handle.wiring(replies).is_parents(),
    ensures
        handle.exec_next(replies + more) is Call,
{
    let start = Wiring::start(handle.platform, handle.sendable());
    start.lemma_after_concat(replies, more);
    start.after(replies).lemma_after_off_course(more);
    assert(!start.after(replies + more).is_parents()) by {
        lemma_child_stays_after(start.after(replies), more);
    }
}

/// A state of the child stays one of the child whatever is answered.
proof fn lemma_child_stays_after(w: Wiring, replies: Seq<Reply>)
    requires
        !w.is_parents(),
    ensures
        !w.after(replies).is_parents(),
    decreases replies.len(),
{
    if replies.len() > 0 {
        lemma_child_stays_after(w, replies.drop_last());
        w.after(replies.drop_last()).lemma_child_stays(replies.last());
    }
}

} // verus!
