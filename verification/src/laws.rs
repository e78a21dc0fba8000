//! What holds of every attempt to start a child, whatever the system
//! answers.

use crate::call::{batch_next, sweep, Call, Next, Reply};
use crate::close::Close;
use crate::error::PopenError;
use crate::fork::Fork;
use crate::pipe::{Pipe, PipeSide};
use crate::platform::Platform;
use crate::popen::Popen;
use crate::wiring::{
    childs_end, replacement_status, status_byte, End, Stage, Wiring, CLOSE_FAILED,
    COMMAND_REFUSED, DUPLICATION_FAILED, REPLACEMENT_FAILED,
};
use vstd::prelude::*;

verus! {

/// Whether the first `k` answers each report that their call succeeded.
pub open spec fn all_succeeded(calls: Seq<Call>, replies: Seq<Reply>, k: int) -> bool {
    forall|j: int| 0 <= j < k ==> (#[trigger] calls[j]).succeeded(replies[j])
}

/// Whether call number `k` is the first that failed, and with error number
/// `e`.
pub open spec fn first_failure(calls: Seq<Call>, replies: Seq<Reply>, k: int, e: i32) -> bool {
    &&& 0 <= k < calls.len()
    &&& k < replies.len()
    &&& all_succeeded(calls, replies, k)
    &&& !calls[k].succeeded(replies[k])
    &&& e == replies[k].errno()
}

/// Where a sweep from `i` ends when all calls before `i` succeeded; the
/// result is the place of the first failure, if there is one.
proof fn lemma_sweep(calls: Seq<Call>, replies: Seq<Reply>, i: int) -> (at: int)
    requires
        0 <= i <= calls.len(),
        i <= replies.len(),
        all_succeeded(calls, replies, i),
    ensures
        sweep(calls, replies, i) matches Ok(k) ==> i <= k <= calls.len() && k <= replies.len() && (k
            == calls.len() || k == replies.len()) && all_succeeded(calls, replies, k),
        sweep(calls, replies, i) matches Err(e) ==> first_failure(calls, replies, at, e),
    decreases calls.len() - i,
{
    if i < calls.len() && i < replies.len() {
        if calls[i].succeeded(replies[i]) {
            assert forall|j: int| 0 <= j < i + 1 implies (#[trigger] calls[j]).succeeded(
                replies[j],
            ) by {
                if j < i {
                    assert(all_succeeded(calls, replies, i));
                }
            }
            lemma_sweep(calls, replies, i + 1)
        } else {
            i
        }
    } else {
        i
    }
}

/// A run of calls goes on while every answer reports success, and no
/// further: it asks for the next call only when all calls so far succeeded,
/// it is done with success only when every call succeeded, and it fails with
/// the error number of the first call that failed, whatever came after.
pub proof fn law_batch_stops_at_the_first_failure(calls: Seq<Call>, replies: Seq<Reply>)
    ensures
        batch_next(calls, replies) matches Next::Call(call) ==> replies.len() < calls.len() && call
            == calls[replies.len() as int] && all_succeeded(calls, replies, replies.len() as int),
        batch_next(calls, replies) matches Next::Done(Ok(_)) ==> replies.len() >= calls.len()
            && all_succeeded(calls, replies, calls.len() as int),
        batch_next(calls, replies) matches Next::Done(Err(e)) ==> exists|k: int|
            first_failure(calls, replies, k, e),
{
    let at = lemma_sweep(calls, replies, 0);
    if let Next::Done(Err(e)) = batch_next(calls, replies) {
        assert(first_failure(calls, replies, at, e));
    }
}

impl Pipe {
    /// Whether both ends are open.
    pub open spec fn is_whole(self) -> bool {
        self.read_open && self.write_open
    }
}

/// Closing a side of a pipe twice is the same as closing it once: the second
/// time nothing is given up and nothing changes.
pub proof fn law_close_is_idempotent(pipe: Pipe, side: PipeSide)
    ensures
        pipe.without(side).given_up(side) is None,
        pipe.without(side).without(side) == pipe.without(side),
        pipe.without(PipeSide::Read).without(PipeSide::Write).is_inert(),
{
}

impl Wiring {
    /// Whether no stream is held.
    pub open spec fn streamless(self) -> bool {
        self.stdin == 0 && self.stdout == 0 && self.stderr == 0
    }

    /// Whether one of the parent's ends is either still a bare descriptor or
    /// has passed into its stream, and not both.
    pub open spec fn passes(self, end: End, stream: usize) -> bool {
        self.is_open(end) <==> stream == 0
    }

    /// Whether none of the child's ends is open here.
    pub open spec fn childs_ends_closed(self) -> bool {
        !self.is_open(End::InputRead) && !self.is_open(End::OutputWrite) && !self.is_open(
            End::ErrorWrite,
        )
    }

    /// How many things this process holds of the attempt: open ends and
    /// streams.
    #[verifier::opaque]
    pub open spec fn held(self) -> nat {
        let ends = (if self.input.read_open {
            1nat
        } else {
            0nat
        }) + (if self.input.write_open {
            1nat
        } else {
            0nat
        }) + (if self.output.read_open {
            1nat
        } else {
            0nat
        }) + (if self.output.write_open {
            1nat
        } else {
            0nat
        }) + (if self.error.read_open {
            1nat
        } else {
            0nat
        }) + (if self.error.write_open {
            1nat
        } else {
            0nat
        });
        let streams = (if self.stdin != 0 {
            1nat
        } else {
            0nat
        }) + (if self.stdout != 0 {
            1nat
        } else {
            0nat
        }) + (if self.stderr != 0 {
            1nat
        } else {
            0nat
        });
        ends + streams
    }

    /// What every state of an attempt satisfies, stage by stage.
    ///
    /// Before the split the pipes made so far are whole, the others hold
    /// nothing, and there is no stream. The parent closes the child's ends
    /// while its own are still bare descriptors; it wraps its own only once
    /// the child's are closed; it is ready once each of its ends has passed
    /// into a stream. A failed attempt holds nothing and has no child that
    /// it has not waited for. The child becomes the shell only once no
    /// descriptor of the pipes is open outside the standard streams, and it
    /// never ends with a status that reads as success.
    pub open spec fn sound(self) -> bool {
        match self.stage {
            Stage::Piping(k) => k <= 2 && self.streamless() && self.pid is None && (if k >= 1 {
                self.input.is_whole()
            } else {
                self.input.is_inert()
            }) && (if k >= 2 {
                self.output.is_whole()
            } else {
                self.output.is_inert()
            }) && self.error.is_inert(),
            Stage::Splitting => self.streamless() && self.pid is None && self.input.is_whole()
                && self.output.is_whole() && self.error.is_whole(),
            Stage::ParentClosing => self.streamless() && self.pid is Some && self.is_open(
                End::InputWrite,
            ) && self.is_open(End::OutputRead) && self.is_open(End::ErrorRead),
            Stage::ParentWrapping => self.childs_ends_closed() && self.pid is Some && self.passes(
                End::InputWrite,
                self.stdin,
            ) && self.passes(End::OutputRead, self.stdout) && self.passes(
                End::ErrorRead,
                self.stderr,
            ),
            Stage::Ready => self.input.is_inert() && self.output.is_inert() && self.error.is_inert()
                && self.stdin != 0 && self.stdout != 0 && self.stderr != 0 && self.pid is Some,
            Stage::Failed(_) => self.holds_nothing() && self.pid is None,
            Stage::ChildReplacing => self.stray_end() is None,
            Stage::ChildExiting(code) => status_byte(code) != 0,
            _ => true,
        }
    }

    /// A step keeps a state sound.
    pub proof fn lemma_advanced_sound(self)
        requires
            self.sound(),
        ensures
            self.advanced().sound(),
    {
        law_child_status_tells_the_step(0);
    }

    /// Settling keeps a state sound. An unwinding state settles to failure
    /// exactly when nothing is held.
    pub proof fn lemma_settled_sound(self)
        requires
            self.sound(),
        ensures
            self.settled().sound(),
    {
        reveal(Wiring::settled);
        let w1 = self.advanced();
        let w2 = w1.advanced();
        let w3 = w2.advanced();
        let w4 = w3.advanced();
        let w5 = w4.advanced();
        self.lemma_advanced_sound();
        w1.lemma_advanced_sound();
        w2.lemma_advanced_sound();
        w3.lemma_advanced_sound();
        w4.lemma_advanced_sound();
        w5.lemma_advanced_sound();
    }

    /// An answer keeps a state sound.
    pub proof fn lemma_fed_sound(self, reply: Reply)
        requires
            self.sound(),
        ensures
            self.fed(reply).sound(),
    {
        assert forall|w: Wiring| w.sound() implies #[trigger] w.settled().sound() by {
            w.lemma_settled_sound();
        }
        if let Reply::Status { ret, .. } = reply {
            law_child_status_tells_the_step(ret);
        } else {
            law_child_status_tells_the_step(0);
        }
    }

    /// Every state that an attempt reaches is sound.
    pub proof fn lemma_after_sound(self, replies: Seq<Reply>)
        requires
            self.sound(),
        ensures
            self.after(replies).sound(),
        decreases replies.len(),
    {
        if replies.len() > 0 {
            self.lemma_after_sound(replies.drop_last());
            self.after(replies.drop_last()).lemma_fed_sound(replies.last());
        }
    }
}

impl Wiring {
    /// The stream that one of the parent's ends passes into.
    pub open spec fn stream_over(self, end: End) -> usize {
        match end {
            End::InputWrite => self.stdin,
            End::OutputRead => self.stdout,
            End::ErrorRead => self.stderr,
            _ => 0,
        }
    }

    /// How many things an answer to the pending call hands to the process:
    /// the two ends of a pipe that was made, nothing otherwise.
    pub open spec fn received(self, reply: Reply) -> nat {
        if self.stage is Piping && Pipe::made(reply) is Some {
            2
        } else {
            0
        }
    }

    /// How many things the pending call gives back: one for a `close` and
    /// for an `fclose`, nothing otherwise.
    pub open spec fn released(self) -> nat {
        match self.pending() {
            Some(Call::Close(_)) => 1,
            Some(Call::FClose(_)) => 1,
            _ => 0,
        }
    }

    /// What the process holds after the answers `replies` if every call
    /// gives back what it names and every pipe that is made hands over two
    /// ends: what was received less what was released.
    pub open spec fn balance(self, replies: Seq<Reply>) -> int
        decreases replies.len(),
    {
        if replies.len() == 0 {
            self.held() as int
        } else {
            let before = self.after(replies.drop_last());
            self.balance(replies.drop_last()) + before.received(replies.last()) - before.released()
        }
    }

    /// Whether two states hold the same: the same pipes, open alike, and
    /// the same streams.
    pub open spec fn holds_what(self, other: Wiring) -> bool {
        &&& self.input == other.input
        &&& self.output == other.output
        &&& self.error == other.error
        &&& self.stdin == other.stdin
        &&& self.stdout == other.stdout
        &&& self.stderr == other.stderr
    }

    /// Settling changes nothing of what is held.
    pub proof fn lemma_settled_keeps(self)
        ensures
            self.settled().holds_what(self),
    {
        self.lemma_settled();
    }
}

impl Wiring {
    /// States that hold the same hold as much.
    pub proof fn lemma_held_alike(self, other: Wiring)
        requires
            self.holds_what(other),
        ensures
            self.held() == other.held(),
    {
        reveal(Wiring::held);
    }

    /// A state holds nothing exactly when it holds no thing.
    pub proof fn lemma_held_nothing(self)
        ensures
            self.held() == 0 <==> self.holds_nothing(),
    {
        reveal(Wiring::held);
    }

    /// Closing an end that is open takes one thing away.
    pub proof fn lemma_held_without(self, end: End)
        requires
            self.is_open(end),
        ensures
            self.without(end).held() + 1 == self.held(),
    {
        reveal(Wiring::held);
    }

    /// Closing the first stream takes one thing away.
    pub proof fn lemma_held_without_stream(self)
        requires
            self.stream() is Some,
        ensures
            self.without_stream().held() + 1 == self.held(),
    {
        reveal(Wiring::held);
    }

    /// An end that passes into a stream is still held, as that stream.
    pub proof fn lemma_held_wrapped(self, end: End, handle: usize)
        requires
            self.is_open(end),
            self.stream_over(end) == 0,
            handle != 0,
            end == End::InputWrite || end == End::OutputRead || end == End::ErrorRead,
        ensures
            self.wrapped(end, handle).held() == self.held(),
    {
        reveal(Wiring::held);
    }

    /// A pipe that is made in place of one that holds nothing adds its two
    /// ends.
    pub proof fn lemma_held_with_pipe(self, k: u8, pipe: Pipe)
        requires
            pipe.is_whole(),
            if k == 0 {
                self.input.is_inert()
            } else if k == 1 {
                self.output.is_inert()
            } else {
                self.error.is_inert()
            },
        ensures
            self.with_pipe(k, pipe).held() == self.held() + 2,
    {
        reveal(Wiring::held);
    }
}

impl Wiring {
    /// An unwinding state settles to failure exactly when nothing is held
    /// and no child is left to wait for, and settling gives nothing back.
    pub proof fn lemma_unwinding_settled(self)
        requires
            self.stage is Unwinding,
        ensures
            self.settled() == (if self.holds_nothing() && self.pid is None {
                self.at(Stage::Failed(self.stage->Unwinding_0))
            } else {
                self
            }),
    {
        reveal(Wiring::settled);
    }
}

impl Wiring {
    /// Answers taken in two runs bring an attempt where they bring it taken
    /// in one.
    pub proof fn lemma_after_concat(self, first: Seq<Reply>, then: Seq<Reply>)
        ensures
            self.after(first + then) == self.after(first).after(then),
        decreases then.len(),
    {
        if then.len() == 0 {
            assert(first + then == first);
        } else {
            self.lemma_after_concat(first, then.drop_last());
            assert((first + then).drop_last() == first + then.drop_last());
            assert((first + then).last() == then.last());
        }
    }
}

/// The process splits only with the three pipes made and whole: when the
/// attempt asks for the split, all six ends are open, and before that it
/// asks for nothing but pipes.
pub proof fn law_split_only_with_three_whole_pipes(
    platform: Platform,
    sendable: bool,
    replies: Seq<Reply>,
)
    ensures
        ({
            let w = Wiring::start(platform, sendable).after(replies);
            w.pending() == Some(Call::Fork) ==> {
                &&& w.input.is_whole()
                &&& w.output.is_whole()
                &&& w.error.is_whole()
                &&& w.held() == 6
            }
        }),
{
    reveal(Wiring::held);
    Wiring::start(platform, sendable).lemma_after_sound(replies);
}

/// The two processes go on from the same descriptors: whichever side an
/// answer to the split is seen on, the pipes and what is open of them are as
/// they were before it. Only the parent learns the child's identifier.
pub proof fn law_split_copies_the_pipes(w: Wiring, in_parent: Reply, in_child: Reply)
    requires
        w.stage is Splitting,
        Fork::side(in_parent) is Parent,
        Fork::side(in_child) is Children,
    ensures
        w.fed(in_parent).holds_what(w),
        w.fed(in_child).holds_what(w),
        w.fed(in_parent).is_parents(),
        !w.fed(in_child).is_parents(),
        w.fed(in_parent).pid == Some(Fork::side(in_parent)->Parent_0.1),
        w.fed(in_child).pid == w.pid,
{
    assert forall|x: Wiring| #![trigger x.settled()] x.settled().holds_what(x) && x.settled().pid
        == x.pid by {
        x.lemma_settled();
    }
    assert forall|x: Wiring| #![trigger x.settled()] x.is_parents() == x.settled().is_parents() by {
        reveal(Wiring::settled);
    }
}

/// Once the parent's wiring is complete, whatever the system answered on the
/// way, the parent holds none of the child's ends: the read end of the input
/// pipe and the write ends of the output and error pipes are closed. Its own
/// three ends have passed into the three streams, none of which is missing,
/// and it knows its child.
pub proof fn law_parent_keeps_only_its_streams(
    platform: Platform,
    sendable: bool,
    replies: Seq<Reply>,
)
    ensures
        ({
            let w = Wiring::start(platform, sendable).after(replies);
            w.stage is Ready ==> {
                &&& !w.is_open(End::InputRead)
                &&& !w.is_open(End::OutputWrite)
                &&& !w.is_open(End::ErrorWrite)
                &&& !w.is_open(End::InputWrite)
                &&& !w.is_open(End::OutputRead)
                &&& !w.is_open(End::ErrorRead)
                &&& w.stdin != 0
                &&& w.stdout != 0
                &&& w.stderr != 0
                &&& w.pid is Some
            }
        }),
{
    Wiring::start(platform, sendable).lemma_after_sound(replies);
}

/// The child becomes the shell only once every descriptor of the pipes that
/// is not one of its standard streams is closed.
pub proof fn law_child_keeps_only_its_standard_streams(
    platform: Platform,
    sendable: bool,
    replies: Seq<Reply>,
)
    ensures
        Wiring::start(platform, sendable).after(replies).pending() == Some(Call::Shell)
            ==> Wiring::start(platform, sendable).after(replies).stray_end() is None,
{
    Wiring::start(platform, sendable).lemma_after_sound(replies);
}

/// A start hands out a handle only when it is whole: the three streams are
/// there, the child is known, and the command is the one that was asked for.
/// A start that fails has given back everything it held and has waited for
/// the child, if it had one.
pub proof fn law_exec_is_all_or_nothing(handle: Popen, replies: Seq<Reply>)
    ensures
        handle.exec_next(replies) matches Next::Done(Ok(made)) ==> {
            &&& made.stdin != 0
            &&& made.stdout != 0
            &&& made.stderr != 0
            &&& made.pid is Some
            &&& made.arg == handle.arg
            &&& handle.wiring(replies).input.is_inert()
            &&& handle.wiring(replies).output.is_inert()
            &&& handle.wiring(replies).error.is_inert()
        },
        handle.exec_next(replies) matches Next::Done(Err(_)) ==> handle.wiring(
            replies,
        ).holds_nothing() && handle.wiring(replies).pid is None,
{
    Wiring::start(handle.platform, handle.sendable()).lemma_after_sound(replies);
}

/// A pipe that cannot be made ends the attempt with `PipeCreateFailed`, at
/// once where nothing is held and else after the unwinding.
pub proof fn law_failed_pipe_is_reported(w: Wiring, reply: Reply)
    requires
        w.stage is Piping,
        Pipe::made(reply) is None,
    ensures
        w.fed(reply).stage == (if w.holds_nothing() && w.pid is None {
            Stage::Failed(PopenError::PipeCreateFailed)
        } else {
            Stage::Unwinding(PopenError::PipeCreateFailed)
        }),
        w.fed(reply).held() == w.held(),
        w.fed(reply).pid == w.pid,
{
    w.at(Stage::Unwinding(PopenError::PipeCreateFailed)).lemma_unwinding_settled();
    w.fed(reply).lemma_held_alike(w);
}

/// While an attempt unwinds and holds something, every answer, good or
/// bad, gives back exactly one thing, and the error that started the
/// unwinding stays: the attempt fails with it as soon as nothing is held and
/// no child is left to wait for.
pub proof fn law_unwinding_gives_back_one(w: Wiring, reply: Reply)
    requires
        w.stage is Unwinding,
        !w.holds_nothing(),
    ensures
        w.fed(reply).held() + 1 == w.held(),
        w.fed(reply).pid == w.pid,
        w.fed(reply).stage == (if w.fed(reply).holds_nothing() && w.pid is None {
            Stage::Failed(w.stage->Unwinding_0)
        } else {
            w.stage
        }),
        w.pending() is Some,
        w.pending().unwrap() is Close || w.pending().unwrap() is FClose,
{
    if w.stream() is Some {
        let fine = w.without_stream();
        let noted = w.without_stream().noting(Close::FCloseErrno(reply.errno()));
        fine.lemma_unwinding_settled();
        noted.lemma_unwinding_settled();
        w.lemma_held_without_stream();
        w.fed(reply).lemma_held_alike(fine);
    } else {
        let end = w.open_end().unwrap();
        let fine = w.without(end);
        let noted = w.without(end).noting(Close::CloseErrno(reply.errno()));
        fine.lemma_unwinding_settled();
        noted.lemma_unwinding_settled();
        w.lemma_held_without(end);
        w.fed(reply).lemma_held_alike(fine);
    }
}

/// Where an unwinding stands after the first `n` of its answers: it has
/// given back `n` things, and it goes on until nothing is held and no child
/// is left to wait for.
pub proof fn lemma_unwinding_runs(w: Wiring, replies: Seq<Reply>, n: nat)
    requires
        w.stage is Unwinding,
        !w.holds_nothing(),
        n <= replies.len(),
        n <= w.held(),
    ensures
        w.after(replies.take(n as int)).held() + n == w.held(),
        w.after(replies.take(n as int)).pid == w.pid,
        w.after(replies.take(n as int)).stage == (if n == w.held() && w.pid is None {
            Stage::Failed(w.stage->Unwinding_0)
        } else {
            w.stage
        }),
        n == w.held() ==> w.after(replies.take(n as int)).holds_nothing(),
    decreases n,
{
    w.lemma_held_nothing();
    if n == 0 {
        assert(replies.take(0).len() == 0);
    } else {
        let before = replies.take(n as int - 1);
        lemma_unwinding_runs(w, replies, (n - 1) as nat);
        assert(replies.take(n as int).drop_last() == before);
        assert(replies.take(n as int).last() == replies[n as int - 1]);
        w.after(before).lemma_held_nothing();
        law_unwinding_gives_back_one(w.after(before), replies[n as int - 1]);
        w.after(replies.take(n as int)).lemma_held_nothing();
    }
}

/// An unwinding takes as many answers as things are held, whatever they say,
/// to hold nothing. Without a child it has then failed with the error that
/// started it; with a child it waits for that child.
pub proof fn law_unwinding_ends(w: Wiring, replies: Seq<Reply>)
    requires
        w.stage is Unwinding,
        !w.holds_nothing(),
        replies.len() == w.held(),
    ensures
        w.after(replies).holds_nothing(),
        w.after(replies).pid == w.pid,
        w.pid is None ==> w.after(replies).stage == Stage::Failed(w.stage->Unwinding_0),
        w.pid is Some ==> w.after(replies).stage == w.stage && w.after(replies).pending() == Some(
            Call::WaitPid(w.pid.unwrap(), 0),
        ),
{
    lemma_unwinding_runs(w, replies, replies.len());
    assert(replies.take(replies.len() as int) == replies);
    w.after(replies).lemma_held_nothing();
}

/// An attempt that unwinds and holds nothing waits for its child before it
/// fails, so that no child is left behind: a wait that a signal interrupted
/// is made again, and the first other answer, whatever it says, ends the
/// attempt with the error that started the unwinding.
pub proof fn law_unwinding_waits_for_the_child(
    w: Wiring,
    interruptions: Seq<Reply>,
    last: Reply,
)
    requires
        w.stage is Unwinding,
        w.holds_nothing(),
        w.pid is Some,
        forall|i: int| 0 <= i < interruptions.len() ==> w.interrupted(#[trigger] interruptions[i]),
        !w.interrupted(last),
    ensures
        w.pending() == Some(Call::WaitPid(w.pid.unwrap(), 0)),
        w.after(interruptions) == w,
        w.after(interruptions.push(last)) == w.reaped().at(Stage::Failed(w.stage->Unwinding_0)),
    decreases interruptions.len(),
{
    if interruptions.len() > 0 {
        law_unwinding_waits_for_the_child(w, interruptions.drop_last(), last);
    }
    assert(interruptions.push(last).drop_last() == interruptions);
    w.reaped().lemma_unwinding_settled();
}

/// When the first two pipes are made and the third is not, the attempt closes
/// the four descriptors of the first two, whatever the closes answer, and then
/// fails with `PipeCreateFailed`, holding nothing.
pub proof fn law_failed_third_pipe_leaves_nothing_open(
    platform: Platform,
    sendable: bool,
    first: Reply,
    second: Reply,
    third: Reply,
    closes: Seq<Reply>,
)
    requires
        Pipe::made(first) is Some,
        Pipe::made(second) is Some,
        Pipe::made(third) is None,
        closes.len() == 4,
    ensures
        ({
            let made = Wiring::start(platform, sendable).after(seq![first, second]);
            let end = Wiring::start(platform, sendable).after(
                seq![first, second, third] + closes,
            );
            &&& made.input == Pipe::made(first).unwrap()
            &&& made.output == Pipe::made(second).unwrap()
            &&& made.held() == 4
            &&& end.stage == Stage::Failed(PopenError::PipeCreateFailed)
            &&& end.holds_nothing()
        }),
{
    reveal(Wiring::held);
    let start = Wiring::start(platform, sendable);
    let one = start.fed(first);
    let two = one.fed(second);
    let three = two.fed(third);
    assert(start.after(seq![first]) == one) by {
        assert(seq![first].drop_last() == Seq::<Reply>::empty());
        assert(start.after(Seq::<Reply>::empty()) == start);
    }
    assert(start.after(seq![first, second]) == two) by {
        assert(seq![first, second].drop_last() == seq![first]);
    }
    assert(start.after(seq![first, second, third]) == three) by {
        assert(seq![first, second, third].drop_last() == seq![first, second]);
    }
    law_failed_pipe_is_reported(two, third);
    law_unwinding_ends(three, closes);
    start.lemma_after_concat(seq![first, second, third], closes);
}

/// An attempt that failed, at whichever step and whatever the system
/// answered, holds nothing any more and has left no child behind: no end of
/// a pipe is open, no stream is left, and a child that was started has been
/// waited for.
pub proof fn law_failure_leaves_nothing_open(
    platform: Platform,
    sendable: bool,
    replies: Seq<Reply>,
)
    ensures
        Wiring::start(platform, sendable).after(replies).stage is Failed ==> Wiring::start(
            platform,
            sendable,
        ).after(replies).holds_nothing() && Wiring::start(platform, sendable).after(
            replies,
        ).pid is None,
{
    Wiring::start(platform, sendable).lemma_after_sound(replies);
}

/// No end of a pipe leaves the record without a call that deals with it: an
/// end that was open before an answer and is not open after it was either
/// named by the `close` that was pending, or by the `fdopen` that was
/// pending, and then it has passed into its stream.
pub proof fn law_no_end_is_dropped_silently(w: Wiring, reply: Reply, end: End)
    requires
        w.sound(),
        w.is_open(end),
        !w.fed(reply).is_open(end),
    ensures
        w.pending() == Some(Call::Close(w.fd(end))) || (w.pending() == Some(
            Call::FdOpen(w.fd(end), end.mode()),
        ) && w.fed(reply).stream_over(end) != 0),
        w.fed(reply).fd(end) == w.fd(end),
{
    assert forall|x: Wiring| #![trigger x.settled()] x.settled().holds_what(x) by {
        x.lemma_settled_keeps();
    }
}

/// No stream leaves the record without the `fclose` that names it.
pub proof fn law_no_stream_is_dropped_silently(w: Wiring, reply: Reply, end: End)
    requires
        w.sound(),
        w.stream_over(end) != 0,
        w.fed(reply).stream_over(end) != w.stream_over(end),
    ensures
        w.pending() == Some(Call::FClose(w.stream_over(end))),
        w.fed(reply).stream_over(end) == 0,
{
    assert forall|x: Wiring| #![trigger x.settled()] x.settled().holds_what(x) by {
        x.lemma_settled_keeps();
    }
}

/// The count of what is held, answer by answer, while the pipes are made
/// and at the split.
proof fn lemma_count_before_split(w: Wiring, reply: Reply)
    requires
        w.sound(),
        w.stage is Piping || w.stage is Splitting,
    ensures
        w.fed(reply).held() == w.held() + w.received(reply) - w.released(),
{
    let after = w.fed(reply);
    assert forall|x: Wiring| #![trigger x.settled()] x.settled().holds_what(x) by {
        x.lemma_settled_keeps();
    }
    match w.stage {
        Stage::Piping(k) => {
            match Pipe::made(reply) {
                Some(pipe) => {
                    w.lemma_held_with_pipe(k, pipe);
                    after.lemma_held_alike(w.with_pipe(k, pipe));
                },
                None => {
                    after.lemma_held_alike(w);
                },
            }
        },
        _ => {
            after.lemma_held_alike(w);
        },
    }
}

/// The count of what is held, answer by answer, in the parent.
proof fn lemma_count_in_parent(w: Wiring, reply: Reply)
    requires
        w.sound(),
        w.stage is ParentClosing || w.stage is ParentWrapping,
    ensures
        w.fed(reply).held() == w.held() + w.received(reply) - w.released(),
{
    let after = w.fed(reply);
    assert forall|x: Wiring| #![trigger x.settled()] x.settled().holds_what(x) by {
        x.lemma_settled_keeps();
    }
    match w.stage {
        Stage::ParentClosing => {
            match w.child_end() {
                Some(end) => {
                    w.lemma_held_without(end);
                    after.lemma_held_alike(w.without(end));
                },
                None => {
                    after.lemma_held_alike(w);
                },
            }
        },
        _ => {
            match w.kept_end() {
                Some(end) => {
                    if reply matches Reply::Stream { handle, .. } && handle != 0 {
                        let handle = reply->Stream_handle;
                        w.lemma_held_wrapped(end, handle);
                        after.lemma_held_alike(w.wrapped(end, handle));
                    } else {
                        after.lemma_held_alike(w);
                    }
                },
                None => {
                    after.lemma_held_alike(w);
                },
            }
        },
    }
}

/// The count of what is held, answer by answer, in the child.
proof fn lemma_count_in_child(w: Wiring, reply: Reply)
    requires
        !w.is_parents(),
    ensures
        w.fed(reply).held() == w.held() + w.received(reply) - w.released(),
{
    let after = w.fed(reply);
    assert forall|x: Wiring| #![trigger x.settled()] x.settled().holds_what(x) by {
        x.lemma_settled_keeps();
    }
    match w.stage {
        Stage::ChildClosing => {
            match w.stray_end() {
                Some(end) => {
                    w.lemma_held_without(end);
                    after.lemma_held_alike(w.without(end));
                },
                None => {
                    after.lemma_held_alike(w);
                },
            }
        },
        _ => {
            after.lemma_held_alike(w);
        },
    }
}

/// The count of what is held, answer by answer, while unwinding.
proof fn lemma_count_unwinding(w: Wiring, reply: Reply)
    requires
        w.stage is Unwinding,
    ensures
        w.fed(reply).held() == w.held() + w.received(reply) - w.released(),
{
    let after = w.fed(reply);
    assert forall|x: Wiring| #![trigger x.settled()] x.settled().holds_what(x) by {
        x.lemma_settled_keeps();
    }
    match w.stream() {
        Some(handle) => {
            w.lemma_held_without_stream();
            after.lemma_held_alike(w.without_stream());
        },
        None => match w.open_end() {
            Some(end) => {
                w.lemma_held_without(end);
                after.lemma_held_alike(w.without(end));
            },
            None => {
                after.lemma_held_alike(w);
            },
        },
    }
}

/// Each answer changes what the process holds by what it hands over less
/// what the call gave back: a pipe that is made adds its two ends, a `close`
/// and an `fclose` take one thing away whatever they answer, and nothing
/// else changes the count. A descriptor that passes into a stream is still
/// held, as that stream.
pub proof fn law_one_call_releases_one_thing(w: Wiring, reply: Reply)
    requires
        w.sound(),
    ensures
        w.fed(reply).held() == w.held() + w.received(reply) - w.released(),
{
    match w.stage {
        Stage::Piping(_) | Stage::Splitting => lemma_count_before_split(w, reply),
        Stage::ParentClosing | Stage::ParentWrapping => lemma_count_in_parent(w, reply),
        Stage::Unwinding(_) => lemma_count_unwinding(w, reply),
        Stage::Ready | Stage::Failed(_) => {},
        _ => lemma_count_in_child(w, reply),
    }
}

/// Over a whole attempt, what the process holds is what it received less
/// what it released. So an attempt that failed has released, one call each,
/// every descriptor that it ever received; and a parent that is ready holds
/// three things, its streams.
pub proof fn law_held_is_received_less_released(
    platform: Platform,
    sendable: bool,
    replies: Seq<Reply>,
)
    ensures
        ({
            let start = Wiring::start(platform, sendable);
            let end = start.after(replies);
            &&& end.held() == start.balance(replies)
            &&& end.stage is Failed ==> start.balance(replies) == 0
            &&& end.stage is Ready ==> start.balance(replies) == 3
        }),
    decreases replies.len(),
{
    let start = Wiring::start(platform, sendable);
    start.lemma_after_sound(replies);
    assert(start.after(replies).stage is Failed ==> start.after(replies).held() == 0) by {
        start.after(replies).lemma_held_nothing();
    }
    assert(start.after(replies).stage is Ready ==> start.after(replies).held() == 3) by {
        reveal(Wiring::held);
    }
    if replies.len() > 0 {
        law_held_is_received_less_released(platform, sendable, replies.drop_last());
        start.lemma_after_sound(replies.drop_last());
        law_one_call_releases_one_thing(start.after(replies.drop_last()), replies.last());
    }
}

/// The status with which a child ends tells the step at which it ended, and
/// never reads as success: the parent sees 101 after a duplication that
/// failed, 102 after a close that failed, 103 for a command that cannot be
/// handed to the shell, and after a shell that could not be started the
/// status byte of what the attempt returned, or 104 where that byte is zero
/// or one of the three before.
pub proof fn law_child_status_tells_the_step(ret: i32)
    ensures
        status_byte(DUPLICATION_FAILED) == 101,
        status_byte(CLOSE_FAILED) == 102,
        status_byte(COMMAND_REFUSED) == 103,
        status_byte(REPLACEMENT_FAILED) == 104,
        status_byte(replacement_status(ret)) != 0,
        status_byte(replacement_status(ret)) != 101,
        status_byte(replacement_status(ret)) != 102,
        status_byte(replacement_status(ret)) != 103,
{
    assert(101i32 & 0xff == 101) by (bit_vector);
    assert(102i32 & 0xff == 102) by (bit_vector);
    assert(103i32 & 0xff == 103) by (bit_vector);
    assert(104i32 & 0xff == 104) by (bit_vector);
}

/// Each step of the child that fails ends the child with the status of that
/// step: a duplication, a close, a command that cannot be handed over, and
/// the start of the shell.
pub proof fn law_child_ends_with_the_status_of_its_step(w: Wiring, reply: Reply)
    ensures
        w.stage matches Stage::ChildDuplicating(k) && !Call::Dup2(
            w.fd(childs_end(k)),
            childs_end(k).slot(),
        ).succeeded(reply) ==> w.fed(reply).stage == Stage::ChildExiting(DUPLICATION_FAILED),
        w.stage is ChildClosing && w.stray_end() is Some && !Call::Close(
            w.fd(w.stray_end().unwrap()),
        ).succeeded(reply) ==> w.fed(reply).stage == Stage::ChildExiting(CLOSE_FAILED),
        w.stage is ChildReplacing && !w.sendable ==> w.advanced().stage == Stage::ChildExiting(
            COMMAND_REFUSED,
        ),
        w.stage is ChildReplacing ==> w.fed(reply).stage is ChildExiting && status_byte(
            w.fed(reply).stage->ChildExiting_0,
        ) != 0,
{
    if let Reply::Status { ret, .. } = reply {
        law_child_status_tells_the_step(ret);
    } else {
        law_child_status_tells_the_step(0);
    }
}

/// A child never ends with a status that reads as success, at whichever
/// step and whatever the system answered.
pub proof fn law_child_never_ends_with_success(
    platform: Platform,
    sendable: bool,
    replies: Seq<Reply>,
)
    ensures
        Wiring::start(platform, sendable).after(replies).pending() matches Some(Call::Exit(code))
            ==> status_byte(code) != 0,
{
    Wiring::start(platform, sendable).lemma_after_sound(replies);
}

/// An answer of `-1` never reports success, whatever the call wanted: a
/// duplication onto `-1` that returns `-1` has failed.
pub proof fn law_failure_is_never_success(call: Call, errno: i32)
    ensures
        !call.succeeded(Reply::Status { ret: -1i32, errno }),
{
}

} // verus!
