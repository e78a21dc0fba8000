//! What holds of every release of a handle, whatever the system answers.

use crate::call::{Call, Reply};
use crate::popen::{Notes, Phase, Release};
use vstd::prelude::*;

verus! {

impl Release {
    /// How much is left to do: one call for each open stream, and the wait.
    pub open spec fn remaining(self) -> nat {
        if self.reaped is Some {
            0
        } else {
            (if self.stdin != 0 {
                1nat
            } else {
                0nat
            }) + (if self.stdout != 0 {
                1nat
            } else {
                0nat
            }) + (if self.stderr != 0 {
                1nat
            } else {
                0nat
            }) + (if self.pid is Some {
                1nat
            } else {
                0nat
            })
        }
    }

    /// Whether a release that is over has closed every stream.
    pub open spec fn tidy(self) -> bool {
        self.reaped is Some ==> self.stdin == 0 && self.stdout == 0 && self.stderr == 0
    }

    /// Every state that a release reaches from a tidy one is tidy.
    pub proof fn lemma_after_tidy(self, replies: Seq<Reply>)
        requires
            self.tidy(),
        ensures
            self.after(replies).tidy(),
        decreases replies.len(),
    {
        if replies.len() > 0 {
            self.lemma_after_tidy(replies.drop_last());
        }
    }
}

/// A wait that a signal interrupted changes nothing: the release still waits
/// for the same child with the same call.
pub proof fn law_interrupted_wait_is_made_again(r: Release, reply: Reply)
    requires
        r.phase() == Phase::Reaping,
        r.pid is Some,
        r.interrupted(reply),
    ensures
        r.fed(reply) == r,
        r.pending() == Some(Call::WaitPid(r.pid.unwrap(), 0)),
{
}

/// However often the wait is interrupted, the release comes to the status
/// that the first other answer brings, and to nothing before it.
pub proof fn law_interruptions_do_not_change_the_status(
    r: Release,
    interruptions: Seq<Reply>,
    last: Reply,
)
    requires
        r.phase() == Phase::Reaping,
        r.pid is Some,
        forall|i: int| 0 <= i < interruptions.len() ==> r.interrupted(#[trigger] interruptions[i]),
        !r.interrupted(last),
    ensures
        r.after(interruptions) == r,
        r.after(interruptions.push(last)) == r.ended(r.reap(last)),
        r.after(interruptions.push(last)).reaped == Some(r.reap(last)),
    decreases interruptions.len(),
{
    if interruptions.len() > 0 {
        law_interruptions_do_not_change_the_status(r, interruptions.drop_last(), last);
    }
    assert(interruptions.push(last).drop_last() == interruptions);
}

/// A release that is over has closed every stream of the handle: nothing
/// that the handle held is left open, however the calls were answered.
pub proof fn law_release_closes_every_stream(r: Release, replies: Seq<Reply>)
    requires
        r.reaped is None,
    ensures
        r.settled().after(replies).reaped is Some ==> {
            &&& r.settled().after(replies).stdin == 0
            &&& r.settled().after(replies).stdout == 0
            &&& r.settled().after(replies).stderr == 0
        },
{
    r.settled().lemma_after_tidy(replies);
}

/// Every answer that is not an interruption of the wait brings a release one
/// call nearer to its end, so that a release is over after at most four of
/// them.
pub proof fn law_release_makes_progress(r: Release, reply: Reply)
    requires
        r.reaped is None,
        r.live(),
        !(r.stream() is None && r.interrupted(reply)),
    ensures
        r.fed(reply).remaining() < r.remaining(),
        r.remaining() <= 4,
{
}

/// A release that is over stays as it is: there is no call left to make, and
/// no answer changes it. The child is waited for once.
pub proof fn law_release_is_over_once(r: Release, replies: Seq<Reply>)
    requires
        r.reaped is Some,
    ensures
        r.pending() is None,
        r.settled() == r,
        r.after(replies) == r,
    decreases replies.len(),
{
    if replies.len() > 0 {
        law_release_is_over_once(r, replies.drop_last());
    }
}

/// Before the wait is over no second wait is asked for after the status came:
/// the call for a child is pending only while nothing is collected.
pub proof fn law_wait_only_while_unreaped(r: Release)
    ensures
        r.pending() is Some && r.pending().unwrap() is WaitPid ==> r.reaped is None && r.stream()
            is None,
{
}

/// A release closes the streams in their order, input, output, error, and
/// waits for the child only when none is left; the wait blocks.
pub proof fn law_release_goes_in_order(r: Release)
    requires
        r.reaped is None,
    ensures
        r.stdin != 0 ==> r.pending() == Some(Call::FClose(r.stdin)),
        r.stdin == 0 && r.stdout != 0 ==> r.pending() == Some(Call::FClose(r.stdout)),
        r.stdin == 0 && r.stdout == 0 && r.stderr != 0 ==> r.pending() == Some(
            Call::FClose(r.stderr),
        ),
        r.stdin == 0 && r.stdout == 0 && r.stderr == 0 && r.pid is Some ==> r.pending() == Some(
            Call::WaitPid(r.pid.unwrap(), 0),
        ),
{
}

impl Release {
    /// Answers taken in two runs bring a release where they bring it taken
    /// in one.
    pub proof fn lemma_after_concat(self, first: Seq<Reply>, then: Seq<Reply>)
        ensures
            self.after(first + then) == self.after(first).after(then),
        decreases then.len(),
    {
        if then.len() == 0 {
            assert(first + then == first);
        } else {
            self.lemma_after_concat(first, then.drop_last());
            assert((first + then).drop_last() == first + then.drop_last());
            assert((first + then).last() == then.last());
        }
    }
}

/// The release of a handle that has its three streams and its child, in
/// closed form: three answers close the streams, whatever they say, and each
/// failure is noted in its place; then the wait is made until an answer says
/// something else than that it was interrupted, and that answer is how the
/// wait ended.
pub proof fn law_release_of_a_whole_handle(
    r: Release,
    closes: Seq<Reply>,
    interruptions: Seq<Reply>,
    last: Reply,
)
    requires
        r.reaped is None,
        r.stdin != 0,
        r.stdout != 0,
        r.stderr != 0,
        r.pid is Some,
        closes.len() == 3,
        forall|i: int| 0 <= i < interruptions.len() ==> r.interrupted(#[trigger] interruptions[i]),
        !r.interrupted(last),
    ensures
        r.after(closes + interruptions) == (Release {
            stdin: 0,
            stdout: 0,
            stderr: 0,
            noted: Notes {
                stdin: Release::failure(r.stdin, closes[0]),
                stdout: Release::failure(r.stdout, closes[1]),
                stderr: Release::failure(r.stderr, closes[2]),
            },
            ..r
        }),
        r.after(closes + interruptions.push(last)) == r.after(closes + interruptions).ended(
            r.reap(last),
        ),
        r.after(closes + interruptions).pending() == Some(Call::WaitPid(r.pid.unwrap(), 0)),
{
    let one = r.fed(closes[0]);
    let two = one.fed(closes[1]);
    let three = two.fed(closes[2]);
    assert(r.after(closes.take(0)) == r);
    assert(r.after(closes.take(1)) == one) by {
        assert(closes.take(1).drop_last() == closes.take(0));
    }
    assert(r.after(closes.take(2)) == two) by {
        assert(closes.take(2).drop_last() == closes.take(1));
    }
    assert(r.after(closes) == three) by {
        assert(closes.drop_last() == closes.take(2));
    }
    assert(three.interrupted(last) == r.interrupted(last));
    assert forall|i: int| 0 <= i < interruptions.len() implies three.interrupted(
        #[trigger] interruptions[i],
    ) by {
        assert(r.interrupted(interruptions[i]));
    }
    law_interruptions_do_not_change_the_status(three, interruptions, last);
    r.lemma_after_concat(closes, interruptions);
    r.lemma_after_concat(closes, interruptions.push(last));
}

} // verus!
