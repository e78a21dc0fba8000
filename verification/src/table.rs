//! A model of what the system keeps for one process, by which the calls of an
//! attempt can be read: which descriptors are open, which of them lead to an
//! end of one of the attempt's pipes, and which streams lie over them.
//!
//! The model is the common understanding of the calls: a pipe that is made
//! takes two descriptors that were free, `close` frees a descriptor, `dup2`
//! makes its target lead where its source leads, `fdopen` lays a stream over
//! a descriptor, and `fclose` takes the stream away together with the
//! descriptor under it. Nothing of the engine rests on it. The laws at the
//! end say what the engine's calls come to in a system that behaves so.

use crate::call::{Call, Reply};
use crate::pipe::Pipe;
use crate::platform::Platform;
use crate::popen::{Popen, Release};
use crate::wiring::{childs_end, End, Stage, Wiring};
use vstd::prelude::*;

verus! {

/// What the system keeps for one process.
pub ghost struct Table {
    /// The descriptors that are open.
    pub open: Set<int>,
    /// The descriptors that lead to an end of one of the attempt's pipes.
    pub ends: Map<int, End>,
    /// The streams, each with the descriptor under it.
    pub streams: Map<int, int>,
}

/// The read end of pipe number `k`.
pub open spec fn read_end(k: u8) -> End {
    if k == 0 {
        End::InputRead
    } else if k == 1 {
        End::OutputRead
    } else {
        End::ErrorRead
    }
}

/// The write end of pipe number `k`.
pub open spec fn write_end(k: u8) -> End {
    if k == 0 {
        End::InputWrite
    } else if k == 1 {
        End::OutputWrite
    } else {
        End::ErrorWrite
    }
}

impl Table {
    /// The table once `fd` is closed.
    pub open spec fn without(self, fd: int) -> Table {
        Table { open: self.open.remove(fd), ends: self.ends.remove(fd), ..self }
    }

    /// The table once `fd` is open and leads to `end`.
    pub open spec fn with(self, fd: int, end: End) -> Table {
        Table { open: self.open.insert(fd), ends: self.ends.insert(fd, end), ..self }
    }

    /// The table once `new_fd` leads where `old_fd` leads.
    pub open spec fn duplicated(self, old_fd: int, new_fd: int) -> Table {
        Table {
            open: self.open.insert(new_fd),
            ends: if self.ends.dom().contains(old_fd) {
                self.ends.insert(new_fd, self.ends[old_fd])
            } else {
                self.ends.remove(new_fd)
            },
            ..self
        }
    }

    /// The table after the call that `w` was waiting for was answered with
    /// `reply`.
    pub open spec fn after_call(self, w: Wiring, reply: Reply) -> Table {
        match w.pending() {
            Some(Call::Pipe) | Some(Call::Pipe2(_)) => match (w.stage, Pipe::made(reply)) {
                (Stage::Piping(k), Some(pipe)) => self.with(pipe.read as int, read_end(k)).with(
                    pipe.write as int,
                    write_end(k),
                ),
                _ => self,
            },
            Some(Call::Close(fd)) => self.without(fd as int),
            Some(Call::Dup2(old_fd, new_fd)) => if Call::Dup2(old_fd, new_fd).succeeded(reply) {
                self.duplicated(old_fd as int, new_fd as int)
            } else {
                self
            },
            Some(Call::FdOpen(fd, _)) => match reply {
                Reply::Stream { handle, errno } => if handle != 0 {
                    Table { streams: self.streams.insert(handle as int, fd as int), ..self }
                } else {
                    self
                },
                _ => self,
            },
            Some(Call::FClose(handle)) => if self.streams.dom().contains(handle as int) {
                Table {
                    streams: self.streams.remove(handle as int),
                    ..self.without(self.streams[handle as int])
                }
            } else {
                self
            },
            _ => self,
        }
    }

    /// Whether `reply` is an answer that the system can give to the call
    /// that `w` waits for: a pipe that it makes takes two descriptors that
    /// were free, and a stream that it makes is a new one.
    pub open spec fn can_answer(self, w: Wiring, reply: Reply) -> bool {
        match w.pending() {
            Some(Call::Pipe) | Some(Call::Pipe2(_)) => match Pipe::made(reply) {
                Some(pipe) => pipe.read != pipe.write && !self.open.contains(pipe.read as int)
                    && !self.open.contains(pipe.write as int),
                None => true,
            },
            Some(Call::FdOpen(fd, _)) => match reply {
                Reply::Stream { handle, errno } => handle != 0 ==> !self.streams.dom().contains(
                    handle as int,
                ),
                _ => true,
            },
            _ => true,
        }
    }

    /// The table after the answers `replies` to the calls of an attempt that
    /// began in state `w`.
    pub open spec fn after(self, w: Wiring, replies: Seq<Reply>) -> Table
        decreases replies.len(),
    {
        if replies.len() == 0 {
            self
        } else {
            self.after(w, replies.drop_last()).after_call(
                w.after(replies.drop_last()),
                replies.last(),
            )
        }
    }

    /// Whether each of `replies` is an answer that the system can give at
    /// its turn.
    pub open spec fn can_answer_all(self, w: Wiring, replies: Seq<Reply>) -> bool
        decreases replies.len(),
    {
        replies.len() == 0 || (self.can_answer_all(w, replies.drop_last()) && self.after(
            w,
            replies.drop_last(),
        ).can_answer(w.after(replies.drop_last()), replies.last()))
    }
}

impl Wiring {
    /// Whether the state is one of the process that began the attempt: the
    /// parent's after the split.
    pub open spec fn is_parents(self) -> bool {
        match self.stage {
            Stage::ChildDuplicating(_) | Stage::ChildClosing | Stage::ChildReplacing
            | Stage::ChildExiting(_) => false,
            _ => true,
        }
    }

    /// Whether the process owns an end: as an open descriptor or under a
    /// stream.
    pub open spec fn owns(self, end: End) -> bool {
        self.is_open(end) || self.stream_over(end) != 0
    }
}

impl Table {
    /// Whether the table has an end that the state owns under the state's
    /// number for it, and did not have that number before the attempt.
    pub open spec fn has(self, w: Wiring, base: Table, end: End) -> bool {
        w.owns(end) ==> {
            &&& self.open.contains(w.fd(end) as int)
            &&& self.ends.dom().contains(w.fd(end) as int)
            &&& self.ends[w.fd(end) as int] == end
            &&& !base.open.contains(w.fd(end) as int)
        }
    }

    /// Whether the table has the stream that the state holds over an end,
    /// over the state's number for that end, and did not have it before the
    /// attempt.
    pub open spec fn has_stream(self, w: Wiring, base: Table, end: End) -> bool {
        w.stream_over(end) != 0 ==> {
            &&& !w.is_open(end)
            &&& self.streams.dom().contains(w.stream_over(end) as int)
            &&& self.streams[w.stream_over(end) as int] == w.fd(end)
            &&& !base.streams.dom().contains(w.stream_over(end) as int)
        }
    }

    /// Whether the table is what the state says: beyond what the process had
    /// before the attempt, it has exactly the ends and the streams that the
    /// state owns.
    pub open spec fn agrees(self, w: Wiring, base: Table) -> bool {
        &&& self.has(w, base, End::InputRead)
        &&& self.has(w, base, End::InputWrite)
        &&& self.has(w, base, End::OutputRead)
        &&& self.has(w, base, End::OutputWrite)
        &&& self.has(w, base, End::ErrorRead)
        &&& self.has(w, base, End::ErrorWrite)
        &&& self.has_stream(w, base, End::InputWrite)
        &&& self.has_stream(w, base, End::OutputRead)
        &&& self.has_stream(w, base, End::ErrorRead)
        &&& forall|fd: int|
            #![trigger self.open.contains(fd)]
            self.open.contains(fd) <==> base.open.contains(fd) || self.ends.dom().contains(fd)
        &&& forall|fd: int|
            #![trigger self.ends.dom().contains(fd)]
            self.ends.dom().contains(fd) ==> w.owns(self.ends[fd]) && w.fd(self.ends[fd]) == fd
        &&& forall|s: int|
            #![trigger self.streams.dom().contains(s)]
            self.streams.dom().contains(s) <==> base.streams.dom().contains(s) || (s != 0 && (s
                == w.stdin || s == w.stdout || s == w.stderr))
        &&& forall|s: int|
            #![trigger base.streams.dom().contains(s)]
            base.streams.dom().contains(s) ==> self.streams[s] == base.streams[s]
    }

    /// Agreement is kept while the pipes are made and at the split.
    proof fn lemma_agrees_before_split(self, w: Wiring, base: Table, reply: Reply)
        requires
            w.sound(),
            w.stage is Piping || w.stage is Splitting,
            w.fed(reply).is_parents(),
            self.agrees(w, base),
            self.can_answer(w, reply),
        ensures
            self.after_call(w, reply).agrees(w.fed(reply), base),
    {
        assert forall|x: Wiring| #![trigger x.settled()] x.settled().holds_what(x) by {
            x.lemma_settled_keeps();
        }
    }

    /// Agreement is kept while the parent closes the child's ends.
    proof fn lemma_agrees_parent_closing(self, w: Wiring, base: Table, reply: Reply)
        requires
            w.sound(),
            w.stage is ParentClosing,
            self.agrees(w, base),
        ensures
            self.after_call(w, reply).agrees(w.fed(reply), base),
    {
        assert forall|x: Wiring| #![trigger x.settled()] x.settled().holds_what(x) by {
            x.lemma_settled_keeps();
        }
    }

    /// Agreement is kept while the parent wraps its ends.
    proof fn lemma_agrees_parent_wrapping(self, w: Wiring, base: Table, reply: Reply)
        requires
            w.sound(),
            w.stage is ParentWrapping,
            self.agrees(w, base),
            self.can_answer(w, reply),
        ensures
            self.after_call(w, reply).agrees(w.fed(reply), base),
    {
        assert forall|x: Wiring| #![trigger x.settled()] x.settled().holds_what(x) by {
            x.lemma_settled_keeps();
        }
    }

    /// Agreement is kept while the attempt unwinds.
    proof fn lemma_agrees_unwinding(self, w: Wiring, base: Table, reply: Reply)
        requires
            w.stage is Unwinding,
            self.agrees(w, base),
        ensures
            self.after_call(w, reply).agrees(w.fed(reply), base),
    {
        assert forall|x: Wiring| #![trigger x.settled()] x.settled().holds_what(x) by {
            x.lemma_settled_keeps();
        }
    }

    /// An answer that the system can give keeps the table and the parent's
    /// state in agreement.
    pub proof fn lemma_after_call_agrees(self, w: Wiring, base: Table, reply: Reply)
        requires
            w.sound(),
            w.is_parents(),
            w.fed(reply).is_parents(),
            self.agrees(w, base),
            self.can_answer(w, reply),
        ensures
            self.after_call(w, reply).agrees(w.fed(reply), base),
    {
        match w.stage {
            Stage::Piping(_) | Stage::Splitting => self.lemma_agrees_before_split(w, base, reply),
            Stage::ParentClosing => self.lemma_agrees_parent_closing(w, base, reply),
            Stage::ParentWrapping => self.lemma_agrees_parent_wrapping(w, base, reply),
            Stage::Unwinding(_) => self.lemma_agrees_unwinding(w, base, reply),
            _ => {},
        }
    }
}

impl Wiring {
    /// Settling a state is settling the state one step on.
    pub proof fn lemma_settled_advanced(self)
        ensures
            self.advanced().settled() == self.settled(),
    {
        reveal(Wiring::settled);
        let w1 = self.advanced();
        let w2 = w1.advanced();
        let w3 = w2.advanced();
        let w4 = w3.advanced();
        let w5 = w4.advanced();
        let w6 = w5.advanced();
        self.lemma_advanced();
        w1.lemma_advanced();
        w2.lemma_advanced();
        w3.lemma_advanced();
        w4.lemma_advanced();
        w5.lemma_advanced();
        w6.lemma_advanced();
    }

    /// A state of the child stays one of the child.
    pub proof fn lemma_child_stays(self, reply: Reply)
        requires
            !self.is_parents(),
        ensures
            !self.fed(reply).is_parents(),
    {
        assert forall|x: Wiring| !x.is_parents() implies !(#[trigger] x.settled()).is_parents() by {
            reveal(Wiring::settled);
        }
    }
}

impl Table {
    /// Whether the process began with nothing of the attempt: no descriptor
    /// led to an end of its pipes.
    pub open spec fn is_base(self) -> bool {
        self.ends.dom() =~= Set::<int>::empty()
    }

    /// Whether the three standard streams are open.
    pub open spec fn has_standard_streams(self) -> bool {
        self.open.contains(0) && self.open.contains(1) && self.open.contains(2)
    }

    /// Whether each of the first `placed` standard streams leads to the
    /// child's end for it.
    pub open spec fn slots_lead(self, placed: int) -> bool {
        &&& placed > 0 ==> self.ends.dom().contains(0) && self.ends[0] == End::InputRead
        &&& placed > 1 ==> self.ends.dom().contains(1) && self.ends[1] == End::OutputWrite
        &&& placed > 2 ==> self.ends.dom().contains(2) && self.ends[2] == End::ErrorWrite
    }

    /// Whether no descriptor leads to an end of a pipe but the first
    /// `placed` standard streams and the ends that the state has open, each
    /// under its own number.
    pub open spec fn nothing_else_leads(self, w: Wiring, placed: int) -> bool {
        forall|fd: int|
            #![trigger self.ends.dom().contains(fd)]
            self.ends.dom().contains(fd) ==> (0 <= fd < placed) || (w.is_open(self.ends[fd])
                && w.fd(self.ends[fd]) == fd)
    }

    /// Whether the table has every end that the state owns.
    pub open spec fn has_all(self, w: Wiring, base: Table) -> bool {
        &&& self.has(w, base, End::InputRead)
        &&& self.has(w, base, End::InputWrite)
        &&& self.has(w, base, End::OutputRead)
        &&& self.has(w, base, End::OutputWrite)
        &&& self.has(w, base, End::ErrorRead)
        &&& self.has(w, base, End::ErrorWrite)
    }

    /// Whether the table is what the child's state says, where the standard
    /// streams were open before the attempt: each end that the state has
    /// open is in the table under its number, each standard stream that is
    /// in place leads to the child's end for it, and no other descriptor
    /// leads to an end of a pipe. Nothing is said of a child that is about
    /// to end.
    pub open spec fn agrees_in_child(self, w: Wiring, base: Table) -> bool {
        match w.stage {
            Stage::ChildExiting(_) => true,
            Stage::ChildDuplicating(k) => {
                &&& k <= 3
                &&& w.streamless()
                &&& w.input.is_whole()
                &&& w.output.is_whole()
                &&& w.error.is_whole()
                &&& self.has_all(w, base)
                &&& self.slots_lead(k as int)
                &&& self.nothing_else_leads(w, k as int)
            },
            _ => {
                &&& w.streamless()
                &&& self.has_all(w, base)
                &&& self.slots_lead(3)
                &&& self.nothing_else_leads(w, 3)
            },
        }
    }

    /// Whether the table fits the state: in the parent always, in the child
    /// where the standard streams were open before the attempt.
    pub open spec fn fits(self, w: Wiring, base: Table) -> bool {
        if w.is_parents() {
            self.agrees(w, base)
        } else {
            base.has_standard_streams() ==> self.agrees_in_child(w, base)
        }
    }

    /// An answer that the system can give keeps the table fitting the state.
    pub proof fn lemma_after_call_fits(self, w: Wiring, base: Table, reply: Reply)
        requires
            w.sound(),
            self.fits(w, base),
            self.can_answer(w, reply),
        ensures
            self.after_call(w, reply).fits(w.fed(reply), base),
    {
        if w.is_parents() {
            if w.fed(reply).is_parents() {
                self.lemma_after_call_agrees(w, base, reply);
            } else if base.has_standard_streams() {
                let child = w.at(Stage::ChildDuplicating(0));
                assert forall|x: Wiring| x.is_parents() implies (#[trigger] x.settled())
                    .is_parents() by {
                    reveal(Wiring::settled);
                }
                assert(w.stage is Splitting);
                assert(w.fed(reply) == child.settled());
                assert(self.after_call(w, reply) == self);
                assert(self.has_all(child, base));
                assert(self.slots_lead(0));
                assert(self.nothing_else_leads(child, 0)) by {
                    assert forall|fd: int|
                        #![trigger self.ends.dom().contains(fd)]
                        self.ends.dom().contains(fd) implies child.is_open(self.ends[fd])
                        && child.fd(self.ends[fd]) == fd by {
                        assert(w.owns(self.ends[fd]));
                    }
                }
                assert(self.agrees_in_child(child, base));
                self.lemma_settled_fits_in_child(child, base);
            }
        } else {
            w.lemma_child_stays(reply);
            if base.has_standard_streams() {
                self.lemma_after_call_fits_in_child(w, base, reply);
            }
        }
    }

    /// An answer to a duplication keeps the table fitting the child's state.
    proof fn lemma_fits_child_duplicating(self, w: Wiring, base: Table, reply: Reply, k: u8)
        requires
            w.sound(),
            w.stage == Stage::ChildDuplicating(k),
            base.has_standard_streams(),
            self.agrees_in_child(w, base),
        ensures
            self.after_call(w, reply).agrees_in_child(w.fed(reply), base),
    {
        let end = childs_end(k);
        if Call::Dup2(w.fd(end), end.slot()).succeeded(reply) {
            let next = w.at(
                if k >= 3 {
                    Stage::ChildClosing
                } else {
                    Stage::ChildDuplicating((k + 1) as u8)
                },
            );
            let t = self.duplicated(w.fd(end) as int, end.slot() as int);
            assert(self.after_call(w, reply) == t);
            assert(w.fed(reply) == next.settled());
            assert(t.has_all(next, base));
            let placed: int = if k >= 3 {
                3
            } else {
                k + 1
            };
            assert(self.has(w, base, end));
            assert(t.ends[end.slot() as int] == end);
            assert(t.slots_lead(placed));
            assert(t.nothing_else_leads(next, placed)) by {
                assert forall|fd: int|
                    #![trigger t.ends.dom().contains(fd)]
                    t.ends.dom().contains(fd) implies (0 <= fd < placed) || (next.is_open(
                    t.ends[fd],
                ) && next.fd(t.ends[fd]) == fd) by {
                    if fd != end.slot() {
                        assert(self.ends.dom().contains(fd));
                    }
                }
            }
            assert(t.agrees_in_child(next, base));
            t.lemma_settled_fits_in_child(next, base);
        } else {
            assert(w.fed(reply).stage is ChildExiting);
        }
    }

    /// An answer to a close keeps the table fitting the child's state.
    proof fn lemma_fits_child_closing(self, w: Wiring, base: Table, reply: Reply)
        requires
            w.sound(),
            w.stage is ChildClosing,
            base.has_standard_streams(),
            self.agrees_in_child(w, base),
        ensures
            self.after_call(w, reply).agrees_in_child(w.fed(reply), base),
    {
        match w.stray_end() {
            Some(end) => {
                let t = self.without(w.fd(end) as int);
                assert(self.after_call(w, reply) == t);
                let next = w.without(end);
                assert(w.is_open(end) && !crate::wiring::is_slot(w.fd(end)));
                assert(t.has_all(next, base));
                assert(t.slots_lead(3));
                assert(t.nothing_else_leads(next, 3)) by {
                    assert forall|fd: int|
                        #![trigger t.ends.dom().contains(fd)]
                        t.ends.dom().contains(fd) implies (0 <= fd < 3) || (next.is_open(
                        t.ends[fd],
                    ) && next.fd(t.ends[fd]) == fd) by {
                        assert(self.ends.dom().contains(fd));
                    }
                }
                assert(t.agrees_in_child(next, base));
                if Call::Close(w.fd(end)).succeeded(reply) {
                    assert(w.fed(reply) == next.settled());
                    t.lemma_settled_fits_in_child(next, base);
                } else {
                    assert(w.fed(reply).stage is ChildExiting);
                }
            },
            None => {
                assert(self.after_call(w, reply) == self);
                self.lemma_settled_fits_in_child(w, base);
            },
        }
    }

    /// An answer keeps the table fitting the child's state.
    proof fn lemma_after_call_fits_in_child(self, w: Wiring, base: Table, reply: Reply)
        requires
            w.sound(),
            !w.is_parents(),
            base.has_standard_streams(),
            self.agrees_in_child(w, base),
        ensures
            self.after_call(w, reply).agrees_in_child(w.fed(reply), base),
    {
        match w.stage {
            Stage::ChildDuplicating(k) => self.lemma_fits_child_duplicating(w, base, reply, k),
            Stage::ChildClosing => self.lemma_fits_child_closing(w, base, reply),
            Stage::ChildReplacing => {
                assert(w.fed(reply).stage is ChildExiting);
            },
            Stage::ChildExiting(_) => {
                assert(w.fed(reply) == w);
            },
            _ => {},
        }
    }

    /// A step of the child's state keeps the table fitting it.
    proof fn lemma_advanced_fits_in_child(self, w: Wiring, base: Table)
        requires
            !w.is_parents(),
            base.has_standard_streams(),
            self.agrees_in_child(w, base),
        ensures
            self.agrees_in_child(w.advanced(), base),
            !w.advanced().is_parents(),
    {
    }

    /// Settling the child's state keeps the table fitting it.
    proof fn lemma_settled_fits_in_child(self, w: Wiring, base: Table)
        requires
            !w.is_parents(),
            base.has_standard_streams(),
            self.agrees_in_child(w, base),
        ensures
            self.agrees_in_child(w.settled(), base),
    {
        reveal(Wiring::settled);
        let w1 = w.advanced();
        let w2 = w1.advanced();
        let w3 = w2.advanced();
        let w4 = w3.advanced();
        let w5 = w4.advanced();
        self.lemma_advanced_fits_in_child(w, base);
        self.lemma_advanced_fits_in_child(w1, base);
        self.lemma_advanced_fits_in_child(w2, base);
        self.lemma_advanced_fits_in_child(w3, base);
        self.lemma_advanced_fits_in_child(w4, base);
        self.lemma_advanced_fits_in_child(w5, base);
    }

    /// The table fits the state after every run of answers that the system
    /// can give.
    pub proof fn lemma_after_fits(self, w: Wiring, replies: Seq<Reply>)
        requires
            self.is_base(),
            w == Wiring::start(w.platform, w.sendable),
            self.can_answer_all(w, replies),
        ensures
            self.after(w, replies).fits(w.after(replies), self),
            w.after(replies).sound(),
        decreases replies.len(),
    {
        w.lemma_after_sound(replies);
        if replies.len() > 0 {
            self.lemma_after_fits(w, replies.drop_last());
            self.after(w, replies.drop_last()).lemma_after_call_fits(
                w.after(replies.drop_last()),
                self,
                replies.last(),
            );
        }
    }
}

impl Table {
    /// Whether two tables are the same.
    pub open spec fn same(self, other: Table) -> bool {
        self.open =~= other.open && self.ends =~= other.ends && self.streams =~= other.streams
    }

    /// The table after the call that the release `r` was waiting for was
    /// answered: an `fclose` takes the stream away and the descriptor under
    /// it, and the wait changes nothing.
    pub open spec fn after_release_call(self, r: Release) -> Table {
        match r.pending() {
            Some(Call::FClose(handle)) => if self.streams.dom().contains(handle as int) {
                Table {
                    streams: self.streams.remove(handle as int),
                    ..self.without(self.streams[handle as int])
                }
            } else {
                self
            },
            _ => self,
        }
    }

    /// The table after the answers `replies` to the calls of a release that
    /// began in state `r`.
    pub open spec fn after_release(self, r: Release, replies: Seq<Reply>) -> Table
        decreases replies.len(),
    {
        if replies.len() == 0 {
            self
        } else {
            self.after_release(r, replies.drop_last()).after_release_call(
                r.after(replies.drop_last()),
            )
        }
    }

    /// Whether the table has a stream of the release over a descriptor of
    /// its own, none of which the process had before.
    pub open spec fn covers_stream(self, base: Table, stream: usize) -> bool {
        stream != 0 ==> {
            &&& self.streams.dom().contains(stream as int)
            &&& self.open.contains(self.streams[stream as int])
            &&& !base.open.contains(self.streams[stream as int])
            &&& !base.streams.dom().contains(stream as int)
        }
    }

    /// Whether the table is what the release says: beyond what the process
    /// had before, it has exactly the streams that are left to close, each
    /// over a descriptor of its own, and nothing else.
    pub open spec fn covers(self, r: Release, base: Table) -> bool {
        &&& self.covers_stream(base, r.stdin)
        &&& self.covers_stream(base, r.stdout)
        &&& self.covers_stream(base, r.stderr)
        &&& r.stdin != 0 && r.stdout != 0 ==> self.streams[r.stdin as int]
            != self.streams[r.stdout as int]
        &&& r.stdin != 0 && r.stderr != 0 ==> self.streams[r.stdin as int]
            != self.streams[r.stderr as int]
        &&& r.stdout != 0 && r.stderr != 0 ==> self.streams[r.stdout as int]
            != self.streams[r.stderr as int]
        &&& forall|fd: int|
            #![trigger self.open.contains(fd)]
            self.open.contains(fd) <==> base.open.contains(fd) || (r.stdin != 0
                && self.streams[r.stdin as int] == fd) || (r.stdout != 0
                && self.streams[r.stdout as int] == fd) || (r.stderr != 0
                && self.streams[r.stderr as int] == fd)
        &&& forall|fd: int|
            #![trigger self.ends.dom().contains(fd)]
            self.ends.dom().contains(fd) ==> self.open.contains(fd) && !base.open.contains(fd)
        &&& forall|s: int|
            #![trigger self.streams.dom().contains(s)]
            self.streams.dom().contains(s) <==> base.streams.dom().contains(s) || (s != 0 && (s
                == r.stdin || s == r.stdout || s == r.stderr))
        &&& forall|s: int|
            #![trigger base.streams.dom().contains(s)]
            base.streams.dom().contains(s) ==> self.streams[s] == base.streams[s]
    }

    /// An answer keeps the table what the release says.
    pub proof fn lemma_after_release_call_covers(self, r: Release, base: Table, reply: Reply)
        requires
            self.covers(r, base),
            r.reaped is None,
        ensures
            self.after_release_call(r).covers(r.fed(reply), base),
    {
    }

    /// The table is what the release says after every run of answers.
    pub proof fn lemma_after_release_covers(self, r: Release, base: Table, replies: Seq<Reply>)
        requires
            self.covers(r, base),
            r.reaped is None || (r.stdin == 0 && r.stdout == 0 && r.stderr == 0),
        ensures
            self.after_release(r, replies).covers(r.after(replies), base),
            r.after(replies).tidy(),
        decreases replies.len(),
    {
        r.lemma_after_tidy(replies);
        if replies.len() > 0 {
            let before = r.after(replies.drop_last());
            r.lemma_after_tidy(replies.drop_last());
            self.lemma_after_release_covers(r, base, replies.drop_last());
            if before.reaped is None {
                self.after_release(r, replies.drop_last()).lemma_after_release_call_covers(
                    before,
                    base,
                    replies.last(),
                );
            }
        }
    }
}

/// In a system that behaves as the model says, a parent that is ready has no
/// descriptor that leads to one of the child's ends: beyond what it had
/// before, its table holds its own three ends and nothing else, each under
/// the stream that was laid over it.
pub proof fn law_parent_has_no_descriptor_of_the_child(
    base: Table,
    platform: Platform,
    sendable: bool,
    replies: Seq<Reply>,
)
    requires
        base.is_base(),
        base.can_answer_all(Wiring::start(platform, sendable), replies),
        Wiring::start(platform, sendable).after(replies).stage is Ready,
    ensures
        ({
            let w = Wiring::start(platform, sendable).after(replies);
            let t = base.after(Wiring::start(platform, sendable), replies);
            &&& t.ends =~= map![
                w.fd(End::InputWrite) as int => End::InputWrite,
                w.fd(End::OutputRead) as int => End::OutputRead,
                w.fd(End::ErrorRead) as int => End::ErrorRead,
            ]
            &&& t.ends.dom().len() == 3
            &&& t.open =~= base.open + t.ends.dom()
            &&& t.streams =~= base.streams.insert(
                w.stdin as int,
                w.fd(End::InputWrite) as int,
            ).insert(w.stdout as int, w.fd(End::OutputRead) as int).insert(
                w.stderr as int,
                w.fd(End::ErrorRead) as int,
            )
        }),
{
    let start = Wiring::start(platform, sendable);
    base.lemma_after_fits(start, replies);
    let w = start.after(replies);
    let t = base.after(start, replies);
    assert(t.agrees(w, base));
    assert(t.has(w, base, End::InputWrite));
    assert(t.has(w, base, End::OutputRead));
    assert(t.has(w, base, End::ErrorRead));
    let a = w.fd(End::InputWrite) as int;
    let b = w.fd(End::OutputRead) as int;
    let c = w.fd(End::ErrorRead) as int;
    assert(a != b && a != c && b != c);
    let expected = map![a => End::InputWrite, b => End::OutputRead, c => End::ErrorRead];
    assert forall|fd: int| t.ends.dom().contains(fd) implies expected.dom().contains(fd) by {
        assert(w.owns(t.ends[fd]));
    }
    assert(t.ends =~= expected);
    assert(expected.dom() =~= set![a, b, c]);
    assert(set![a, b, c].len() == 3) by {
        assert(set![a, b, c] =~= Set::<int>::empty().insert(a).insert(b).insert(c));
    }
}

/// In a system that behaves as the model says, an attempt that failed leaves
/// the process with what it had before: every descriptor and every stream
/// that the attempt brought is gone.
pub proof fn law_failure_restores_the_table(
    base: Table,
    platform: Platform,
    sendable: bool,
    replies: Seq<Reply>,
)
    requires
        base.is_base(),
        base.can_answer_all(Wiring::start(platform, sendable), replies),
        Wiring::start(platform, sendable).after(replies).stage is Failed,
    ensures
        base.after(Wiring::start(platform, sendable), replies).same(base),
{
    let start = Wiring::start(platform, sendable);
    base.lemma_after_fits(start, replies);
    let w = start.after(replies);
    let t = base.after(start, replies);
    assert(t.agrees(w, base));
    assert(w.holds_nothing());
    assert forall|fd: int| !t.ends.dom().contains(fd) by {
        if t.ends.dom().contains(fd) {
            assert(w.owns(t.ends[fd]));
        }
    }
}

/// In a system that behaves as the model says and in a process whose standard
/// streams were open, the child that is about to become the shell has its
/// three standard streams on the three ends that are its own, and no other
/// descriptor that leads to an end of a pipe: no copy of a write end lingers
/// that would keep a reader from seeing the end of the stream.
pub proof fn law_child_has_only_its_standard_streams(
    base: Table,
    platform: Platform,
    sendable: bool,
    replies: Seq<Reply>,
)
    requires
        base.is_base(),
        base.has_standard_streams(),
        base.can_answer_all(Wiring::start(platform, sendable), replies),
        Wiring::start(platform, sendable).after(replies).pending() == Some(Call::Shell),
    ensures
        base.after(Wiring::start(platform, sendable), replies).ends =~= map![
            0int => End::InputRead,
            1int => End::OutputWrite,
            2int => End::ErrorWrite,
        ],
{
    let start = Wiring::start(platform, sendable);
    base.lemma_after_fits(start, replies);
    let w = start.after(replies);
    let t = base.after(start, replies);
    assert(w.stage is ChildReplacing);
    assert(t.agrees_in_child(w, base));
    assert(w.stray_end() is None);
    assert(t.ends.dom().contains(0) && t.ends.dom().contains(1) && t.ends.dom().contains(2));
    assert forall|fd: int| t.ends.dom().contains(fd) implies 0 <= fd < 3 by {
        if !(0 <= fd < 3) {
            let end = t.ends[fd];
            assert(w.is_open(end) && w.fd(end) == fd);
            assert(t.has(w, base, end));
        }
    }
}

/// In a system that behaves as the model says, a handle that a start handed
/// out and that was then released leaves the process with what it had
/// before the start: however often a child is started and released, nothing
/// accumulates.
pub proof fn law_start_and_release_restore_the_table(
    base: Table,
    handle: Popen,
    started: Seq<Reply>,
    released: Seq<Reply>,
)
    requires
        base.is_base(),
        handle.reaped is None,
        base.can_answer_all(
            Wiring::start(handle.platform, handle.sendable()),
            started,
        ),
        handle.wiring(started).stage is Ready,
        handle.populated(handle.wiring(started)).release().after(released).reaped is Some,
    ensures
        base.after(
            Wiring::start(handle.platform, handle.sendable()),
            started,
        ).after_release(handle.populated(handle.wiring(started)).release(), released).same(base),
{
    let start = Wiring::start(handle.platform, handle.sendable());
    base.lemma_after_fits(start, started);
    let w = start.after(started);
    let t = base.after(start, started);
    let r = handle.populated(w).release();
    assert(t.agrees(w, base));
    assert(t.has(w, base, End::InputWrite));
    assert(t.has(w, base, End::OutputRead));
    assert(t.has(w, base, End::ErrorRead));
    assert(t.covers(r, base)) by {
        assert forall|fd: int|
            #![trigger t.open.contains(fd)]
            t.open.contains(fd) implies base.open.contains(fd) || t.streams[r.stdin as int] == fd
            || t.streams[r.stdout as int] == fd || t.streams[r.stderr as int] == fd by {
            if !base.open.contains(fd) {
                assert(t.ends.dom().contains(fd));
                assert(w.owns(t.ends[fd]));
            }
        }
    }
    t.lemma_after_release_covers(r, base, released);
    let end = t.after_release(r, released);
    assert forall|fd: int| !end.ends.dom().contains(fd) by {}
}

impl Table {
    /// The table after one start of `handle` that is answered with `cycle.0`
    /// and the release of what it handed out, answered with `cycle.1`.
    pub open spec fn after_cycle(self, handle: Popen, cycle: (Seq<Reply>, Seq<Reply>)) -> Table {
        self.after(Wiring::start(handle.platform, handle.sendable()), cycle.0).after_release(
            handle.populated(handle.wiring(cycle.0)).release(),
            cycle.1,
        )
    }

    /// The table after as many starts and releases as there are `cycles`,
    /// one after the other.
    pub open spec fn after_cycles(
        self,
        handle: Popen,
        cycles: Seq<(Seq<Reply>, Seq<Reply>)>,
    ) -> Table
        decreases cycles.len(),
    {
        if cycles.len() == 0 {
            self
        } else {
            self.after_cycles(handle, cycles.drop_last()).after_cycle(handle, cycles.last())
        }
    }

    /// Whether one start and release runs its course from this table: the
    /// system can give the answers to the start, the start hands out its
    /// handle, and the release of that handle comes to its end.
    pub open spec fn cycle_completes(self, handle: Popen, cycle: (Seq<Reply>, Seq<Reply>)) -> bool {
        &&& self.can_answer_all(Wiring::start(handle.platform, handle.sendable()), cycle.0)
        &&& handle.wiring(cycle.0).stage is Ready
        &&& handle.populated(handle.wiring(cycle.0)).release().after(cycle.1).reaped is Some
    }

    /// Whether each of the `cycles` runs its course from the table that the
    /// cycles before it left.
    pub open spec fn cycles_complete(
        self,
        handle: Popen,
        cycles: Seq<(Seq<Reply>, Seq<Reply>)>,
    ) -> bool
        decreases cycles.len(),
    {
        cycles.len() == 0 || (self.cycles_complete(handle, cycles.drop_last())
            && self.after_cycles(handle, cycles.drop_last()).cycle_completes(
            handle,
            cycles.last(),
        ))
    }
}

/// In a system that behaves as the model says, any number of starts and
/// releases in a row leaves the process with what it had before the first:
/// each release closes exactly what its start left open, so that the count
/// of open descriptors is the same after the last cycle as before the first.
pub proof fn law_cycles_restore_the_table(
    base: Table,
    handle: Popen,
    cycles: Seq<(Seq<Reply>, Seq<Reply>)>,
)
    requires
        base.is_base(),
        handle.reaped is None,
        base.cycles_complete(handle, cycles),
    ensures
        base.after_cycles(handle, cycles) == base,
    decreases cycles.len(),
{
    if cycles.len() > 0 {
        law_cycles_restore_the_table(base, handle, cycles.drop_last());
        law_start_and_release_restore_the_table(base, handle, cycles.last().0, cycles.last().1);
        let end = base.after_cycle(handle, cycles.last());
        assert(end.same(base));
        assert(end == base);
    }
}

} // verus!
