//! Closing descriptors and streams.

use crate::call::{batch, batch_next, Call, Next, Reply};
use crate::text::{decimal, push_decimal};
use vstd::prelude::*;
use vstd::string::StringExecFns;

verus! {

/// Why a descriptor or a stream could not be closed.
#[derive(Clone, Copy, Debug, Eq, Hash, Ord, PartialEq, PartialOrd, Structural)]
pub enum Close {
    /// `close` failed with this error number.
    CloseErrno(i32),
    /// `fclose` failed with this error number.
    FCloseErrno(i32),
}

/// One `close` for each descriptor, in order.
pub open spec fn close_calls(fds: Seq<i32>) -> Seq<Call> {
    Seq::new(fds.len(), |i: int| Call::Close(fds[i]))
}

/// One `fclose` for each stream, in order.
pub open spec fn fclose_calls(ps: Seq<usize>) -> Seq<Call> {
    Seq::new(ps.len(), |i: int| Call::FClose(ps[i]))
}

impl Close {
    /// The words in which the failure is reported.
    pub open spec fn message(self) -> Seq<char> {
        match self {
            Close::CloseErrno(v) => "close fd failed! errno: "@ + decimal(v as int),
            Close::FCloseErrno(v) => "fclose file failed! errno: "@ + decimal(v as int),
        }
    }

    /// What closing `fds` in order has come to after the answers in `replies`:
    /// the next `close` to make, success once every descriptor is closed, or
    /// the error number of the first `close` that failed, after which no
    /// further descriptor is touched.
    pub open spec fn close_next(fds: Seq<i32>, replies: Seq<Reply>) -> Next<Result<(), Close>> {
        match batch_next(close_calls(fds), replies) {
            Next::Call(c) => Next::Call(c),
            Next::Done(Ok(_)) => Next::Done(Ok(())),
            Next::Done(Err(e)) => Next::Done(Err(Close::CloseErrno(e))),
        }
    }

    /// The same for streams and `fclose`.
    pub open spec fn fclose_next(ps: Seq<usize>, replies: Seq<Reply>) -> Next<Result<(), Close>> {
        match batch_next(fclose_calls(ps), replies) {
            Next::Call(c) => Next::Call(c),
            Next::Done(Ok(_)) => Next::Done(Ok(())),
            Next::Done(Err(e)) => Next::Done(Err(Close::FCloseErrno(e))),
        }
    }

    /// Closes the descriptors `fds` in order, one call per step: `replies`
    /// holds the answers to the calls made so far.
    pub fn close(fds: &[i32], replies: &[Reply]) -> (next: Next<Result<(), Close>>)
        ensures
            next == Close::close_next(fds@, replies@),
    {
        let mut calls: Vec<Call> = Vec::new();
        let mut i: usize = 0;
        while i < fds.len()
            invariant
                i <= fds.len(),
                calls@ == close_calls(fds@).take(i as int),
            decreases fds.len() - i,
        {
            calls.push(Call::Close(fds[i]));
            i = i + 1;
        }
        assert(calls@ == close_calls(fds@));
        match batch(calls.as_slice(), replies) {
            Next::Call(c) => Next::Call(c),
            Next::Done(Ok(_)) => Next::Done(Ok(())),
            Next::Done(Err(e)) => Next::Done(Err(Close::CloseErrno(e))),
        }
    }

    /// Closes the streams `ps` in order, one call per step: `replies` holds
    /// the answers to the calls made so far.
    pub fn fclose(ps: &[usize], replies: &[Reply]) -> (next: Next<Result<(), Close>>)
        ensures
            next == Close::fclose_next(ps@, replies@),
    {
        let mut calls: Vec<Call> = Vec::new();
        let mut i: usize = 0;
        while i < ps.len()
            invariant
                i <= ps.len(),
                calls@ == fclose_calls(ps@).take(i as int),
            decreases ps.len() - i,
        {
            calls.push(Call::FClose(ps[i]));
            i = i + 1;
        }
        assert(calls@ == fclose_calls(ps@));
        match batch(calls.as_slice(), replies) {
            Next::Call(c) => Next::Call(c),
            Next::Done(Ok(_)) => Next::Done(Ok(())),
            Next::Done(Err(e)) => Next::Done(Err(Close::FCloseErrno(e))),
        }
    }

    /// The failure in words.
    pub fn to_string(&self) -> (s: String)
        ensures
            s@ == self.message(),
    {
        match self {
            Close::CloseErrno(v) => {
                let mut s = String::from_str("close fd failed! errno: ");
                push_decimal(&mut s, *v);
                s
            },
            Close::FCloseErrno(v) => {
                let mut s = String::from_str("fclose file failed! errno: ");
                push_decimal(&mut s, *v);
                s
            },
        }
    }
}

} // verus!
