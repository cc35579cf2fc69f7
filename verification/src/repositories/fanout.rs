//! The bounded fan-out: how many requests may be under way at once.

use vstd::prelude::*;

verus! {

/// The fan-out width of the dispatcher: at most this many requests are
/// under way at once.
pub const CONCURRENT_REQUESTS: usize = 10;

/// The progress of one fan-out over `total` requests, numbered from zero in
/// the order in which they are started. Requests beyond the width wait until
/// an earlier one has completed.
pub struct FanOut {
    total: usize,
    width: usize,
    started: usize,
    finished: usize,
}

impl FanOut {
    #[verifier::type_invariant]
    spec fn inv(&self) -> bool {
        &&& self.width > 0
        &&& self.finished <= self.started <= self.total
        &&& self.started - self.finished <= self.width
    }

    /// The number of requests of the fan-out.
    pub closed spec fn total(&self) -> nat {
        self.total as nat
    }

    /// The most requests that may be under way at once.
    pub closed spec fn width(&self) -> nat {
        self.width as nat
    }

    /// The number of requests started so far.
    pub closed spec fn started(&self) -> nat {
        self.started as nat
    }

    /// The number of requests completed so far.
    pub closed spec fn finished(&self) -> nat {
        self.finished as nat
    }

    /// The number of requests under way: started and not yet completed.
    pub open spec fn in_flight_spec(&self) -> int {
        self.started() - self.finished()
    }

    /// A fan-out over `total` requests of which none has started, or `None`
    /// for the width zero, under which none ever could.
    pub fn new(total: usize, width: usize) -> (r: Option<FanOut>)
        ensures
            match r {
                Some(f) => width > 0 && f.total() == total && f.width() == width && f.started()
                    == 0 && f.finished() == 0,
                None => width == 0,
            },
    {
        if width == 0 {
            None
        } else {
            Some(FanOut { total, width, started: 0, finished: 0 })
        }
    }

    /// A fan-out of the dispatcher's width over `total` requests of which
    /// none has started.
    pub fn standard(total: usize) -> (f: FanOut)
        ensures
            f.total() == total,
            f.width() == CONCURRENT_REQUESTS,
            f.started() == 0,
            f.finished() == 0,
    {
        FanOut { total, width: CONCURRENT_REQUESTS, started: 0, finished: 0 }
    }

    /// The number of requests under way, which never exceeds the width.
    pub fn in_flight(&self) -> (n: usize)
        ensures
            n == self.in_flight_spec(),
            0 <= n <= self.width(),
            self.finished() <= self.started() <= self.total(),
            self.width() > 0,
    {
        proof {
            use_type_invariant(self);
        }
        self.started - self.finished
    }

    /// The number of requests started so far.
    pub fn count_started(&self) -> (n: usize)
        ensures
            n == self.started(),
            n <= self.total(),
    {
        proof {
            use_type_invariant(self);
        }
        self.started
    }

    /// Starts the next request if one is left and a slot is free, and gives
    /// its number; otherwise changes nothing.
    pub fn start(&mut self) -> (r: Option<usize>)
        ensures
            final(self).total() == old(self).total(),
            final(self).width() == old(self).width(),
            final(self).finished() == old(self).finished(),
            match r {
                Some(k) => {
                    &&& old(self).started() < old(self).total()
                    &&& old(self).in_flight_spec() < old(self).width()
                    &&& k == old(self).started()
                    &&& final(self).started() == old(self).started() + 1
                },
                None => {
                    &&& !(old(self).started() < old(self).total() && old(self).in_flight_spec()
                        < old(self).width())
                    &&& final(self).started() == old(self).started()
                },
            },
            final(self).in_flight_spec() <= final(self).width(),
    {
        proof {
            use_type_invariant(&*self);
        }
        if self.started < self.total && self.started - self.finished < self.width {
            let k = self.started;
            self.started = k + 1;
            Some(k)
        } else {
            None
        }
    }

    /// Takes note that one request under way has completed; changes nothing
    /// and answers `false` where none is under way.
    pub fn complete(&mut self) -> (ok: bool)
        ensures
            final(self).total() == old(self).total(),
            final(self).width() == old(self).width(),
            final(self).started() == old(self).started(),
            ok == (old(self).in_flight_spec() > 0),
            final(self).finished() == old(self).finished() + if ok {
                1nat
            } else {
                0nat
            },
            final(self).in_flight_spec() <= final(self).width(),
    {
        proof {
            use_type_invariant(&*self);
        }
        if self.finished < self.started {
            self.finished = self.finished + 1;
            true
        } else {
            false
        }
    }

    /// Every request has been started and has completed.
    pub fn is_done(&self) -> (done: bool)
        ensures
            done == (self.finished() == self.total()),
    {
        proof {
            use_type_invariant(self);
        }
        self.finished == self.total
    }
}

/// A fan-out that is not done and has nothing under way can start a request:
/// it never waits for a completion that cannot come.
pub proof fn lemma_never_stuck(f: FanOut)
    requires
        f.width() > 0,
        f.finished() <= f.started() <= f.total(),
        f.finished() != f.total(),
        f.in_flight_spec() == 0,
    ensures
        f.started() < f.total(),
        f.in_flight_spec() < f.width(),
{
}

} // verus!
