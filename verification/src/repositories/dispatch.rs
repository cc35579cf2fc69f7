//! The multi-source dispatch: which request goes out next, and how the
//! sources' outcomes are merged.

use vstd::prelude::*;
use crate::repositories::common::{
    is_dispatch_plan, FetchError, Identifiable, Manager, Request,
};
use crate::repositories::fanout::{FanOut, CONCURRENT_REQUESTS};

verus! {

/// The failure of one source: the key of the source that was asked, and why
/// it gave no record.
#[derive(Debug, Clone, Copy, PartialEq, Eq, Structural)]
pub struct SourceError {
    pub source_id: u16,
    pub error: FetchError,
}

/// What one source gave to a dispatch: the key of the source that was
/// asked, and its records or the reason for which it gave none.
pub struct Outcome<T> {
    pub source_id: u16,
    pub result: Result<Vec<T>, FetchError>,
}

/// The records of the outcomes that succeeded, one source after the other in
/// the order of `outcomes`, each source's records in the order it gave them.
pub open spec fn merged_records<T>(outcomes: Seq<Outcome<T>>) -> Seq<T>
    decreases outcomes.len(),
{
    if outcomes.len() == 0 {
        Seq::empty()
    } else {
        merged_records(outcomes.drop_last()) + match outcomes.last().result {
            Ok(list) => list@,
            Err(_) => Seq::empty(),
        }
    }
}

/// The errors of the outcomes that failed, in the order of `outcomes`, each
/// under the key of the source that failed.
pub open spec fn merged_errors<T>(outcomes: Seq<Outcome<T>>) -> Seq<SourceError>
    decreases outcomes.len(),
{
    if outcomes.len() == 0 {
        Seq::empty()
    } else {
        match outcomes.last().result {
            Ok(_) => merged_errors(outcomes.drop_last()),
            Err(e) => merged_errors(outcomes.drop_last()).push(
                SourceError { source_id: outcomes.last().source_id, error: e },
            ),
        }
    }
}

/// The number of outcomes that succeeded.
pub open spec fn count_ok<T>(outcomes: Seq<Outcome<T>>) -> nat
    decreases outcomes.len(),
{
    if outcomes.len() == 0 {
        0
    } else {
        count_ok(outcomes.drop_last()) + if outcomes.last().result is Ok {
            1nat
        } else {
            0nat
        }
    }
}

/// Merging outcomes one after the other is merging each part and joining
/// the results.
pub proof fn lemma_merge_concat<T>(
    a: Seq<Outcome<T>>,
    b: Seq<Outcome<T>>,
)
    ensures
        merged_records(a + b) == merged_records(a) + merged_records(b),
        merged_errors(a + b) == merged_errors(a) + merged_errors(b),
    decreases b.len(),
{
    if b.len() == 0 {
        assert(a + b == a);
    } else {
        lemma_merge_concat(a, b.drop_last());
        assert((a + b).drop_last() == a + b.drop_last());
        assert((a + b).last() == b.last());
    }
}

/// Every outcome that failed gives one error and every other outcome none:
/// the errors and the successes together are as many as the outcomes.
pub proof fn lemma_one_error_per_failure<T>(outcomes: Seq<Outcome<T>>)
    ensures
        merged_errors(outcomes).len() + count_ok(outcomes) == outcomes.len(),
    decreases outcomes.len(),
{
    if outcomes.len() > 0 {
        lemma_one_error_per_failure(outcomes.drop_last());
    }
}

/// In whatever order the sources answer, the same records and the same
/// errors are merged, each as often: two runs that take in the same outcomes
/// differ in the order of what they give at most.
pub proof fn lemma_merge_any_order<T>(
    a: Seq<Outcome<T>>,
    b: Seq<Outcome<T>>,
)
    requires
        a.to_multiset() == b.to_multiset(),
    ensures
        merged_records(a).to_multiset() == merged_records(b).to_multiset(),
        merged_errors(a).to_multiset() == merged_errors(b).to_multiset(),
        merged_records(a).len() == merged_records(b).len(),
        merged_errors(a).len() == merged_errors(b).len(),
    decreases a.len(),
{
    broadcast use vstd::multiset::group_multiset_axioms;

    vstd::seq_lib::to_multiset_len(a);
    vstd::seq_lib::to_multiset_len(b);
    if a.len() == 0 {
        assert(b.len() == 0);
    } else {
        let x = a.last();
        let a1 = a.drop_last();
        assert(a1.push(x) == a);
        vstd::seq_lib::to_multiset_build(a1, x);
        vstd::seq_lib::to_multiset_contains(b, x);
        assert(a.to_multiset().count(x) > 0);
        assert(b.contains(x));
        let j = choose|j: int| 0 <= j < b.len() && b[j] == x;
        let b1 = b.remove(j);
        vstd::seq_lib::to_multiset_remove(b, j);
        assert(a1.to_multiset() =~= a.to_multiset().remove(x));
        assert(a1.to_multiset() == b1.to_multiset());
        lemma_merge_any_order(a1, b1);
        let head = b.take(j);
        let tail = b.skip(j + 1);
        let one = seq![x];
        assert(b == head + one + tail);
        assert(b1 == head + tail);
        lemma_merge_concat(head, one);
        lemma_merge_concat(head + one, tail);
        lemma_merge_concat(head, tail);
        let rx = merged_records(one);
        let ex = merged_errors(one);
        assert(a == a1 + one);
        lemma_merge_concat(a1, one);
        vstd::seq_lib::lemma_multiset_commutative(merged_records(a1), rx);
        vstd::seq_lib::lemma_multiset_commutative(merged_records(head), rx);
        vstd::seq_lib::lemma_multiset_commutative(merged_records(head) + rx, merged_records(tail));
        vstd::seq_lib::lemma_multiset_commutative(merged_records(head), merged_records(tail));
        vstd::seq_lib::lemma_multiset_commutative(merged_errors(a1), ex);
        vstd::seq_lib::lemma_multiset_commutative(merged_errors(head), ex);
        vstd::seq_lib::lemma_multiset_commutative(merged_errors(head) + ex, merged_errors(tail));
        vstd::seq_lib::lemma_multiset_commutative(merged_errors(head), merged_errors(tail));
        assert(merged_records(a).to_multiset() =~= merged_records(b).to_multiset());
        assert(merged_errors(a).to_multiset() =~= merged_errors(b).to_multiset());
        vstd::seq_lib::to_multiset_len(merged_records(a));
        vstd::seq_lib::to_multiset_len(merged_records(b));
        vstd::seq_lib::to_multiset_len(merged_errors(a));
        vstd::seq_lib::to_multiset_len(merged_errors(b));
    }
}

/// Every merged error names the source of a failed outcome, with the reason
/// of that failure.
pub proof fn lemma_errors_name_their_source<T>(outcomes: Seq<Outcome<T>>, i: int)
    requires
        0 <= i < merged_errors(outcomes).len(),
    ensures
        exists|k: int|
            0 <= k < outcomes.len() && (#[trigger] outcomes[k]).source_id == merged_errors(
                outcomes,
            )[i].source_id && outcomes[k].result == Err::<Vec<T>, FetchError>(
                merged_errors(outcomes)[i].error,
            ),
    decreases outcomes.len(),
{
    let head = outcomes.drop_last();
    let last = outcomes.len() - 1;
    if i < merged_errors(head).len() {
        lemma_errors_name_their_source(head, i);
        let k = choose|k: int|
            0 <= k < head.len() && (#[trigger] head[k]).source_id == merged_errors(
                head,
            )[i].source_id && head[k].result == Err::<Vec<T>, FetchError>(
                merged_errors(head)[i].error,
            );
        assert(outcomes[k] == head[k]);
    } else {
        assert(outcomes[last].result is Err);
    }
}

/// Takes one outcome into the merged lists: its records, or its error
/// under the key of its source.
pub fn absorb<T>(records: &mut Vec<T>, errors: &mut Vec<SourceError>, outcome: Outcome<T>)
    ensures
        match outcome.result {
            Ok(list) => final(records)@ == old(records)@ + list@ && final(errors)@ == old(
                errors,
            )@,
            Err(e) => final(records)@ == old(records)@ && final(errors)@ == old(errors)@.push(
                SourceError { source_id: outcome.source_id, error: e },
            ),
        },
{
    match outcome.result {
        Ok(list) => {
            let mut list = list;
            records.append(&mut list);
        },
        Err(e) => {
            errors.push(SourceError { source_id: outcome.source_id, error: e });
        },
    }
}

/// Merges the outcomes of the sources: all the records of those that
/// succeeded, and one error for each that failed, under its key. A failure
/// takes nothing away from what the others gave.
pub fn merge<T>(outcomes: Vec<Outcome<T>>) -> (r: (Vec<T>, Vec<SourceError>))
    ensures
        r.0@ == merged_records(outcomes@),
        r.1@ == merged_errors(outcomes@),
{
    let mut records: Vec<T> = Vec::new();
    let mut errors: Vec<SourceError> = Vec::new();
    let ghost all = outcomes@;
    for outcome in it: outcomes
        invariant
            it.seq() == all,
            records@ == merged_records(all.take(it.index() as int)),
            errors@ == merged_errors(all.take(it.index() as int)),
    {
        proof {
            let k = it.index() as int;
            assert(all.take(k + 1).drop_last() == all.take(k));
            assert(all.take(k + 1).last() == outcome);
        }
        absorb(&mut records, &mut errors, outcome);
    }
    proof {
        assert(all.take(all.len() as int) == all);
    }
    (records, errors)
}

/// A dispatch under way: the requests to all the sources, how far the
/// fan-out has come, and what the sources have given so far.
pub struct Dispatch<T> {
    requests: Vec<Request>,
    fan: FanOut,
    records: Vec<T>,
    errors: Vec<SourceError>,
    absorbed: Ghost<Seq<Outcome<T>>>,
}

impl<T> Dispatch<T> {
    /// The dispatch is consistent: the fan-out counts its requests, no more
    /// of them are under way than the width allows, and the lists hold what
    /// the outcomes taken in gave.
    pub closed spec fn wf(&self) -> bool {
        &&& self.fan.total() == self.requests@.len()
        &&& self.fan.width() == CONCURRENT_REQUESTS
        &&& self.fan.finished() <= self.fan.started() <= self.fan.total()
        &&& self.fan.in_flight_spec() <= self.fan.width()
        &&& self.absorbed@.len() == self.fan.finished()
        &&& self.records@ == merged_records(self.absorbed@)
        &&& self.errors@ == merged_errors(self.absorbed@)
    }

    /// The requests of the dispatch, one per source.
    pub closed spec fn requests(&self) -> Seq<Request> {
        self.requests@
    }

    /// The number of requests handed out so far.
    pub closed spec fn started(&self) -> nat {
        self.fan.started()
    }

    /// The outcomes taken in so far, in the order in which they came.
    pub closed spec fn absorbed(&self) -> Seq<Outcome<T>> {
        self.absorbed@
    }

    /// The number of requests handed out whose outcome has not come yet.
    pub open spec fn in_flight_spec(&self) -> int {
        self.started() - self.absorbed().len()
    }

    /// At no time are more requests under way than the fan-out width allows,
    /// and none is counted that has not gone out.
    pub proof fn lemma_bounded(self)
        requires
            self.wf(),
        ensures
            0 <= self.in_flight_spec() <= CONCURRENT_REQUESTS,
            self.started() <= self.requests().len(),
    {
    }

    /// A dispatch that is not done and has nothing under way can hand out a
    /// request: it never waits for an outcome that cannot come.
    pub proof fn lemma_progress(self)
        requires
            self.wf(),
            self.absorbed().len() != self.requests().len(),
            self.in_flight_spec() == 0,
        ensures
            self.started() < self.requests().len(),
            self.in_flight_spec() < CONCURRENT_REQUESTS,
    {
    }

    /// A dispatch of `requests` of which none has gone out.
    pub fn new(requests: Vec<Request>) -> (d: Self)
        ensures
            d.wf(),
            d.requests() == requests@,
            d.started() == 0,
            d.absorbed() == Seq::<Outcome<T>>::empty(),
    {
        let fan = FanOut::standard(requests.len());
        Dispatch {
            requests,
            fan,
            records: Vec::new(),
            errors: Vec::new(),
            absorbed: Ghost(Seq::empty()),
        }
    }

    /// The number of requests under way, which never exceeds the fan-out
    /// width.
    pub fn in_flight(&self) -> (n: usize)
        requires
            self.wf(),
        ensures
            n == self.in_flight_spec(),
            0 <= n <= CONCURRENT_REQUESTS,
            self.absorbed().len() <= self.started() <= self.requests().len(),
    {
        self.fan.in_flight()
    }

    /// Hands out the next request, in the order of the sources, where one is
    /// left and fewer than the fan-out width are under way; otherwise
    /// changes nothing.
    pub fn next_request(&mut self) -> (r: Option<Request>)
        requires
            old(self).wf(),
        ensures
            final(self).wf(),
            final(self).requests() == old(self).requests(),
            final(self).absorbed() == old(self).absorbed(),
            match r {
                Some(req) => {
                    &&& old(self).started() < old(self).requests().len()
                    &&& old(self).in_flight_spec() < CONCURRENT_REQUESTS
                    &&& final(self).started() == old(self).started() + 1
                    &&& req.method == old(self).requests()[old(self).started() as int].method
                    &&& req.source_id == old(self).requests()[old(self).started() as int].source_id
                    &&& req.url@ == old(self).requests()[old(self).started() as int].url@
                },
                None => {
                    &&& !(old(self).started() < old(self).requests().len() && old(
                        self,
                    ).in_flight_spec() < CONCURRENT_REQUESTS)
                    &&& final(self).started() == old(self).started()
                },
            },
            final(self).in_flight_spec() <= CONCURRENT_REQUESTS,
    {
        match self.fan.start() {
            Some(k) => {
                let req = &self.requests[k];
                Some(Request { method: req.method, source_id: req.source_id, url: req.url.clone() })
            },
            None => None,
        }
    }

    /// A request to the source `source_id` has been handed out.
    pub open spec fn was_asked(&self, source_id: u16) -> bool {
        exists|k: int|
            0 <= k < self.started() && (#[trigger] self.requests()[k]).source_id == source_id
    }

    /// Tells whether a request to the source `source_id` has been handed out.
    pub fn asked(&self, source_id: u16) -> (yes: bool)
        requires
            self.wf(),
        ensures
            yes == self.was_asked(source_id),
    {
        let started = self.fan.count_started();
        let mut k: usize = 0;
        while k < started
            invariant
                self.wf(),
                started == self.started(),
                k <= started <= self.requests@.len(),
                forall|j: int| 0 <= j < k ==> (#[trigger] self.requests@[j]).source_id != source_id,
            decreases started - k,
        {
            if self.requests[k].source_id == source_id {
                return true;
            }
            k = k + 1;
        }
        false
    }

    /// Takes in what the source `source_id` gave to one request under way:
    /// its records join the merged list, or its error the list of errors,
    /// under the key of the source. Where no request is under way, or none
    /// was handed out for that source, the outcome is dropped and the answer
    /// is `false`.
    pub fn absorb(&mut self, source_id: u16, result: Result<Vec<T>, FetchError>) -> (ok: bool)
        requires
            old(self).wf(),
        ensures
            final(self).wf(),
            final(self).requests() == old(self).requests(),
            final(self).started() == old(self).started(),
            ok == (old(self).in_flight_spec() > 0 && old(self).was_asked(source_id)),
            final(self).absorbed() == if ok {
                old(self).absorbed().push(Outcome { source_id, result })
            } else {
                old(self).absorbed()
            },
    {
        if !self.asked(source_id) {
            return false;
        }
        if self.fan.complete() {
            let outcome = Outcome { source_id, result };
            proof {
                let before = self.absorbed@;
                self.absorbed@ = before.push(outcome);
                assert(before.push(outcome).drop_last() == before);
            }
            absorb(&mut self.records, &mut self.errors, outcome);
            true
        } else {
            false
        }
    }

    /// Every request has gone out and every outcome has come.
    pub fn is_done(&self) -> (done: bool)
        requires
            self.wf(),
        ensures
            done == (self.absorbed().len() == self.requests().len()),
    {
        self.fan.is_done()
    }

    /// What the sources have given so far: the merged records and the
    /// errors of the outcomes taken in, in the order in which they came,
    /// each error under the key of the source that failed.
    pub fn finish(self) -> (r: (Vec<T>, Vec<SourceError>))
        requires
            self.wf(),
        ensures
            r.0@ == merged_records(self.absorbed()),
            r.1@ == merged_errors(self.absorbed()),
    {
        (self.records, self.errors)
    }
}

impl<T: Identifiable> Manager<T> {
    /// Begins the fan-out of a `GET` of `{base}/{path}` to every source of
    /// the registry.
    pub fn dispatch(&self, path: &str) -> (d: Dispatch<T>)
        ensures
            d.wf(),
            d.started() == 0,
            d.absorbed() == Seq::<Outcome<T>>::empty(),
            is_dispatch_plan(d.requests(), self.config().sources@, path@),
    {
        Dispatch::new(self.dispatch_requests(path))
    }
}

} // verus!
