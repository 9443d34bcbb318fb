//! The download orchestrator: admission control for the per-post downloads
//! and collection of per-post failures.
//!
//! The orchestrator hands out post indices to at most `CONCURRENCY_LIMIT`
//! concurrently in-flight downloads, admits the next one only when a slot
//! frees, and records every failure without ever aborting the batch. The
//! caller runs the downloads and reports each completion in whatever order
//! they finish.

use vstd::prelude::*;

verus! {

/// The fixed admission-control bound on concurrently in-flight downloads.
pub const CONCURRENCY_LIMIT: usize = 20;

/// One collected failure: the post it belongs to and the failure text.
pub struct Failure {
    pub post_id: u64,
    pub cause: String,
}

/// Mathematical image of a `Failure`.
#[verifier::ext_equal]
pub struct FailureView {
    pub post_id: u64,
    pub cause: Seq<char>,
}

impl DeepView for Failure {
    type V = FailureView;

    open spec fn deep_view(&self) -> FailureView {
        FailureView { post_id: self.post_id, cause: self.cause@ }
    }
}

/// Mathematical image of an `Orchestrator`.
#[verifier::ext_equal]
pub struct OrchestratorView {
    pub total: int,
    pub started: int,
    pub finished: int,
    pub failures: Seq<FailureView>,
}

/// The orchestrator state: posts are identified by their index in the
/// fetched list; `started - finished` downloads are in flight.
pub struct Orchestrator {
    pub total: usize,
    pub started: usize,
    pub finished: usize,
    pub failures: Vec<Failure>,
}

impl DeepView for Orchestrator {
    type V = OrchestratorView;

    open spec fn deep_view(&self) -> OrchestratorView {
        OrchestratorView {
            total: self.total as int,
            started: self.started as int,
            finished: self.finished as int,
            failures: self.failures.deep_view(),
        }
    }
}

/// The number of downloads holding an unreleased slot.
pub open spec fn in_flight(s: OrchestratorView) -> int {
    s.started - s.finished
}

/// The orchestrator invariant: counters in order, never more than
/// `CONCURRENCY_LIMIT` in flight, and at most one failure per completion.
pub open spec fn orch_wf(s: OrchestratorView) -> bool {
    &&& 0 <= s.finished <= s.started <= s.total
    &&& in_flight(s) <= CONCURRENCY_LIMIT as int
    &&& s.failures.len() <= s.finished
}

/// The starting state for `total` posts.
pub open spec fn initial_orchestrator(total: int) -> OrchestratorView {
    OrchestratorView { total, started: 0, finished: 0, failures: Seq::empty() }
}

/// Admission: the next queued post starts exactly when posts remain and a
/// slot is free.
pub open spec fn spec_admit(s: OrchestratorView) -> OrchestratorView {
    if s.started < s.total && in_flight(s) < CONCURRENCY_LIMIT as int {
        OrchestratorView { started: s.started + 1, ..s }
    } else {
        s
    }
}

/// Completion: the slot frees; a failure is recorded as exactly one entry,
/// a success adds nothing.
pub open spec fn spec_complete(
    s: OrchestratorView,
    post_id: u64,
    failure: Option<Seq<char>>,
) -> OrchestratorView {
    OrchestratorView {
        finished: s.finished + 1,
        failures: match failure {
            Some(cause) => s.failures.push(FailureView { post_id, cause }),
            None => s.failures,
        },
        ..s
    }
}

proof fn lemma_push_failure_view(pre: Vec<Failure>, post: Vec<Failure>, x: Failure)
    requires
        post@ == pre@.push(x),
    ensures
        post.deep_view() =~= pre.deep_view().push(x.deep_view()),
{
    assert forall|k: int|
        0 <= k < post.deep_view().len() implies post.deep_view()[k] == pre.deep_view().push(
        x.deep_view(),
    )[k] by {
        if k < pre@.len() {
            assert(post@[k] == pre@[k]);
        } else {
            assert(post@[k] == x);
        }
    }
}

impl Orchestrator {
    /// An orchestrator for `total` posts, none started yet.
    pub fn new(total: usize) -> (r: Orchestrator)
        ensures
            r.deep_view() == initial_orchestrator(total as int),
            orch_wf(r.deep_view()),
    {
        let r = Orchestrator { total, started: 0, finished: 0, failures: Vec::new() };
        proof {
            assert(r.failures.deep_view() =~= Seq::<FailureView>::empty());
            assert(r.deep_view() =~~= initial_orchestrator(total as int));
        }
        r
    }

    /// Admits the next post when posts remain and a slot is free, and
    /// returns its index; returns `None` exactly when no post can start.
    pub fn try_admit(&mut self) -> (r: Option<usize>)
        requires
            orch_wf(old(self).deep_view()),
        ensures
            orch_wf(final(self).deep_view()),
            final(self).deep_view() == spec_admit(old(self).deep_view()),
            r matches Some(i) <==> (old(self).started < old(self).total && in_flight(
                old(self).deep_view(),
            ) < CONCURRENCY_LIMIT as int),
            r matches Some(i) ==> i == old(self).started,
    {
        if self.started < self.total && self.started - self.finished < CONCURRENCY_LIMIT {
            let i = self.started;
            self.started = self.started + 1;
            proof {
                assert(self.deep_view() =~~= spec_admit(old(self).deep_view()));
            }
            Some(i)
        } else {
            proof {
                assert(self.deep_view() =~~= spec_admit(old(self).deep_view()));
            }
            None
        }
    }

    /// Reports one completed download: a success frees its slot and adds
    /// nothing; a failure frees its slot and is collected as exactly one
    /// entry, without aborting anything.
    pub fn record_completion(&mut self, post_id: u64, failure: Option<String>)
        requires
            orch_wf(old(self).deep_view()),
            in_flight(old(self).deep_view()) > 0,
        ensures
            orch_wf(final(self).deep_view()),
            final(self).deep_view() == spec_complete(
                old(self).deep_view(),
                post_id,
                failure.deep_view(),
            ),
    {
        self.finished = self.finished + 1;
        match failure {
            Some(cause) => {
                let f = Failure { post_id, cause };
                let ghost fg = f;
                let ghost pre = self.failures;
                self.failures.push(f);
                proof {
                    lemma_push_failure_view(pre, self.failures, fg);
                    assert(self.deep_view() =~~= spec_complete(
                        old(self).deep_view(),
                        post_id,
                        failure.deep_view(),
                    ));
                }
            },
            None => {
                proof {
                    assert(self.deep_view() =~~= spec_complete(
                        old(self).deep_view(),
                        post_id,
                        failure.deep_view(),
                    ));
                }
            },
        }
    }

    /// The collected failures, in completion order.
    pub fn failures(&self) -> (r: &Vec<Failure>)
        ensures
            r.deep_view() == self.deep_view().failures,
    {
        &self.failures
    }
}

/// One event the runner reports: an admission attempt or a completion.
#[verifier::ext_equal]
pub enum EventView {
    Admit,
    Complete { post_id: u64, failure: Option<Seq<char>> },
}

/// One event applied to the state; a completion without anything in flight
/// reports nothing and changes nothing.
pub open spec fn apply_event(s: OrchestratorView, e: EventView) -> OrchestratorView {
    match e {
        EventView::Admit => spec_admit(s),
        EventView::Complete { post_id, failure } => if in_flight(s) > 0 {
            spec_complete(s, post_id, failure)
        } else {
            s
        },
    }
}

/// A whole run: the events applied in order.
pub open spec fn run_events(s: OrchestratorView, evs: Seq<EventView>) -> OrchestratorView
    decreases evs.len(),
{
    if evs.len() == 0 {
        s
    } else {
        run_events(apply_event(s, evs[0]), evs.drop_first())
    }
}

/// Every single event preserves the invariant.
pub proof fn lemma_event_preserves_wf(s: OrchestratorView, e: EventView)
    requires
        orch_wf(s),
    ensures
        orch_wf(apply_event(s, e)),
{
}

/// Bounded concurrency: in every state the orchestrator can reach from the
/// start, whatever the order of admissions and completions, at most
/// `CONCURRENCY_LIMIT` downloads hold an unreleased slot.
pub proof fn lemma_bounded_in_flight(total: int, evs: Seq<EventView>)
    requires
        0 <= total,
    ensures
        orch_wf(run_events(initial_orchestrator(total), evs)),
        in_flight(run_events(initial_orchestrator(total), evs)) <= CONCURRENCY_LIMIT as int,
{
    lemma_run_events_wf(initial_orchestrator(total), evs);
}

proof fn lemma_run_events_wf(s: OrchestratorView, evs: Seq<EventView>)
    requires
        orch_wf(s),
    ensures
        orch_wf(run_events(s, evs)),
    decreases evs.len(),
{
    if evs.len() > 0 {
        lemma_event_preserves_wf(s, evs[0]);
        lemma_run_events_wf(apply_event(s, evs[0]), evs.drop_first());
    }
}

/// Partial-failure isolation: when one post fails and a sibling succeeds,
/// in either completion order, the batch goes on — both slots free — and
/// the collected failures gain exactly the failed post's entry and nothing
/// for the sibling.
pub proof fn lemma_partial_failure_isolation(
    s: OrchestratorView,
    failed_id: u64,
    cause: Seq<char>,
    ok_id: u64,
)
    requires
        orch_wf(s),
        in_flight(s) >= 2,
    ensures
        ({
            let after = spec_complete(spec_complete(s, failed_id, Some(cause)), ok_id, None);
            &&& after.failures == s.failures.push(FailureView { post_id: failed_id, cause })
            &&& after.finished == s.finished + 2
            &&& after.started == s.started
            &&& orch_wf(after)
        }),
        ({
            let after = spec_complete(spec_complete(s, ok_id, None), failed_id, Some(cause));
            &&& after.failures == s.failures.push(FailureView { post_id: failed_id, cause })
            &&& after.finished == s.finished + 2
            &&& after.started == s.started
            &&& orch_wf(after)
        }),
{
}

} // verus!
