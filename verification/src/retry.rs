use vstd::prelude::*;

verus! {

/// Where one in-flight RPC call stands in its failover schedule: the index of
/// the base URI currently being tried, and how many retries have already been
/// spent on that URI.
///
/// The schedule for `n_uris` endpoints with `max_retries` retries per
/// endpoint visits the URIs in preference order and gives each one
/// `max_retries + 1` attempts before moving on: a transient glitch on the
/// preferred endpoint is assumed more likely than an endpoint-specific bug,
/// so the per-URI budget is exhausted before rotating.
#[derive(Debug, Clone, Copy)]
pub struct EngineState {
    pub uri_index: usize,
    pub attempts: usize,
}

impl EngineState {
    /// The state lies within the schedule for `n_uris` endpoints and
    /// `max_retries` retries per endpoint.
    pub open spec fn wf(self, n_uris: int, max_retries: int) -> bool {
        self.uri_index < n_uris && self.attempts <= max_retries
    }

    /// How many attempts have already been made (and failed) when the engine
    /// is in this state. The attempt about to be made is number
    /// `attempts_made + 1`.
    pub open spec fn attempts_made(self, max_retries: int) -> int {
        self.uri_index * (max_retries + 1) + self.attempts
    }
}

/// What the engine does after a failed attempt: retry the same URI after the
/// fixed delay, switch to the next URI, or give up.
pub enum FailStep {
    Retry { next: EngineState },
    Switch { next: EngineState },
    Exhausted,
}

/// The state in which every call starts: the first URI, no retries spent.
pub fn engine_start() -> (s: EngineState)
    ensures
        s == (EngineState { uri_index: 0, attempts: 0 }),
{
    EngineState { uri_index: 0, attempts: 0 }
}

/// The transition taken after one failed attempt (network failure or decode
/// failure; the two are retried alike, on purpose): retry the same URI while
/// its budget lasts, then rotate to the next URI with a fresh budget, and
/// only once the last URI's budget is spent, give up.
pub fn on_failure(s: EngineState, n_uris: usize, max_retries: usize) -> (step: FailStep)
    requires
        1 <= n_uris,
        s.wf(n_uris as int, max_retries as int),
    ensures
        s.attempts < max_retries ==> step == (FailStep::Retry {
            next: EngineState { uri_index: s.uri_index, attempts: (s.attempts + 1) as usize },
        }),
        s.attempts == max_retries && s.uri_index + 1 < n_uris ==> step == (FailStep::Switch {
            next: EngineState { uri_index: (s.uri_index + 1) as usize, attempts: 0 },
        }),
        s.attempts == max_retries && s.uri_index + 1 == n_uris ==> step == FailStep::Exhausted,
        step matches FailStep::Retry { next } ==> next.wf(n_uris as int, max_retries as int)
            && next.attempts_made(max_retries as int) == s.attempts_made(max_retries as int) + 1,
        step matches FailStep::Switch { next } ==> next.wf(n_uris as int, max_retries as int)
            && next.attempts_made(max_retries as int) == s.attempts_made(max_retries as int) + 1,
        (step is Exhausted) <==> s.attempts_made(max_retries as int)
            == n_uris * (max_retries as int + 1) - 1,
{
    proof {
        let i = s.uri_index as int;
        let r = max_retries as int;
        let n = n_uris as int;
        assert((i + 1) * (r + 1) == i * (r + 1) + (r + 1)) by (nonlinear_arith);
        assert((n - 1) * (r + 1) == n * (r + 1) - (r + 1)) by (nonlinear_arith);
        if i * (r + 1) + s.attempts == n * (r + 1) - 1 {
            // only the very last slot of the schedule has this index
            assert(i == n - 1 && s.attempts == r) by (nonlinear_arith)
                requires
                    0 <= i < n,
                    0 <= s.attempts <= r,
                    i * (r + 1) + s.attempts == n * (r + 1) - 1,
            ;
        }
    }
    if s.attempts < max_retries {
        FailStep::Retry {
            next: EngineState { uri_index: s.uri_index, attempts: s.attempts + 1 },
        }
    } else if s.uri_index + 1 < n_uris {
        FailStep::Switch { next: EngineState { uri_index: s.uri_index + 1, attempts: 0 } }
    } else {
        FailStep::Exhausted
    }
}

/// The whole schedule of one call, run over a given trace of attempt
/// outcomes: entry `k` of `outcomes` says whether attempt number `k + 1`
/// (counting retries and URI switches alike) would yield a decodable
/// response. Returns how many attempts were made and, on success, the index
/// of the attempt whose response is returned.
///
/// The contract is the engine's two laws in one place: the first successful
/// attempt's response is returned and nothing is tried after it, and a call
/// on which every attempt fails makes exactly `n_uris * (max_retries + 1)`
/// attempts and then gives up.
pub fn run_attempts(outcomes: &Vec<bool>, n_uris: usize, max_retries: usize) -> (res: (
    usize,
    Option<usize>,
))
    requires
        1 <= n_uris,
        outcomes@.len() == n_uris * (max_retries as int + 1),
    ensures
        res.1 matches Some(k) ==> k < outcomes@.len() && outcomes@[k as int] && res.0 == k + 1
            && (forall|j: int| 0 <= j < k ==> !outcomes@[j]),
        res.1 is None ==> res.0 == outcomes@.len() && (forall|j: int|
            0 <= j < outcomes@.len() ==> !outcomes@[j]),
{
    let total: usize = outcomes.len();
    let mut s = engine_start();
    loop
        invariant
            1 <= n_uris,
            total == outcomes@.len(),
            outcomes@.len() == n_uris * (max_retries as int + 1),
            s.wf(n_uris as int, max_retries as int),
            forall|j: int| 0 <= j < s.attempts_made(max_retries as int) ==> !outcomes@[j],
        decreases outcomes@.len() - s.attempts_made(max_retries as int),
    {
        proof {
            let n = n_uris as int;
            let r = max_retries as int;
            let i = s.uri_index as int;
            lemma_attempt_budget(s, n, r);
            assert(i * (r + 1) + s.attempts < outcomes@.len());
            assert(i * (r + 1) >= 0) by (nonlinear_arith)
                requires
                    0 <= i,
                    0 <= r,
            ;
            // the whole schedule fits in a usize, so one URI's slice does too
            assert(r + 1 <= n * (r + 1)) by (nonlinear_arith)
                requires
                    1 <= n,
                    0 <= r,
            ;
        }
        let k: usize = s.uri_index * (max_retries + 1) + s.attempts;
        if outcomes[k] {
            return (k + 1, Some(k));
        }
        match on_failure(s, n_uris, max_retries) {
            FailStep::Retry { next } => {
                s = next;
            },
            FailStep::Switch { next } => {
                s = next;
            },
            FailStep::Exhausted => {
                return (outcomes.len(), None);
            },
        }
    }
}

/// No reachable engine state has made `n_uris * (max_retries + 1)` attempts
/// or more: the schedule's length bounds the number of attempts of one call.
pub proof fn lemma_attempt_budget(s: EngineState, n_uris: int, max_retries: int)
    requires
        1 <= n_uris,
        0 <= max_retries,
        s.wf(n_uris, max_retries),
    ensures
        s.attempts_made(max_retries) < n_uris * (max_retries + 1),
{
    assert(s.uri_index * (max_retries + 1) + s.attempts < n_uris * (max_retries + 1))
        by (nonlinear_arith)
        requires
            0 <= (s.uri_index as int),
            (s.uri_index as int) < n_uris,
            0 <= (s.attempts as int),
            (s.attempts as int) <= max_retries,
    ;
}

} // verus!
