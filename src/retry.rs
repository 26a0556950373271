use vstd::prelude::*;

verus! {

/// What one attempt of a request produced.
#[derive(Clone, Copy, Debug, PartialEq, Eq, Structural)]
pub enum Outcome {
    /// The server answered with this HTTP status.
    Status(u16),
    /// The exchange failed before a status arrived (transport failure, timeout).
    NetworkFailure,
}

/// Whether an attempt succeeded: a status in 200..=299.
pub open spec fn is_success(o: Outcome) -> bool {
    match o {
        Outcome::Status(s) => 200 <= s <= 299,
        Outcome::NetworkFailure => false,
    }
}

/// Attempt budget of the retry policy: how many attempts a request may still make,
/// the one under way included.
#[derive(Clone, Copy, Debug, PartialEq, Eq, Structural)]
pub struct RetryLimit {
    pub remaining_tries: usize,
}

/// The policy after an attempt with outcome `o`, or `None` when retrying stops.
pub open spec fn next_policy(p: RetryLimit, o: Outcome) -> Option<RetryLimit> {
    if is_success(o) || p.remaining_tries <= 1 {
        None
    } else {
        Some(RetryLimit { remaining_tries: (p.remaining_tries - 1) as usize })
    }
}

/// How many attempts the engine makes under policy `p` when the attempts
/// produce `outcomes` in turn.
pub open spec fn attempts_made(p: RetryLimit, outcomes: Seq<Outcome>) -> nat
    decreases outcomes.len(),
{
    if outcomes.len() == 0 {
        0
    } else {
        match next_policy(p, outcomes[0]) {
            Some(q) => 1 + attempts_made(q, outcomes.drop_first()),
            None => 1,
        }
    }
}

/// The outcome the engine reports under policy `p`: that of its last attempt.
pub open spec fn reported_outcome(p: RetryLimit, outcomes: Seq<Outcome>) -> Outcome
    recommends
        outcomes.len() > 0,
    decreases outcomes.len(),
{
    if outcomes.len() <= 1 {
        outcomes[0]
    } else {
        match next_policy(p, outcomes[0]) {
            Some(q) => reported_outcome(q, outcomes.drop_first()),
            None => outcomes[0],
        }
    }
}

impl RetryLimit {
    /// A policy that allows `remaining_tries` attempts of one request.
    pub fn new(remaining_tries: usize) -> (r: Self)
        ensures
            r.remaining_tries == remaining_tries,
    {
        RetryLimit { remaining_tries }
    }

    /// The policy for the next attempt after a failed one, or `None` once the
    /// budget is spent.
    pub fn should_retry(&self) -> (r: Option<RetryLimit>)
        ensures
            r == next_policy(*self, Outcome::NetworkFailure),
    {
        if self.remaining_tries > 1 {
            Some(RetryLimit { remaining_tries: self.remaining_tries - 1 })
        } else {
            None
        }
    }

    /// Decides after an attempt with outcome `outcome`: the policy for the next
    /// attempt, or `None` when the outcome is final (a success, or the budget is spent).
    pub fn retry(&self, outcome: Outcome) -> (r: Option<RetryLimit>)
        ensures
            r == next_policy(*self, outcome),
    {
        let ok = match outcome {
            Outcome::Status(s) => 200 <= s && s <= 299,
            Outcome::NetworkFailure => false,
        };
        if ok {
            None
        } else {
            self.should_retry()
        }
    }
}

/// With a budget of `k` attempts and only failures, the engine makes exactly
/// `k` attempts and reports the outcome of the last.
pub proof fn lemma_failures_exhaust_budget(k: usize, outcomes: Seq<Outcome>)
    requires
        k >= 1,
        outcomes.len() >= k,
        forall|i: int| 0 <= i < outcomes.len() ==> !is_success(#[trigger] outcomes[i]),
    ensures
        attempts_made(RetryLimit { remaining_tries: k }, outcomes) == k,
        reported_outcome(RetryLimit { remaining_tries: k }, outcomes) == outcomes[k - 1],
    decreases k,
{
    assert(!is_success(outcomes[0]));
    if k > 1 {
        let rest = outcomes.drop_first();
        assert forall|i: int| 0 <= i < rest.len() implies !is_success(#[trigger] rest[i]) by {
            assert(rest[i] == outcomes[i + 1]);
        }
        lemma_failures_exhaust_budget((k - 1) as usize, rest);
        assert(rest[k - 2] == outcomes[k - 1]);
    }
}

/// With a budget of `k` attempts and a first success at attempt `j <= k`, the
/// engine makes exactly `j` attempts and reports that success.
pub proof fn lemma_success_stops_retrying(k: usize, j: nat, outcomes: Seq<Outcome>)
    requires
        1 <= j <= k,
        outcomes.len() >= j,
        forall|i: int| 0 <= i < j - 1 ==> !is_success(#[trigger] outcomes[i]),
        is_success(outcomes[j - 1]),
    ensures
        attempts_made(RetryLimit { remaining_tries: k }, outcomes) == j,
        reported_outcome(RetryLimit { remaining_tries: k }, outcomes) == outcomes[j - 1],
    decreases j,
{
    if j > 1 {
        assert(!is_success(outcomes[0]));
        let rest = outcomes.drop_first();
        assert forall|i: int| 0 <= i < j - 2 implies !is_success(#[trigger] rest[i]) by {
            assert(rest[i] == outcomes[i + 1]);
        }
        assert(rest[j - 2] == outcomes[j - 1]);
        lemma_success_stops_retrying((k - 1) as usize, (j - 1) as nat, rest);
    }
}

} // verus!
