use vstd::prelude::*;

verus! {

/// What one delivery attempt against the notification channel came to. The
/// host classifies the channel's answer: a timeout or network-class error is
/// transient (worth retrying), any other failure is permanent (retrying will
/// not help).
#[derive(Debug, PartialEq, Eq, Clone, Copy)]
pub enum AttemptOutcome {
    Delivered,
    TransientFailure,
    PermanentFailure,
}

/// Where a delivery ended.
#[derive(Debug, PartialEq, Eq, Clone, Copy)]
pub enum DeliveryStatus {
    /// The message reached the channel.
    Delivered,
    /// Every allowed attempt failed with a transient error, or no attempt was
    /// allowed at all; the message is dropped.
    Exhausted,
    /// An attempt failed with a permanent error and delivery stopped at once,
    /// with no retry.
    Failed,
}

/// How many attempts a delivery with `retries` allowed attempts makes when
/// the channel answers attempt number `i + 1` with `outcomes[i]`: attempts
/// follow one another as long as they fail transiently and attempts remain
/// allowed.
pub open spec fn spec_attempts(retries: nat, outcomes: Seq<AttemptOutcome>) -> nat
    decreases retries,
{
    if retries == 0 || outcomes.len() == 0 {
        0
    } else if outcomes.first() is TransientFailure {
        1 + spec_attempts((retries - 1) as nat, outcomes.drop_first())
    } else {
        1
    }
}

/// Where such a delivery ends.
pub open spec fn spec_delivery_status(retries: nat, outcomes: Seq<AttemptOutcome>) -> DeliveryStatus
    decreases retries,
{
    if retries == 0 || outcomes.len() == 0 {
        DeliveryStatus::Exhausted
    } else {
        match outcomes.first() {
            AttemptOutcome::Delivered => DeliveryStatus::Delivered,
            AttemptOutcome::PermanentFailure => DeliveryStatus::Failed,
            AttemptOutcome::TransientFailure => spec_delivery_status(
                (retries - 1) as nat,
                outcomes.drop_first(),
            ),
        }
    }
}

/// Is an attempt allowed after `tried` attempts, out of `retries` allowed?
pub fn may_attempt(tried: u8, retries: u8) -> (r: bool)
    ensures
        r == (tried < retries),
{
    tried < retries
}

/// What the delivery loop does after one more attempt.
#[derive(Debug, PartialEq, Eq)]
pub enum RetryStep {
    /// Sleep the configured interval, then attempt again; `tried` attempts
    /// are behind us now.
    Retry { tried: u8 },
    /// Delivery is over.
    Finished { status: DeliveryStatus },
}

/// Decide what follows attempt number `tried + 1`, which the channel answered
/// with `outcome`: success and permanent failure end the delivery at once, a
/// transient failure is retried while attempts remain allowed.
pub fn delivery_step(tried: u8, retries: u8, outcome: &AttemptOutcome) -> (r: RetryStep)
    requires
        tried < retries,
    ensures
        r == match *outcome {
            AttemptOutcome::Delivered => RetryStep::Finished {
                status: DeliveryStatus::Delivered,
            },
            AttemptOutcome::PermanentFailure => RetryStep::Finished {
                status: DeliveryStatus::Failed,
            },
            AttemptOutcome::TransientFailure => if tried + 1 < retries {
                RetryStep::Retry { tried: (tried + 1) as u8 }
            } else {
                RetryStep::Finished { status: DeliveryStatus::Exhausted }
            },
        },
{
    match outcome {
        AttemptOutcome::Delivered => RetryStep::Finished { status: DeliveryStatus::Delivered },
        AttemptOutcome::PermanentFailure => RetryStep::Finished { status: DeliveryStatus::Failed },
        AttemptOutcome::TransientFailure => {
            if tried + 1 < retries {
                RetryStep::Retry { tried: tried + 1 }
            } else {
                RetryStep::Finished { status: DeliveryStatus::Exhausted }
            }
        },
    }
}

/// How a delivery ended and how many attempts it took.
#[derive(Debug, PartialEq, Eq)]
pub struct DeliveryReport {
    pub attempts: u8,
    pub status: DeliveryStatus,
}

/// Run one whole delivery against a channel whose answer to attempt number
/// `i + 1` is `outcomes[i]`. This is the delivery loop itself, built from
/// `may_attempt` and `delivery_step`; a host that performs real sends drives
/// those two functions the same way and sleeps between attempts.
pub fn run_delivery(retries: u8, outcomes: &Vec<AttemptOutcome>) -> (r: DeliveryReport)
    requires
        outcomes@.len() >= retries,
    ensures
        r.attempts == spec_attempts(retries as nat, outcomes@),
        r.status == spec_delivery_status(retries as nat, outcomes@),
{
    let mut tried: u8 = 0;
    proof {
        assert(outcomes@.skip(0) =~= outcomes@);
    }
    loop
        invariant
            tried <= retries,
            outcomes@.len() >= retries,
            spec_attempts(retries as nat, outcomes@) == tried + spec_attempts(
                (retries - tried) as nat,
                outcomes@.skip(tried as int),
            ),
            spec_delivery_status(retries as nat, outcomes@) == spec_delivery_status(
                (retries - tried) as nat,
                outcomes@.skip(tried as int),
            ),
        decreases retries - tried,
    {
        if !may_attempt(tried, retries) {
            proof {
                assert(spec_attempts(0, outcomes@.skip(tried as int)) == 0);
                assert(spec_delivery_status(0, outcomes@.skip(tried as int))
                    is Exhausted);
            }
            return DeliveryReport { attempts: tried, status: DeliveryStatus::Exhausted };
        }
        let outcome = outcomes[tried as usize];
        proof {
            let rest = outcomes@.skip(tried as int);
            assert(rest.len() > 0);
            assert(rest.first() == outcomes@[tried as int]);
            assert(rest.drop_first() =~= outcomes@.skip(tried as int + 1));
            if outcome is TransientFailure {
                assert(spec_attempts((retries - tried) as nat, rest) == 1 + spec_attempts(
                    (retries - tried - 1) as nat,
                    outcomes@.skip(tried as int + 1),
                ));
                assert(spec_delivery_status((retries - tried) as nat, rest)
                    == spec_delivery_status(
                    (retries - tried - 1) as nat,
                    outcomes@.skip(tried as int + 1),
                ));
            } else {
                assert(spec_attempts((retries - tried) as nat, rest) == 1);
            }
        }
        match delivery_step(tried, retries, &outcome) {
            RetryStep::Retry { tried: t } => {
                tried = t;
            },
            RetryStep::Finished { status } => {
                proof {
                    if outcome is TransientFailure {
                        assert(tried + 1 == retries);
                        assert(spec_attempts(0nat, outcomes@.skip(tried as int + 1)) == 0);
                        assert(spec_delivery_status(0nat, outcomes@.skip(tried as int + 1))
                            is Exhausted);
                    }
                }
                return DeliveryReport { attempts: tried + 1, status };
            },
        }
    }
}

/// Law: when the channel fails transiently `k` times and would deliver on
/// attempt `k + 1`, the notifier makes exactly `min(retries, k + 1)` attempts:
/// it retries exactly as often as needed, bounded by the allowed count, and
/// the delivery succeeds exactly when attempt `k + 1` is still allowed.
pub proof fn lemma_retries_until_success(retries: nat, outcomes: Seq<AttemptOutcome>, k: int)
    requires
        0 <= k < outcomes.len(),
        forall|i: int| 0 <= i < k ==> outcomes[i] is TransientFailure,
        outcomes[k] is Delivered,
    ensures
        spec_attempts(retries, outcomes) == vstd::math::min(retries as int, k + 1),
        retries >= k + 1 ==> spec_delivery_status(retries, outcomes) is Delivered,
        retries < k + 1 ==> spec_delivery_status(retries, outcomes) is Exhausted,
    decreases k,
{
    if retries == 0 {
    } else if k == 0 {
        assert(outcomes.first() is Delivered);
    } else {
        assert(outcomes.first() is TransientFailure);
        let rest = outcomes.drop_first();
        assert forall|i: int| 0 <= i < k - 1 implies rest[i] is TransientFailure by {
            assert(rest[i] == outcomes[i + 1]);
        }
        assert(rest[k - 1] == outcomes[k]);
        lemma_retries_until_success((retries - 1) as nat, rest, k - 1);
    }
}

/// Law: when every attempt fails transiently, the notifier makes exactly
/// `retries` attempts and ends exhausted; the failure never surfaces as an
/// error, only as the exhausted status.
pub proof fn lemma_exhausts_on_transient(retries: nat, outcomes: Seq<AttemptOutcome>)
    requires
        outcomes.len() >= retries,
        forall|i: int| 0 <= i < outcomes.len() ==> outcomes[i] is TransientFailure,
    ensures
        spec_attempts(retries, outcomes) == retries,
        spec_delivery_status(retries, outcomes) is Exhausted,
    decreases retries,
{
    if retries == 0 {
    } else {
        assert(outcomes.first() is TransientFailure);
        let rest = outcomes.drop_first();
        assert forall|i: int| 0 <= i < rest.len() implies rest[i] is TransientFailure by {
            assert(rest[i] == outcomes[i + 1]);
        }
        lemma_exhausts_on_transient((retries - 1) as nat, rest);
    }
}

/// Law: a permanent failure on the first attempt stops delivery at once:
/// one attempt, zero retries.
pub proof fn lemma_stops_on_permanent(retries: nat, outcomes: Seq<AttemptOutcome>)
    requires
        retries > 0,
        outcomes.len() > 0,
        outcomes.first() is PermanentFailure,
    ensures
        spec_attempts(retries, outcomes) == 1,
        spec_delivery_status(retries, outcomes) is Failed,
{
}

} // verus!
