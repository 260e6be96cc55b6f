//! When to try again, and after how long.

use vstd::arithmetic::power2::*;
use vstd::prelude::*;

verus! {

/// The exponent of the delay stops growing at this attempt.
pub const MAX_EXPONENT: u32 = 8;

/// By how much the base delay is stretched after a failed attempt: it doubles
/// with every attempt, up to `MAX_EXPONENT` times.
pub open spec fn backoff_factor(attempt: nat) -> nat {
    pow2(if attempt <= MAX_EXPONENT { attempt } else { MAX_EXPONENT as nat })
}

/// The delay after a failed attempt in milliseconds, capped at what a `u64`
/// holds.
pub open spec fn capped_backoff(base_delay_ms: nat, attempt: nat) -> nat {
    let delay = base_delay_ms * backoff_factor(attempt);
    if delay <= u64::MAX {
        delay
    } else {
        u64::MAX as nat
    }
}

/// The factor of an attempt.
pub fn backoff_multiplier(attempt: u32) -> (r: u64)
    ensures
        r == backoff_factor(attempt as nat),
        r == pow2(if attempt <= 8 { attempt as nat } else { 8 }),
        1 <= r <= 256,
{
    let exponent: u32 = if attempt <= MAX_EXPONENT {
        attempt
    } else {
        MAX_EXPONENT
    };
    proof {
        lemma2_to64();
        lemma_pow2_pos(exponent as nat);
        if exponent < 8 {
            lemma_pow2_strictly_increases(exponent as nat, 8);
        }
        vstd::bits::lemma_u64_shl_is_mul(1, exponent as u64);
    }
    1u64 << exponent
}

/// The delay after a failed attempt, in milliseconds.
pub fn exponential_backoff(base_delay_ms: u64, attempt: u32) -> (delay_ms: u64)
    ensures
        delay_ms == capped_backoff(base_delay_ms as nat, attempt as nat),
        ({
            let delay = base_delay_ms * pow2(if attempt <= 8 { attempt as nat } else { 8 });
            delay_ms == if delay <= u64::MAX { delay } else { u64::MAX as int }
        }),
{
    let multiplier: u64 = backoff_multiplier(attempt);
    match base_delay_ms.checked_mul(multiplier) {
        Some(delay_ms) => delay_ms,
        None => u64::MAX,
    }
}

/// What came of one attempt.
#[derive(Clone, Copy, Debug, PartialEq, Eq, Structural)]
pub enum Outcome {
    Success,
    /// A failure that may pass.
    Transient,
    /// A failure that will not pass.
    Permanent,
}

/// What to do after an attempt.
#[derive(Clone, Copy, Debug, PartialEq, Eq, Structural)]
pub enum Decision {
    Finish,
    Retry,
    Abort,
}

/// A failure that may pass is tried again while the retries last.
pub open spec fn decision(attempt: nat, max_retries: nat, outcome: Outcome) -> Decision {
    match outcome {
        Outcome::Success => Decision::Finish,
        Outcome::Transient if attempt < max_retries => Decision::Retry,
        _ => Decision::Abort,
    }
}

/// The attempt under way, counted from 0, and how many may follow the first.
#[derive(Clone, Copy, Debug)]
pub struct Attempts {
    pub attempt: u32,
    pub max_retries: u32,
}

impl Attempts {
    pub open spec fn wf(self) -> bool {
        self.attempt <= self.max_retries
    }

    /// Before the first attempt.
    pub fn first(max_retries: u32) -> (r: Attempts)
        ensures
            r.wf(),
            r.attempt == 0,
            r.max_retries == max_retries,
    {
        Attempts { attempt: 0, max_retries }
    }

    /// Takes note of an outcome and says what to do next.
    pub fn decide(&mut self, outcome: Outcome) -> (r: Decision)
        requires
            old(self).wf(),
        ensures
            final(self).wf(),
            final(self).max_retries == old(self).max_retries,
            r == decision(old(self).attempt as nat, old(self).max_retries as nat, outcome),
            r == Decision::Finish <==> outcome == Outcome::Success,
            r == Decision::Retry <==> outcome == Outcome::Transient && old(self).attempt < old(
                self,
            ).max_retries,
            final(self).attempt == old(self).attempt + if r == Decision::Retry {
                1int
            } else {
                0int
            },
    {
        match outcome {
            Outcome::Success => Decision::Finish,
            Outcome::Transient => {
                if self.attempt < self.max_retries {
                    self.attempt = self.attempt + 1;
                    Decision::Retry
                } else {
                    Decision::Abort
                }
            },
            Outcome::Permanent => Decision::Abort,
        }
    }
}

// ---------------------------------------------------------------------------
// Laws
// ---------------------------------------------------------------------------

/// How a run of attempts ended: whether the last one succeeded, and how many
/// were made.
pub struct Verdict {
    pub success: bool,
    pub tries: nat,
}

/// The end of a run that starts at `attempt` and meets the given outcomes in
/// turn; `None` where they do not settle it.
pub open spec fn run(outcomes: Seq<Outcome>, attempt: nat, max_retries: nat) -> Option<Verdict>
    decreases outcomes.len(),
{
    if outcomes.len() == 0 {
        None
    } else {
        match decision(attempt, max_retries, outcomes[0]) {
            Decision::Finish => Some(Verdict { success: true, tries: 1 }),
            Decision::Abort => Some(Verdict { success: false, tries: 1 }),
            Decision::Retry => match run(outcomes.skip(1), attempt + 1, max_retries) {
                Some(v) => Some(Verdict { success: v.success, tries: v.tries + 1 }),
                None => None,
            },
        }
    }
}

/// A run always ends, after at most one attempt and `max_retries` retries. It
/// succeeds exactly if its last attempt does, and only failures that may pass
/// come before that.
pub proof fn law_run_ends(outcomes: Seq<Outcome>, attempt: nat, max_retries: nat)
    requires
        attempt <= max_retries,
        outcomes.len() > max_retries - attempt,
    ensures
        run(outcomes, attempt, max_retries) is Some,
        ({
            let v = run(outcomes, attempt, max_retries)->0;
            &&& 1 <= v.tries <= max_retries - attempt + 1
            &&& v.success == (outcomes[v.tries - 1] == Outcome::Success)
            &&& forall|j: int| 0 <= j < v.tries - 1 ==> outcomes[j] == Outcome::Transient
        }),
    decreases max_retries - attempt,
{
    if decision(attempt, max_retries, outcomes[0]) == Decision::Retry {
        let rest = outcomes.skip(1);
        law_run_ends(rest, attempt + 1, max_retries);
        let v = run(outcomes, attempt, max_retries)->0;
        assert forall|j: int| 0 <= j < v.tries - 1 implies outcomes[j] == Outcome::Transient by {
            if j > 0 {
                assert(outcomes[j] == rest[j - 1]);
            }
        }
    }
}

/// The first outcome that is no passing failure settles the run, where the
/// retries last that long.
pub proof fn law_first_settled_outcome_decides(
    outcomes: Seq<Outcome>,
    attempt: nat,
    max_retries: nat,
    i: nat,
)
    requires
        attempt + i <= max_retries,
        i < outcomes.len(),
        outcomes[i as int] != Outcome::Transient,
        forall|j: int| 0 <= j < i ==> outcomes[j] == Outcome::Transient,
    ensures
        run(outcomes, attempt, max_retries) == Some(
            Verdict { success: outcomes[i as int] == Outcome::Success, tries: i + 1 },
        ),
    decreases i,
{
    if i > 0 {
        assert(outcomes[0] == Outcome::Transient);
        let rest = outcomes.skip(1);
        assert forall|j: int| 0 <= j < i - 1 implies rest[j] == Outcome::Transient by {
            assert(rest[j] == outcomes[j + 1]);
        }
        law_first_settled_outcome_decides(rest, attempt + 1, max_retries, (i - 1) as nat);
    }
}

/// A failure that never passes is given up after exactly `max_retries` retries.
pub proof fn law_lasting_failure_exhausts_retries(
    outcomes: Seq<Outcome>,
    attempt: nat,
    max_retries: nat,
)
    requires
        attempt <= max_retries,
        outcomes.len() > max_retries - attempt,
        forall|j: int| 0 <= j <= max_retries - attempt ==> outcomes[j] == Outcome::Transient,
    ensures
        run(outcomes, attempt, max_retries) == Some(
            Verdict { success: false, tries: (max_retries - attempt + 1) as nat },
        ),
    decreases max_retries - attempt,
{
    assert(outcomes[0] == Outcome::Transient);
    if attempt < max_retries {
        let rest = outcomes.skip(1);
        assert forall|j: int| 0 <= j <= max_retries - (attempt + 1) implies rest[j]
            == Outcome::Transient by {
            assert(rest[j] == outcomes[j + 1]);
        }
        law_lasting_failure_exhausts_retries(rest, attempt + 1, max_retries);
    }
}

/// The attempts of a run that are followed by a wait, in turn.
pub open spec fn waits(outcomes: Seq<Outcome>, attempt: nat, max_retries: nat) -> Seq<nat>
    decreases outcomes.len(),
{
    if outcomes.len() == 0 || decision(attempt, max_retries, outcomes[0]) != Decision::Retry {
        Seq::empty()
    } else {
        seq![attempt] + waits(outcomes.skip(1), attempt + 1, max_retries)
    }
}

/// A run waits once between any two attempts that follow each other, and at no
/// other time.
pub proof fn law_waits_between_attempts(outcomes: Seq<Outcome>, attempt: nat, max_retries: nat)
    requires
        run(outcomes, attempt, max_retries) is Some,
    ensures
        waits(outcomes, attempt, max_retries).len() == run(
            outcomes,
            attempt,
            max_retries,
        )->0.tries - 1,
        forall|i: int|
            0 <= i < waits(outcomes, attempt, max_retries).len() ==> #[trigger] waits(
                outcomes,
                attempt,
                max_retries,
            )[i] == attempt + i,
    decreases outcomes.len(),
{
    if decision(attempt, max_retries, outcomes[0]) == Decision::Retry {
        let rest = outcomes.skip(1);
        law_waits_between_attempts(rest, attempt + 1, max_retries);
        let later = waits(rest, attempt + 1, max_retries);
        assert forall|i: int| 0 <= i < later.len() + 1 implies #[trigger] waits(
            outcomes,
            attempt,
            max_retries,
        )[i] == attempt + i by {
            if i > 0 {
                assert(waits(outcomes, attempt, max_retries)[i] == later[i - 1]);
            }
        }
    }
}

/// The delay doubles with every attempt up to the cap on the exponent, and
/// stays the same from there on.
pub proof fn law_backoff_doubles(base_delay_ms: nat, attempt: nat)
    ensures
        attempt < MAX_EXPONENT ==> base_delay_ms * backoff_factor(attempt + 1) == 2 * (
        base_delay_ms * backoff_factor(attempt)),
        attempt >= MAX_EXPONENT ==> backoff_factor(attempt + 1) == backoff_factor(attempt),
{
    if attempt < MAX_EXPONENT {
        lemma_pow2_unfold(attempt + 1);
        assert(base_delay_ms * (2 * backoff_factor(attempt)) == 2 * (base_delay_ms
            * backoff_factor(attempt))) by (nonlinear_arith);
    }
}

/// The delay itself starts at the base delay and doubles with every attempt, as
/// far as a `u64` holds it, up to the cap on the exponent; from there on it stays
/// the same.
pub proof fn law_delay_doubles(base_delay_ms: nat, attempt: nat)
    requires
        base_delay_ms <= u64::MAX,
    ensures
        capped_backoff(base_delay_ms, 0) == base_delay_ms,
        attempt < 8 ==> capped_backoff(base_delay_ms, attempt + 1) == if 2 * capped_backoff(
            base_delay_ms,
            attempt,
        ) <= u64::MAX {
            2 * capped_backoff(base_delay_ms, attempt)
        } else {
            u64::MAX as nat
        },
        attempt >= 8 ==> capped_backoff(base_delay_ms, attempt + 1) == capped_backoff(
            base_delay_ms,
            attempt,
        ),
        capped_backoff(base_delay_ms, attempt) == u64::MAX || exists|k: nat|
            k <= 8 && k <= attempt && capped_backoff(base_delay_ms, attempt) == base_delay_ms
                * #[trigger] pow2(k),
{
    lemma2_to64();
    law_backoff_doubles(base_delay_ms, attempt);
    assert(base_delay_ms * 1 == base_delay_ms);
    let k: nat = if attempt <= 8 { attempt } else { 8 };
    assert(backoff_factor(attempt) == pow2(k));
}

/// No delay is shorter than the base delay, longer than 256 times it, or shorter
/// than an earlier one.
pub proof fn law_backoff_is_bounded_and_monotone(
    base_delay_ms: nat,
    earlier: nat,
    later: nat,
)
    requires
        earlier <= later,
        base_delay_ms <= u64::MAX,
    ensures
        base_delay_ms <= capped_backoff(base_delay_ms, earlier) <= 256 * base_delay_ms,
        capped_backoff(base_delay_ms, earlier) <= capped_backoff(base_delay_ms, later),
    decreases later - earlier,
{
    lemma2_to64();
    let f = backoff_factor(earlier);
    lemma_pow2_pos(if earlier <= MAX_EXPONENT { earlier } else { MAX_EXPONENT as nat });
    if earlier < MAX_EXPONENT {
        lemma_pow2_strictly_increases(earlier, MAX_EXPONENT as nat);
    }
    assert(base_delay_ms <= base_delay_ms * f <= 256 * base_delay_ms) by (nonlinear_arith)
        requires
            1 <= f <= 256,
    ;
    if earlier < later {
        law_backoff_doubles(base_delay_ms, earlier);
        law_backoff_is_bounded_and_monotone(base_delay_ms, earlier + 1, later);
    }
}

} // verus!
