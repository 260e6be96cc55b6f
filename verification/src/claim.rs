//! Claims: which are let in, what is answered to them, and how often paying one
//! out is tried.

use crate::challenge;
use crate::challenge::ChallengeStore;
use crate::client::{RpcCall, ToncenterClient};
use crate::config::Config;
use crate::json;
use crate::json::Json;
use crate::pow;
use crate::retry;
use crate::retry::{Attempts, Decision, Outcome};
use crate::transfer;
use crate::transfer::{Payout, TransferError};
use crate::wallet;
use crate::wallet::Wallet;
use vstd::arithmetic::power2::*;
use vstd::prelude::*;

verus! {

/// A request for a payout.
#[derive(Clone, Debug)]
pub struct CreateClaim {
    pub address: String,
    pub challenge: String,
    pub nonce: u64,
}

/// Why a claim is refused.
#[derive(Clone, Copy, Debug, PartialEq, Eq, Structural)]
pub enum ClaimRefusal {
    /// Its address is none.
    Address,
    /// Its challenge was not handed out, was redeemed, or has expired.
    Challenge,
    /// Its nonce does not solve the challenge.
    ProofOfWork,
}

/// What is answered to a request.
#[derive(Debug)]
pub struct Reply {
    pub status: u16,
    pub body: Json,
}

/// What is answered at the root.
pub fn root() -> (r: &'static str)
    ensures
        r@ == "TON Faucet is running!"@,
{
    "TON Faucet is running!"
}

// ---------------------------------------------------------------------------
// Letting claims in
// ---------------------------------------------------------------------------

/// Whether a claim is let in: its address is looked at first, then its
/// challenge, then its proof of work.
pub open spec fn verdict(address_known: bool, live: bool, solved: bool) -> Result<
    (),
    ClaimRefusal,
> {
    if !address_known {
        Err(ClaimRefusal::Address)
    } else if !live {
        Err(ClaimRefusal::Challenge)
    } else if !solved {
        Err(ClaimRefusal::ProofOfWork)
    } else {
        Ok(())
    }
}

/// Whether a claim is let in, when its challenge is live or not.
pub open spec fn claim_verdict(claim: CreateClaim, live: bool, difficulty: u32) -> Result<
    (),
    ClaimRefusal,
> {
    verdict(
        transfer::address_known(claim.address@),
        live,
        pow::pow_valid(claim.challenge@, claim.nonce, difficulty as nat),
    )
}

/// Judges a claim whose address is known or not, and whose challenge is live or
/// not.
pub fn judge_claim(
    claim: &CreateClaim,
    address_known: bool,
    live: bool,
    difficulty: u32,
) -> (r: Result<(), ClaimRefusal>)
    ensures
        r == verdict(
            address_known,
            live,
            pow::pow_valid(claim.challenge@, claim.nonce, difficulty as nat),
        ),
        r is Ok <==> address_known && live && pow::pow_valid(
            claim.challenge@,
            claim.nonce,
            difficulty as nat,
        ),
        r == Err::<(), ClaimRefusal>(ClaimRefusal::Address) <==> !address_known,
        r == Err::<(), ClaimRefusal>(ClaimRefusal::Challenge) <==> address_known && !live,
{
    if !address_known {
        return Err(ClaimRefusal::Address);
    }
    if !live {
        return Err(ClaimRefusal::Challenge);
    }
    if !pow::verify_pow(claim.challenge.as_str(), claim.nonce, difficulty) {
        return Err(ClaimRefusal::ProofOfWork);
    }
    Ok(())
}

/// Judges a claim, and redeems its challenge if the claim is let in. Only the
/// store can tell whether a challenge that it holds is still live; one that it
/// does not hold is not.
#[verifier::spinoff_prover]
pub fn create_claim(store: &mut ChallengeStore, claim: &CreateClaim, difficulty: u32) -> (r: Result<
    (),
    ClaimRefusal,
>)
    ensures
        exists|live: bool|
            (live ==> old(store)@.contains(claim.challenge@)) && r == #[trigger] claim_verdict(
                *claim,
                live,
                difficulty,
            ),
        r == Err::<(), ClaimRefusal>(ClaimRefusal::Address) <==> wallet::address_of_text(
            claim.address@,
        ) is None,
        r == Err::<(), ClaimRefusal>(ClaimRefusal::Challenge) ==> exists|key: &str|
            key@ == claim.challenge@ && #[trigger] call_ensures(
                ChallengeStore::is_live,
                (&*old(store), key),
                false,
            ),
        r is Ok || r == Err::<(), ClaimRefusal>(ClaimRefusal::ProofOfWork) ==> exists|key: &str|
            key@ == claim.challenge@ && #[trigger] call_ensures(
                ChallengeStore::is_live,
                (&*old(store), key),
                true,
            ),
        r is Ok ==> pow::pow_valid(claim.challenge@, claim.nonce, difficulty as nat),
        r == Err::<(), ClaimRefusal>(ClaimRefusal::ProofOfWork) ==> !pow::pow_valid(
            claim.challenge@,
            claim.nonce,
            difficulty as nat,
        ),
        challenge::store_step(
            old(store)@,
            challenge::StoreEvent::Claimed { challenge: claim.challenge@, admitted: r is Ok },
            final(store)@,
        ),
        final(store)@ == if r is Ok {
            old(store)@.remove(claim.challenge@)
        } else {
            old(store)@
        },
        final(store).limits() == old(store).limits(),
{
    let address_known: bool = match wallet::parse_address(claim.address.as_str()) {
        Ok(_) => true,
        Err(_) => false,
    };
    let key: &str = claim.challenge.as_str();
    let live: bool = address_known && store.is_live(key);
    assert(address_known ==> call_ensures(ChallengeStore::is_live, (&*old(store), key), live));
    let r: Result<(), ClaimRefusal> = judge_claim(claim, address_known, live, difficulty);
    assert(r == claim_verdict(*claim, live, difficulty));
    if let Ok(_) = r {
        store.redeem(key);
    }
    r
}

/// A claim that is let in has a good address, solves its challenge, and comes
/// with a challenge that was handed out and not redeemed since.
pub proof fn law_admitted_claims_have_earned_it(
    held: Set<Seq<char>>,
    claim: CreateClaim,
    live: bool,
    difficulty: u32,
)
    requires
        live ==> held.contains(claim.challenge@),
        claim_verdict(claim, live, difficulty) is Ok,
    ensures
        transfer::address_known(claim.address@),
        pow::pow_valid(claim.challenge@, claim.nonce, difficulty as nat),
        held.contains(claim.challenge@),
{
}

/// A claim with a good address whose challenge is found and solved is let in,
/// whatever the difficulty; and whether it is let in, once it has a good address
/// and its challenge is found, depends on its proof of work alone.
pub proof fn law_earned_claims_are_let_in(claim: CreateClaim, difficulty: u32)
    requires
        wallet::address_of_text(claim.address@) is Some,
    ensures
        claim_verdict(claim, true, difficulty) is Ok <==> pow::pow_valid(
            claim.challenge@,
            claim.nonce,
            difficulty as nat,
        ),
        claim_verdict(claim, true, difficulty) is Err ==> claim_verdict(claim, true, difficulty)
            == Err::<(), ClaimRefusal>(ClaimRefusal::ProofOfWork),
        claim_verdict(claim, false, difficulty) == Err::<(), ClaimRefusal>(ClaimRefusal::Challenge),
{
}

// ---------------------------------------------------------------------------
// What is answered
// ---------------------------------------------------------------------------

/// An object with one text.
pub open spec fn note(key: Seq<char>, text: Seq<char>) -> json::JsonView {
    json::object_of(seq![(key, json::JsonView::Text(text))])
}

/// What a refused claim is told.
pub open spec fn refusal_text(refusal: ClaimRefusal) -> Seq<char> {
    match refusal {
        ClaimRefusal::Address => "Invalid TON address"@,
        ClaimRefusal::Challenge => "Invalid or expired challenge"@,
        ClaimRefusal::ProofOfWork => "Invalid PoW solution"@,
    }
}

/// A reply with one text.
fn reply(status: u16, key: &str, text: &str) -> (r: Reply)
    ensures
        r.status == status,
        r.body@ == note(key@, text@),
        r.body@ == json::JsonView::Object(map![key@ => json::JsonView::Text(text@)]),
{
    proof {
        json::lemma_object_of_one((key@, json::JsonView::Text(text@)));
    }
    let entries: Vec<(String, Json)> = vec![(key.to_owned(), Json::text(text))];
    assert(json::entry_views(entries@) =~= seq![(key@, json::JsonView::Text(text@))]);
    Reply { status, body: Json::Object(entries) }
}

impl ClaimRefusal {
    /// What is answered to a refused claim: a bad request.
    pub fn reply(&self) -> (r: Reply)
        ensures
            r.status == 400,
            r.body@ == note("error"@, refusal_text(*self)),
            r.body@ == json::JsonView::Object(
                map![
                    "error"@ => json::JsonView::Text(
                        match self {
                            ClaimRefusal::Address => "Invalid TON address"@,
                            ClaimRefusal::Challenge => "Invalid or expired challenge"@,
                            ClaimRefusal::ProofOfWork => "Invalid PoW solution"@,
                        },
                    ),
                ],
            ),
    {
        let text: &str = match self {
            ClaimRefusal::Address => "Invalid TON address",
            ClaimRefusal::Challenge => "Invalid or expired challenge",
            ClaimRefusal::ProofOfWork => "Invalid PoW solution",
        };
        reply(400, "error", text)
    }
}

/// What is answered to a claim that was let in, once it was queued or could not
/// be.
pub fn queue_reply(queued: bool) -> (r: Result<Reply, Reply>)
    ensures
        match r {
            Ok(reply) => queued && reply.status == 200 && reply.body@ == note(
                "message"@,
                "Your claim has been queued. It will be processed soon."@,
            ),
            Err(reply) => !queued && reply.status == 500 && reply.body@ == note(
                "error"@,
                "Failed to queue claim"@,
            ),
        },
        r is Ok <==> queued,
        r matches Ok(reply) ==> reply.status == 200 && reply.body@ == json::JsonView::Object(
            map![
                "message"@ => json::JsonView::Text(
                    "Your claim has been queued. It will be processed soon."@,
                ),
            ],
        ),
        r matches Err(reply) ==> reply.status == 500 && reply.body@ == json::JsonView::Object(
            map!["error"@ => json::JsonView::Text("Failed to queue claim"@)],
        ),
{
    if queued {
        Ok(
            reply(
                200,
                "message",
                "Your claim has been queued. It will be processed soon.",
            ),
        )
    } else {
        Err(reply(500, "error", "Failed to queue claim"))
    }
}

// ---------------------------------------------------------------------------
// Paying claims out
// ---------------------------------------------------------------------------

/// The attempts at paying one claim out.
pub struct ClaimRun {
    pub attempts: Attempts,
    pub retry_base_delay_ms: u64,
}

/// What to do after an attempt at paying a claim out.
#[derive(Clone, Copy, Debug, PartialEq, Eq, Structural)]
pub enum ClaimStep {
    Paid,
    /// Wait, then try again.
    Retry { delay_ms: u64 },
    GiveUp,
}

/// The outcome of an attempt: every failure may pass.
pub open spec fn payout_outcome(paid: bool) -> Outcome {
    if paid {
        Outcome::Success
    } else {
        Outcome::Transient
    }
}

/// Starts paying a claim out.
pub fn send_claim(config: &Config) -> (r: ClaimRun)
    ensures
        r.wf(),
        r.attempts.attempt == 0,
        r.attempts.max_retries == config.worker_max_retries,
        r.retry_base_delay_ms == config.worker_retry_base_delay_ms,
{
    ClaimRun {
        attempts: Attempts::first(config.worker_max_retries),
        retry_base_delay_ms: config.worker_retry_base_delay_ms,
    }
}

impl ClaimRun {
    pub open spec fn wf(self) -> bool {
        self.attempts.wf()
    }

    /// Takes note of whether the claim was paid and says what to do next.
    pub fn on_attempt(&mut self, paid: bool) -> (r: ClaimStep)
        requires
            old(self).wf(),
        ensures
            final(self).wf(),
            final(self).retry_base_delay_ms == old(self).retry_base_delay_ms,
            final(self).attempts.max_retries == old(self).attempts.max_retries,
            final(self).attempts.attempt == old(self).attempts.attempt + if r is Retry {
                1int
            } else {
                0int
            },
            match retry::decision(
                old(self).attempts.attempt as nat,
                old(self).attempts.max_retries as nat,
                payout_outcome(paid),
            ) {
                Decision::Finish => r == ClaimStep::Paid,
                Decision::Retry => r is Retry && r->delay_ms == retry::capped_backoff(
                    old(self).retry_base_delay_ms as nat,
                    old(self).attempts.attempt as nat,
                ),
                Decision::Abort => r == ClaimStep::GiveUp,
            },
            r == ClaimStep::Paid <==> paid,
            r is Retry <==> !paid && old(self).attempts.attempt < old(self).attempts.max_retries,
            r matches ClaimStep::Retry { delay_ms } ==> {
                let delay = old(self).retry_base_delay_ms * pow2(
                    if old(self).attempts.attempt <= 8 {
                        old(self).attempts.attempt as nat
                    } else {
                        8
                    },
                );
                delay_ms == if delay <= u64::MAX {
                    delay
                } else {
                    u64::MAX as int
                }
            },
    {
        let attempt: u32 = self.attempts.attempt;
        let outcome: Outcome = if paid {
            Outcome::Success
        } else {
            Outcome::Transient
        };
        match self.attempts.decide(outcome) {
            Decision::Finish => ClaimStep::Paid,
            Decision::Retry => ClaimStep::Retry {
                delay_ms: retry::exponential_backoff(self.retry_base_delay_ms, attempt),
            },
            Decision::Abort => ClaimStep::GiveUp,
        }
    }
}

/// Starts one attempt at paying a claim out: the configured amount goes to the
/// claim's address, whatever came of the attempts before.
pub fn start_payout(
    wallet: &Wallet,
    client: &ToncenterClient,
    claim: &CreateClaim,
    config: &Config,
) -> (r: Result<(Payout, RpcCall), TransferError>)
    ensures
        transfer::payout_started(
            wallet@,
            *client,
            claim.address@,
            config.faucet_amount,
            r,
        ),
{
    transfer::process_send_tokens(wallet, client, claim.address.as_str(), config.faucet_amount)
}

/// What a claim that is given up is reported as, by what the last attempt failed
/// of.
pub fn give_up_message(error: &str) -> (r: String)
    ensures
        r@ == "Failed to send claim: "@ + error@,
{
    "Failed to send claim: ".to_owned().concat(error)
}

/// The outcomes of attempts that paid or did not, in turn.
pub open spec fn payout_outcomes(paid: Seq<bool>) -> Seq<Outcome> {
    paid.map_values(|p: bool| payout_outcome(p))
}

/// A claim is paid by the first attempt that succeeds, where that is the first
/// or one of `max_retries` retries, and no attempt follows it.
pub proof fn law_first_success_pays_the_claim(paid: Seq<bool>, max_retries: nat, i: nat)
    requires
        i <= max_retries,
        i < paid.len(),
        paid[i as int],
        forall|j: int| 0 <= j < i ==> !paid[j],
    ensures
        retry::run(payout_outcomes(paid), 0, max_retries) == Some(
            retry::Verdict { success: true, tries: i + 1 },
        ),
{
    let outcomes = payout_outcomes(paid);
    assert forall|j: int| 0 <= j < i implies outcomes[j] == Outcome::Transient by {
        assert(!paid[j]);
    }
    retry::law_first_settled_outcome_decides(outcomes, 0, max_retries, i);
}

/// A claim is given up once the first attempt and all `max_retries` retries have
/// failed, and not before.
pub proof fn law_claim_is_given_up_after_all_retries(paid: Seq<bool>, max_retries: nat)
    requires
        paid.len() > max_retries,
        forall|j: int| 0 <= j <= max_retries ==> !paid[j],
    ensures
        retry::run(payout_outcomes(paid), 0, max_retries) == Some(
            retry::Verdict { success: false, tries: max_retries + 1 },
        ),
{
    let outcomes = payout_outcomes(paid);
    assert forall|j: int| 0 <= j <= max_retries implies outcomes[j] == Outcome::Transient by {
        assert(!paid[j]);
    }
    retry::law_lasting_failure_exhausts_retries(outcomes, 0, max_retries);
}

/// How long each wait between the attempts at a claim lasts, in milliseconds.
pub open spec fn payout_delays(paid: Seq<bool>, max_retries: nat, base_delay_ms: nat) -> Seq<nat> {
    retry::waits(payout_outcomes(paid), 0, max_retries).map_values(
        |attempt: nat| retry::capped_backoff(base_delay_ms, attempt),
    )
}

/// Between the attempts at a claim there is one wait less than there are
/// attempts, and the wait after the attempt `i`, counted from 0, lasts as long as
/// the backoff of `i`.
pub proof fn law_claim_waits_between_attempts(
    paid: Seq<bool>,
    max_retries: nat,
    base_delay_ms: nat,
)
    requires
        retry::run(payout_outcomes(paid), 0, max_retries) is Some,
    ensures
        payout_delays(paid, max_retries, base_delay_ms).len() == retry::run(
            payout_outcomes(paid),
            0,
            max_retries,
        )->0.tries - 1,
        forall|i: int|
            0 <= i < payout_delays(paid, max_retries, base_delay_ms).len()
                ==> #[trigger] payout_delays(paid, max_retries, base_delay_ms)[i]
                == retry::capped_backoff(base_delay_ms, i as nat),
{
    retry::law_waits_between_attempts(payout_outcomes(paid), 0, max_retries);
}

} // verus!
