//! The challenges that are handed out, and which of them may still be redeemed.

use crate::json;
use crate::json::Json;
use crate::pow;
use crate::text;
use rand::RngCore;
use std::time::Duration;
use vstd::prelude::*;

verus! {

// ---------------------------------------------------------------------------
// Hexadecimal text
// ---------------------------------------------------------------------------

/// The hexadecimal digit of a number below 16.
pub open spec fn hex_digit(n: int) -> char {
    if n < 10 {
        ('0' as int + n) as char
    } else {
        ('a' as int + n - 10) as char
    }
}

/// Two hexadecimal digits for each byte, in small letters.
pub open spec fn hex_text(bytes: Seq<u8>) -> Seq<char> {
    Seq::new(
        2 * bytes.len(),
        |i: int|
            if i % 2 == 0 {
                hex_digit(bytes[i / 2] as int / 16)
            } else {
                hex_digit(bytes[i / 2] as int % 16)
            },
    )
}

/// Calls `hex::encode`. Claimed of it: every byte becomes two digits in small
/// letters, the upper half of the byte first.
#[verifier::external_body]
fn hex_encode(bytes: &[u8]) -> (r: String)
    ensures
        r@ == hex_text(bytes@),
{
    hex::encode(bytes)
}

/// Calls `rand::rng` and `RngCore::fill_bytes` on it. Nothing is claimed of the
/// bytes but their number.
#[verifier::external_body]
fn random_bytes() -> (r: [u8; 32]) {
    let mut bytes: [u8; 32] = [0u8; 32];
    rand::rng().fill_bytes(&mut bytes);
    bytes
}

// ---------------------------------------------------------------------------
// The cache
// ---------------------------------------------------------------------------

#[verifier::external_type_specification]
#[verifier::external_body]
#[verifier::reject_recursive_types(K)]
#[verifier::reject_recursive_types(V)]
#[verifier::reject_recursive_types(S)]
pub struct ExCache<K, V, S>(moka::sync::Cache<K, V, S>);

/// The keys that were inserted into a cache and not invalidated since. The cache
/// may have dropped some of them already. Clones of a cache share what it holds,
/// so this can be told of one handle only while no clone of it is in use.
pub uninterp spec fn cached_keys(cache: moka::sync::Cache<String, ()>) -> Set<Seq<char>>;

/// For how many seconds a cache keeps an entry, and how many entries it keeps.
pub uninterp spec fn cache_limits(cache: moka::sync::Cache<String, ()>) -> (u64, u64);

/// A thousand years, in seconds: the longest time to live that `moka` accepts.
pub const MAX_TIME_TO_LIVE: u64 = 31_536_000_000;

/// Calls `Cache::builder` of `moka::sync`, sets a time to live and a capacity,
/// and builds the cache. Claimed of it: it has those limits and holds no key.
/// What the limits do to an entry, and when, is not said.
#[verifier::external_body]
fn new_cache(time_to_live_seconds: u64, max_capacity: u64) -> (r: moka::sync::Cache<String, ()>)
    requires
        time_to_live_seconds <= MAX_TIME_TO_LIVE,
    ensures
        cached_keys(r) == Set::<Seq<char>>::empty(),
        cache_limits(r) == (time_to_live_seconds, max_capacity),
{
    moka::sync::Cache::builder().time_to_live(
        Duration::from_secs(time_to_live_seconds),
    ).max_capacity(max_capacity).build()
}

/// Calls `Cache::insert`. Claimed of it: the key is added, and no other.
#[verifier::external_body]
fn cache_insert(cache: &mut moka::sync::Cache<String, ()>, key: String)
    ensures
        cached_keys(*final(cache)) == cached_keys(*old(cache)).insert(key@),
        cache_limits(*final(cache)) == cache_limits(*old(cache)),
{
    cache.insert(key, ());
}

/// Calls `Cache::get`. Claimed of it: a key that is found was inserted and not
/// invalidated since. Whether such a key is found depends on the time and on how
/// full the cache is, and is not said.
#[verifier::external_body]
fn cache_has(cache: &moka::sync::Cache<String, ()>, key: &str) -> (r: bool)
    ensures
        r ==> cached_keys(*cache).contains(key@),
{
    cache.get(key).is_some()
}

/// Calls `Cache::invalidate`. Claimed of it: the key is taken out, and no other.
#[verifier::external_body]
fn cache_invalidate(cache: &mut moka::sync::Cache<String, ()>, key: &str)
    ensures
        cached_keys(*final(cache)) == cached_keys(*old(cache)).remove(key@),
        cache_limits(*final(cache)) == cache_limits(*old(cache)),
{
    cache.invalidate(key);
}

// ---------------------------------------------------------------------------
// The store
// ---------------------------------------------------------------------------

/// How long a challenge may be redeemed, in seconds.
pub const CHALLENGE_SECONDS: u64 = 300;

/// How many challenges are kept.
pub const CHALLENGE_CAPACITY: u64 = 10000;

/// The challenges that were handed out and not redeemed. No other handle of the
/// cache is ever made.
pub struct ChallengeStore {
    cache: moka::sync::Cache<String, ()>,
}

impl ChallengeStore {
    /// The challenges that were handed out and not redeemed since. Those whose
    /// time has passed, or that had to make room, are among them.
    pub closed spec fn view(&self) -> Set<Seq<char>> {
        cached_keys(self.cache)
    }

    /// For how many seconds a challenge is kept, and how many are.
    pub closed spec fn limits(&self) -> (u64, u64) {
        cache_limits(self.cache)
    }

    /// Whether that may come of looking a challenge up in the cache as it is. One
    /// and the same look-up may come out either way at different times.
    pub closed spec fn look_up_gives(&self, challenge: &str, found: bool) -> bool {
        call_ensures(cache_has, (&self.cache, challenge), found)
    }

    /// A store that holds no challenge.
    pub fn new() -> (r: ChallengeStore)
        ensures
            r@ == Set::<Seq<char>>::empty(),
            r.limits() == (CHALLENGE_SECONDS, CHALLENGE_CAPACITY),
            r.limits() == (300u64, 10000u64),
    {
        ChallengeStore { cache: new_cache(CHALLENGE_SECONDS, CHALLENGE_CAPACITY) }
    }

    /// Makes a challenge of the given bytes and keeps it.
    pub fn issue(&mut self, bytes: &[u8; 32]) -> (r: String)
        ensures
            r@ == hex_text(bytes@),
            final(self)@ == old(self)@.insert(r@),
            final(self).limits() == old(self).limits(),
    {
        let challenge: String = hex_encode(bytes.as_slice());
        cache_insert(&mut self.cache, challenge.clone());
        challenge
    }

    /// Whether a challenge may be redeemed. One that was not handed out, or was
    /// redeemed since, never may. Whether another one may depends on the clock
    /// and on how full the cache is, and is not said.
    pub fn is_live(&self, challenge: &str) -> (r: bool)
        ensures
            r ==> self@.contains(challenge@),
            self.look_up_gives(challenge, r),
    {
        cache_has(&self.cache, challenge)
    }

    /// Strikes a challenge out, so that it cannot be redeemed again.
    pub fn redeem(&mut self, challenge: &str)
        ensures
            final(self)@ == old(self)@.remove(challenge@),
            final(self).limits() == old(self).limits(),
    {
        cache_invalidate(&mut self.cache, challenge);
    }
}

/// Something that happened to the store.
pub enum StoreEvent {
    /// A challenge was handed out.
    Issued(Seq<char>),
    /// A claim came with a challenge, and was admitted or refused.
    Claimed { challenge: Seq<char>, admitted: bool },
}

/// How the challenges in the store change. Only one that was handed out and not
/// redeemed since lets a claim in, and that claim redeems it; a refused claim
/// changes nothing.
pub open spec fn store_step(
    before: Set<Seq<char>>,
    event: StoreEvent,
    after: Set<Seq<char>>,
) -> bool {
    match event {
        StoreEvent::Issued(challenge) => after == before.insert(challenge),
        StoreEvent::Claimed { challenge, admitted } => if admitted {
            before.contains(challenge) && after == before.remove(challenge)
        } else {
            after == before
        },
    }
}

/// What a client is told of a challenge.
pub open spec fn challenge_body(challenge: Seq<char>, difficulty: u32) -> json::JsonView {
    json::object_of(
        seq![
            ("challenge"@, json::JsonView::Text(challenge)),
            ("difficulty"@, json::JsonView::Int(difficulty as int)),
        ],
    )
}

/// Hands out the challenge that the given bytes make.
pub fn issue_challenge(store: &mut ChallengeStore, bytes: &[u8; 32], difficulty: u32) -> (r: Json)
    ensures
        r@ == challenge_body(hex_text(bytes@), difficulty),
        r@ == json::JsonView::Object(
            map![
                "challenge"@ => json::JsonView::Text(hex_text(bytes@)),
                "difficulty"@ => json::JsonView::Int(difficulty as int),
            ],
        ),
        store_step(old(store)@, StoreEvent::Issued(hex_text(bytes@)), final(store)@),
        final(store)@ == old(store)@.insert(hex_text(bytes@)),
        final(store).limits() == old(store).limits(),
{
    let challenge: String = store.issue(bytes);
    let entries: Vec<(String, Json)> = vec![
        ("challenge".to_owned(), Json::text(challenge.as_str())),
        ("difficulty".to_owned(), Json::number(difficulty as i64)),
    ];
    assert(json::entry_views(entries@) =~= seq![
        ("challenge"@, json::JsonView::Text(challenge@)),
        ("difficulty"@, json::JsonView::Int(difficulty as int)),
    ]);
    proof {
        json::lemma_object_of_two(
            ("challenge"@, json::JsonView::Text(challenge@)),
            ("difficulty"@, json::JsonView::Int(difficulty as int)),
        );
    }
    Json::Object(entries)
}

/// Whether the generator may give those bytes.
pub closed spec fn may_be_drawn(bytes: Seq<u8>) -> bool {
    exists|drawn: [u8; 32]| drawn@ == bytes && #[trigger] call_ensures(random_bytes, (), drawn)
}

/// Hands out a challenge made of random bytes.
pub fn get_challenge(store: &mut ChallengeStore, difficulty: u32) -> (r: Json)
    ensures
        exists|bytes: Seq<u8>|
            bytes.len() == 32 && r@ == challenge_body(#[trigger] hex_text(bytes), difficulty)
                && store_step(old(store)@, StoreEvent::Issued(hex_text(bytes)), final(store)@)
                && may_be_drawn(bytes),
        final(store).limits() == old(store).limits(),
{
    let bytes: [u8; 32] = random_bytes();
    assert(bytes@.len() == 32);
    issue_challenge(store, &bytes, difficulty)
}

// ---------------------------------------------------------------------------
// Laws
// ---------------------------------------------------------------------------

/// Whether the store, empty at first, held `states[i]` before the event `i` and
/// `states[i + 1]` after it.
pub open spec fn store_history(states: Seq<Set<Seq<char>>>, events: Seq<StoreEvent>) -> bool {
    &&& states.len() == events.len() + 1
    &&& states[0] == Set::<Seq<char>>::empty()
    &&& forall|i: int|
        0 <= i < events.len() ==> store_step(states[i], #[trigger] events[i], states[i + 1])
}

/// How often a challenge was handed out.
pub open spec fn times_issued(events: Seq<StoreEvent>, challenge: Seq<char>) -> nat
    decreases events.len(),
{
    if events.len() == 0 {
        0
    } else {
        times_issued(events.drop_last(), challenge) + if events.last() == StoreEvent::Issued(
            challenge,
        ) {
            1nat
        } else {
            0nat
        }
    }
}

/// How often a challenge let a claim in.
pub open spec fn times_admitted(events: Seq<StoreEvent>, challenge: Seq<char>) -> nat
    decreases events.len(),
{
    if events.len() == 0 {
        0
    } else {
        times_admitted(events.drop_last(), challenge) + if events.last() == (StoreEvent::Claimed {
            challenge,
            admitted: true,
        }) {
            1nat
        } else {
            0nat
        }
    }
}

/// What comes of looking a challenge up is what the cache gave for that
/// challenge, and a challenge that is found was handed out and not redeemed
/// since.
proof fn law_look_ups_ask_the_cache(store: &ChallengeStore, challenge: &str, found: bool)
    requires
        store.look_up_gives(challenge, found),
    ensures
        call_ensures(cache_has, (&store.cache, challenge), found),
        found ==> store@.contains(challenge@),
{
}

/// Bytes that may be drawn are some that the generator gave.
proof fn law_drawn_bytes_come_from_the_generator(bytes: Seq<u8>)
    requires
        may_be_drawn(bytes),
    ensures
        exists|drawn: [u8; 32]| drawn@ == bytes && #[trigger] call_ensures(random_bytes, (), drawn),
{
}

/// Over the whole life of a store, a challenge lets no more claims in than it
/// was handed out, and one that was never handed out lets none in.
pub proof fn law_challenges_are_redeemed_once(
    states: Seq<Set<Seq<char>>>,
    events: Seq<StoreEvent>,
    challenge: Seq<char>,
)
    requires
        store_history(states, events),
    ensures
        times_admitted(events, challenge) <= times_issued(events, challenge),
{
    lemma_redeemed_once(states, events, challenge);
}

/// What is admitted, and what may still be, was handed out.
proof fn lemma_redeemed_once(
    states: Seq<Set<Seq<char>>>,
    events: Seq<StoreEvent>,
    challenge: Seq<char>,
)
    requires
        store_history(states, events),
    ensures
        times_admitted(events, challenge) + (if states.last().contains(challenge) {
            1int
        } else {
            0int
        }) <= times_issued(events, challenge),
    decreases events.len(),
{
    if events.len() > 0 {
        let n = events.len() - 1;
        let earlier_states = states.drop_last();
        let earlier = events.drop_last();
        assert forall|i: int| 0 <= i < earlier.len() implies store_step(
            earlier_states[i],
            #[trigger] earlier[i],
            earlier_states[i + 1],
        ) by {
            assert(store_step(states[i], events[i], states[i + 1]));
        }
        lemma_redeemed_once(earlier_states, earlier, challenge);
        assert(store_step(states[n], events[n], states[n + 1]));
        assert(earlier_states.last() == states[n]);
    }
}

/// A challenge that let a claim in lets no other in, until it is handed out
/// again: of two claims with one challenge, the later is refused where the
/// earlier was let in and the challenge was not handed out between them.
pub proof fn law_redeemed_challenge_is_refused(
    states: Seq<Set<Seq<char>>>,
    events: Seq<StoreEvent>,
    challenge: Seq<char>,
    i: int,
    j: int,
    admitted: bool,
)
    requires
        store_history(states, events),
        0 <= i < j < events.len(),
        events[i] == (StoreEvent::Claimed { challenge, admitted: true }),
        events[j] == (StoreEvent::Claimed { challenge, admitted }),
        forall|k: int| i < k < j ==> #[trigger] events[k] != StoreEvent::Issued(challenge),
    ensures
        !admitted,
{
    lemma_redeemed_stays_out(states, events, challenge, i, j);
    assert(store_step(states[j], events[j], states[j + 1]));
}

/// A challenge that was redeemed is not in the store before it is handed out
/// again.
proof fn lemma_redeemed_stays_out(
    states: Seq<Set<Seq<char>>>,
    events: Seq<StoreEvent>,
    challenge: Seq<char>,
    i: int,
    j: int,
)
    requires
        store_history(states, events),
        0 <= i < j <= events.len(),
        events[i] == (StoreEvent::Claimed { challenge, admitted: true }),
        forall|k: int| i < k < j ==> #[trigger] events[k] != StoreEvent::Issued(challenge),
    ensures
        !states[j].contains(challenge),
    decreases j,
{
    assert(store_step(states[j - 1], events[j - 1], states[j]));
    if i < j - 1 {
        lemma_redeemed_stays_out(states, events, challenge, i, j - 1);
    }
}

/// Different bytes make different challenges.
pub proof fn law_challenges_are_distinct(a: Seq<u8>, b: Seq<u8>)
    ensures
        hex_text(a) == hex_text(b) ==> a == b,
{
    if hex_text(a) == hex_text(b) {
        assert(hex_text(a).len() == 2 * a.len());
        assert(hex_text(b).len() == 2 * b.len());
        assert forall|i: int| 0 <= i < a.len() implies a[i] == b[i] by {
            assert(hex_text(a)[2 * i] == hex_digit(a[i] as int / 16));
            assert(hex_text(a)[2 * i + 1] == hex_digit(a[i] as int % 16));
            assert(hex_text(b)[2 * i] == hex_digit(b[i] as int / 16));
            assert(hex_text(b)[2 * i + 1] == hex_digit(b[i] as int % 16));
        }
        assert(a =~= b);
    }
}

/// Read as a hexadecimal number, a challenge is the number that its bytes write,
/// most significant first.
pub proof fn law_challenge_writes_its_bytes(bytes: Seq<u8>)
    ensures
        text::digits_value(hex_text(bytes), 16) == pow::be_value(bytes),
    decreases bytes.len(),
{
    if bytes.len() > 0 {
        let before = bytes.drop_last();
        let last = bytes.last();
        law_challenge_writes_its_bytes(before);
        pow::lemma_be_value_push(before, last);
        assert(before.push(last) =~= bytes);
        let high = hex_digit(last as int / 16);
        let low = hex_digit(last as int % 16);
        let text = hex_text(bytes);
        assert(text =~= hex_text(before).push(high).push(low));
        assert(text.drop_last() =~= hex_text(before).push(high));
        assert(hex_text(before).push(high).drop_last() =~= hex_text(before));
        assert(text::digits_value(text.drop_last(), 16) == text::digits_value(
            hex_text(before),
            16,
        ) * 16 + last as int / 16);
    } else {
        assert(hex_text(bytes) =~= Seq::empty());
    }
}

/// A challenge is two hexadecimal digits in small letters for each byte it is
/// made of.
pub proof fn law_challenge_is_hexadecimal(bytes: Seq<u8>)
    ensures
        hex_text(bytes).len() == 2 * bytes.len(),
        forall|i: int|
            0 <= i < hex_text(bytes).len() ==> {
                let c = #[trigger] hex_text(bytes)[i];
                ('0' <= c && c <= '9') || ('a' <= c && c <= 'f')
            },
{
}

} // verus!
