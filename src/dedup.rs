//! Duplicate-read suppression for payment-class ports, keyed by
//! (logical port, card id) with a timed first-seen / repeated state.
use vstd::prelude::*;

verus! {

/// How long (in milliseconds) a recorded read keeps suppressing re-reads.
pub const REPEAT_WINDOW_MS: u64 = 3000;

/// State recorded for one (port, card) key, with the time it was recorded.
#[derive(Clone, Copy, Debug, PartialEq, Eq, Structural)]
pub enum CardState {
    /// The card was accepted and notified at this time.
    FirstSeen(u64),
    /// The card was seen again within the window; refreshed at this time.
    Repeated(u64),
}

impl CardState {
    /// The time at which the state was recorded or last refreshed.
    pub open spec fn since(self) -> u64 {
        match self {
            CardState::FirstSeen(t) => t,
            CardState::Repeated(t) => t,
        }
    }
}

/// What to do with an observed card read.
#[derive(Clone, Copy, Debug, PartialEq, Eq, Structural)]
pub enum Action {
    /// Send a notification for this read.
    Notify,
    /// Send nothing, but play the "still present" cue.
    SuppressWithSecondarySound,
    /// Send nothing and stay silent.
    SuppressSilently,
}

/// Ports 1 to 4 are the payment class, which is deduplicated.
pub open spec fn is_payment_port(port: Option<u32>) -> bool {
    match port {
        Some(p) => 1 <= p && p <= 4,
        None => false,
    }
}

/// A state recorded at `at` still counts as recent at `now` (a clock that
/// went backwards counts as no time elapsed).
pub open spec fn within_window(at: u64, now: u64) -> bool {
    now < at || now - at < REPEAT_WINDOW_MS
}

/// The recorded state of a key, if any.
pub open spec fn prior(m: Map<(u32, Seq<char>), CardState>, k: (u32, Seq<char>)) -> Option<
    CardState,
> {
    if m.dom().contains(k) {
        Some(m[k])
    } else {
        None
    }
}

/// Whether a read at `now` repeats a recent one.
pub open spec fn is_repeat(prev: Option<CardState>, now: u64) -> bool {
    match prev {
        Some(st) => within_window(st.since(), now),
        None => false,
    }
}

/// The state stored for a key after a read at `now`.
pub open spec fn next_state(prev: Option<CardState>, now: u64) -> CardState {
    if is_repeat(prev, now) {
        CardState::Repeated(now)
    } else {
        CardState::FirstSeen(now)
    }
}

/// The decision for a read at `now`.
pub open spec fn decision(prev: Option<CardState>, now: u64) -> Action {
    if is_repeat(prev, now) {
        Action::SuppressWithSecondarySound
    } else {
        Action::Notify
    }
}

/// The store and decision after observing `card` on `port` at `now`.
pub open spec fn observed(
    m: Map<(u32, Seq<char>), CardState>,
    port: Option<u32>,
    card: Seq<char>,
    now: u64,
) -> (Map<(u32, Seq<char>), CardState>, Action) {
    match port {
        Some(p) => if 1 <= p && p <= 4 {
            let k = (p, card);
            (m.insert(k, next_state(prior(m, k), now)), decision(prior(m, k), now))
        } else {
            (m, Action::Notify)
        },
        None => (m, Action::Notify),
    }
}

/// Two reads of one payment-port key at the same instant, applied one after
/// the other (the store's exclusive access serialises them), notify at most
/// once: the second is always suppressed, and the first notifies exactly when
/// the key held no recent read.
pub proof fn same_instant_reads_notify_once(
    m: Map<(u32, Seq<char>), CardState>,
    p: u32,
    card: Seq<char>,
    now: u64,
)
    requires
        1 <= p <= 4,
    ensures
        ({
            let (m1, a1) = observed(m, Some(p), card, now);
            let (m2, a2) = observed(m1, Some(p), card, now);
            &&& a2 == Action::SuppressWithSecondarySound
            &&& (a1 == Action::Notify) == !is_repeat(prior(m, (p, card)), now)
        }),
{
    let (m1, a1) = observed(m, Some(p), card, now);
    assert(prior(m1, (p, card)) == Some(next_state(prior(m, (p, card)), now)));
}

/// Observing one key leaves the recorded state of every other key unchanged,
/// so different cards on one port, or one card on different ports, never
/// influence each other.
pub proof fn observing_leaves_other_keys(
    m: Map<(u32, Seq<char>), CardState>,
    port: Option<u32>,
    card: Seq<char>,
    now: u64,
    q: (u32, Seq<char>),
)
    requires
        port != Some(q.0) || card != q.1,
    ensures
        prior(observed(m, port, card, now).0, q) == prior(m, q),
{
}

/// One recorded key and its state.
pub struct DedupEntry {
    pub port: u32,
    pub card: String,
    pub state: CardState,
}

pub open spec fn entry_key(e: DedupEntry) -> (u32, Seq<char>) {
    (e.port, e.card@)
}

/// The state of `k` in a list of entries; a later entry shadows an earlier one.
pub open spec fn state_in(s: Seq<DedupEntry>, k: (u32, Seq<char>)) -> Option<CardState>
    decreases s.len(),
{
    if s.len() == 0 {
        None
    } else if entry_key(s.last()) == k {
        Some(s.last().state)
    } else {
        state_in(s.drop_last(), k)
    }
}

proof fn lemma_state_in_absent(s: Seq<DedupEntry>, k: (u32, Seq<char>))
    requires
        forall|j: int| 0 <= j < s.len() ==> entry_key(#[trigger] s[j]) != k,
    ensures
        state_in(s, k) is None,
    decreases s.len(),
{
    if s.len() > 0 {
        assert(entry_key(s[s.len() - 1]) != k);
        lemma_state_in_absent(s.drop_last(), k);
    }
}

proof fn lemma_state_in_found(s: Seq<DedupEntry>, i: int, k: (u32, Seq<char>))
    requires
        0 <= i < s.len(),
        entry_key(s[i]) == k,
        forall|j: int| i < j < s.len() ==> entry_key(#[trigger] s[j]) != k,
    ensures
        state_in(s, k) == Some(s[i].state),
    decreases s.len(),
{
    if i < s.len() - 1 {
        assert(entry_key(s[s.len() - 1]) != k);
        lemma_state_in_found(s.drop_last(), i, k);
    }
}

proof fn lemma_state_in_update(s: Seq<DedupEntry>, i: int, e: DedupEntry, q: (u32, Seq<char>))
    requires
        0 <= i < s.len(),
        entry_key(e) == entry_key(s[i]),
        forall|j: int| i < j < s.len() ==> entry_key(#[trigger] s[j]) != entry_key(e),
    ensures
        state_in(s.update(i, e), q) == if q == entry_key(e) {
            Some(e.state)
        } else {
            state_in(s, q)
        },
    decreases s.len(),
{
    let t = s.update(i, e);
    if i == s.len() - 1 {
        assert(t.drop_last() == s.drop_last());
    } else {
        assert(t.drop_last() == s.drop_last().update(i, e));
        lemma_state_in_update(s.drop_last(), i, e, q);
        if q == entry_key(e) {
            lemma_state_in_found(t, i, q);
        }
    }
}

/// The shared store of recorded reads.
pub struct DedupStore {
    entries: Vec<DedupEntry>,
}

impl View for DedupStore {
    type V = Map<(u32, Seq<char>), CardState>;

    closed spec fn view(&self) -> Map<(u32, Seq<char>), CardState> {
        Map::new(
            |k: (u32, Seq<char>)| state_in(self.entries@, k) is Some,
            |k: (u32, Seq<char>)|
                match state_in(self.entries@, k) {
                    Some(st) => st,
                    None => CardState::FirstSeen(0),
                },
        )
    }
}

impl DedupStore {
    /// An empty store: every key is fresh.
    pub fn new() -> (r: DedupStore)
        ensures
            r@ == Map::<(u32, Seq<char>), CardState>::empty(),
    {
        let r = DedupStore { entries: Vec::new() };
        assert(r@ =~= Map::<(u32, Seq<char>), CardState>::empty());
        r
    }

    /// The last entry recorded for `(port, card)`, if any.
    fn find(&self, port: u32, card: &String) -> (r: Option<usize>)
        ensures
            match r {
                Some(i) => {
                    &&& i < self.entries@.len()
                    &&& entry_key(self.entries@[i as int]) == (port, card@)
                    &&& forall|j: int|
                        i < j < self.entries@.len() ==> entry_key(#[trigger] self.entries@[j]) != (
                        port,
                        card@,
                    )
                },
                None => forall|j: int|
                    0 <= j < self.entries@.len() ==> entry_key(#[trigger] self.entries@[j]) != (
                    port,
                    card@,
                ),
            },
    {
        let mut i = self.entries.len();
        while i > 0
            invariant
                i <= self.entries@.len(),
                forall|j: int|
                    i <= j < self.entries@.len() ==> entry_key(#[trigger] self.entries@[j]) != (
                    port,
                    card@,
                ),
            decreases i,
        {
            i -= 1;
            if self.entries[i].port == port && self.entries[i].card == *card {
                return Some(i);
            }
        }
        None
    }

    /// The recorded state of `(port, card)`, if any.
    pub fn lookup(&self, port: u32, card: &String) -> (r: Option<CardState>)
        ensures
            r == prior(self@, (port, card@)),
    {
        match self.find(port, card) {
            Some(i) => {
                proof {
                    lemma_state_in_found(self.entries@, i as int, (port, card@));
                }
                Some(self.entries[i].state)
            },
            None => {
                proof {
                    lemma_state_in_absent(self.entries@, (port, card@));
                }
                None
            },
        }
    }

    /// Record a read of `card` on `port` at time `now` (milliseconds) and
    /// decide what to do with it. Payment-class ports notify a fresh read and
    /// suppress a repeat within the window, refreshing it; all other ports
    /// always notify and record nothing.
    pub fn observe(&mut self, port: Option<u32>, card: &String, now: u64) -> (r: Action)
        ensures
            (final(self)@, r) == observed(old(self)@, port, card@, now),
            !is_payment_port(port) ==> r == Action::Notify && final(self)@ == old(self)@,
    {
        let p = match port {
            Some(p) => p,
            None => {
                return Action::Notify;
            },
        };
        if p < 1 || p > 4 {
            return Action::Notify;
        }
        let ghost k = (p, card@);
        let ghost m0 = self@;
        let prev = self.lookup(p, card);
        let repeat = match prev {
            Some(CardState::FirstSeen(at)) => now < at || now - at < REPEAT_WINDOW_MS,
            Some(CardState::Repeated(at)) => now < at || now - at < REPEAT_WINDOW_MS,
            None => false,
        };
        let st = if repeat {
            CardState::Repeated(now)
        } else {
            CardState::FirstSeen(now)
        };
        let e = DedupEntry { port: p, card: card.clone(), state: st };
        match self.find(p, card) {
            Some(i) => {
                let ghost s0 = self.entries@;
                self.entries.set(i, e);
                proof {
                    assert forall|q: (u32, Seq<char>)|
                        #[trigger] state_in(self.entries@, q) == (if q == k {
                            Some(st)
                        } else {
                            state_in(s0, q)
                        }) by {
                        lemma_state_in_update(s0, i as int, e, q);
                    }
                    assert(self@ =~= m0.insert(k, st));
                }
            },
            None => {
                let ghost s0 = self.entries@;
                self.entries.push(e);
                proof {
                    assert(self.entries@.drop_last() == s0);
                    assert(self@ =~= m0.insert(k, st));
                }
            },
        }
        if repeat {
            Action::SuppressWithSecondarySound
        } else {
            Action::Notify
        }
    }
}

} // verus!
