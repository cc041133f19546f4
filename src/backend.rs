//! The per-backend polling decisions: a short cooldown after each accepted
//! read, during which the hardware is not polled at all.
use vstd::prelude::*;

verus! {

/// How long (in milliseconds) a backend stops polling after an accepted read.
pub const READ_COOLDOWN_MS: u64 = 2000;

/// Delay (in milliseconds) between iterations of the direct-driver backend.
pub const DRIVER_POLL_INTERVAL_MS: u64 = 150;

/// Delay (in milliseconds) between iterations of the PC/SC backend.
pub const PCSC_POLL_INTERVAL_MS: u64 = 300;

/// A read at `at` still blocks polling at `now` (a clock that went backwards
/// counts as no time elapsed).
pub open spec fn cooling(at: u64, now: u64) -> bool {
    now < at || now - at < READ_COOLDOWN_MS
}

/// Cooldown state of one backend: idle, or cooling after accepting a card.
pub struct ReaderCooldown {
    /// The last accepted card id; empty when idle.
    last_card: String,
    /// When the last card was accepted; `None` when idle.
    last_read_ms: Option<u64>,
}

impl ReaderCooldown {
    /// The last accepted card id, empty when idle.
    pub closed spec fn last_card(&self) -> Seq<char> {
        self.last_card@
    }

    /// When the last card was accepted, `None` when idle.
    pub closed spec fn last_read(&self) -> Option<u64> {
        self.last_read_ms
    }

    /// Idle forgets the card.
    pub closed spec fn wf(&self) -> bool {
        self.last_read_ms is None ==> self.last_card@.len() == 0
    }

    /// A backend that has read nothing yet.
    pub fn new() -> (r: ReaderCooldown)
        ensures
            r.wf(),
            r.last_read() is None,
            r.last_card().len() == 0,
    {
        ReaderCooldown { last_card: String::new(), last_read_ms: None }
    }

    /// Whether to poll the hardware at `now`. Polling is skipped while the
    /// cooldown runs; once it has run out the backend returns to idle and
    /// forgets the card, so the same card may be read again.
    pub fn poll_allowed(&mut self, now: u64) -> (r: bool)
        requires
            old(self).wf(),
        ensures
            final(self).wf(),
            match old(self).last_read() {
                Some(at) => if cooling(at, now) {
                    &&& !r
                    &&& final(self).last_read() == old(self).last_read()
                    &&& final(self).last_card() == old(self).last_card()
                } else {
                    &&& r
                    &&& final(self).last_read() is None
                    &&& final(self).last_card().len() == 0
                },
                None => {
                    &&& r
                    &&& final(self).last_read() is None
                    &&& final(self).last_card().len() == 0
                },
            },
    {
        match self.last_read_ms {
            Some(at) => {
                if now < at || now - at < READ_COOLDOWN_MS {
                    false
                } else {
                    self.last_card = String::new();
                    self.last_read_ms = None;
                    true
                }
            },
            None => true,
        }
    }

    /// Offer a card read at `now`. A read of a card other than the last
    /// accepted one is accepted: it is to be dispatched, and the cooldown
    /// starts. A repeat of the last card is ignored.
    pub fn accept(&mut self, card: &String, now: u64) -> (r: bool)
        requires
            old(self).wf(),
            card@.len() > 0,
        ensures
            final(self).wf(),
            r == (card@ != old(self).last_card()),
            r ==> final(self).last_card() == card@ && final(self).last_read() == Some(now),
            !r ==> final(self).last_card() == old(self).last_card() && final(self).last_read()
                == old(self).last_read(),
    {
        if *card != self.last_card {
            self.last_card = card.clone();
            self.last_read_ms = Some(now);
            true
        } else {
            false
        }
    }
}

} // verus!
