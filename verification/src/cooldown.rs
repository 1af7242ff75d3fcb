//! The cooldown tracker: when each user was last notified in each channel.

use std::collections::HashMap;
use vstd::prelude::*;

verus! {

broadcast use vstd::std_specs::hash::group_hash_axioms;

/// The tracker as the contracts see it: `(user, channel)` to the time of the
/// last notification.
pub type Cooldowns = Map<(u64, u64), u64>;

/// Whether `user` may be notified in `channel` at the time `now`: never
/// notified there before, or more than `window` ago.
pub open spec fn eligible(last: Cooldowns, user: u64, channel: u64, now: u64, window: u64) -> bool {
    !last.contains_key((user, channel)) || last[(user, channel)] + window < now
}

/// The key under which the pair `(user, channel)` is stored: the user in
/// the upper half of the number, the channel in the lower.
spec fn slot(user: u64, channel: u64) -> u128 {
    (user * 0x1_0000_0000_0000_0000 + channel) as u128
}

/// Distinct pairs have distinct keys.
proof fn lemma_slot_injective(u1: u64, c1: u64, u2: u64, c2: u64)
    ensures
        slot(u1, c1) == slot(u2, c2) <==> (u1 == u2 && c1 == c2),
{
}

/// Computes the key of the pair `(user, channel)`.
fn slot_of(user: u64, channel: u64) -> (k: u128)
    ensures
        k == slot(user, channel),
{
    let high: u128 = user as u128;
    let low: u128 = channel as u128;
    high * 0x1_0000_0000_0000_0000u128 + low
}

/// For each `(user, channel)` the time of the last notification. Entries are
/// never deleted: an old one simply no longer holds anyone back. The two
/// numbers of a pair are stored as one, so that the map is keyed by an
/// integer.
pub struct CooldownTracker {
    last: HashMap<u128, u64>,
}

impl View for CooldownTracker {
    type V = Cooldowns;

    closed spec fn view(&self) -> Cooldowns {
        Map::new(
            |k: (u64, u64)| self.last@.contains_key(slot(k.0, k.1)),
            |k: (u64, u64)| self.last@[slot(k.0, k.1)],
        )
    }
}

impl CooldownTracker {
    /// A tracker that has seen no notification yet.
    pub fn new() -> (r: CooldownTracker)
        ensures
            r@ == Cooldowns::empty(),
    {
        let r = CooldownTracker { last: HashMap::new() };
        r
    }

    /// When `user` was last notified in `channel`, if ever.
    pub fn last_notified(&self, user: u64, channel: u64) -> (r: Option<u64>)
        ensures
            r == if self@.contains_key((user, channel)) {
                Some(self@[(user, channel)])
            } else {
                None
            },
    {
        let key = slot_of(user, channel);
        match self.last.get(&key) {
            Some(at) => Some(*at),
            None => None,
        }
    }

    /// Whether `user` may be notified in `channel` at the time `now`.
    pub fn is_eligible(&self, user: u64, channel: u64, now: u64, window: u64) -> (r: bool)
        ensures
            r == eligible(self@, user, channel, now, window),
    {
        match self.last_notified(user, channel) {
            Some(at) => now > at && now - at > window,
            None => true,
        }
    }

    /// Records that `user` was notified in `channel` at the time `now`.
    pub fn refresh(&mut self, user: u64, channel: u64, now: u64)
        ensures
            final(self)@ == old(self)@.insert((user, channel), now),
    {
        let key = slot_of(user, channel);
        self.last.insert(key, now);
        assert(self@ =~= old(self)@.insert((user, channel), now)) by {
            assert forall|k: (u64, u64)|
                (slot(k.0, k.1) == key) == (k == (user, channel)) by {
                lemma_slot_injective(k.0, k.1, user, channel);
            }
        }
    }
}

} // verus!
