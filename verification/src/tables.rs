//! The tables that the bridge keeps beside its dialogs: which call a timeslot carries, and how
//! often each source has invited lately.
use std::collections::HashMap;
use vstd::prelude::*;
use crate::net::IpAddr;

verus! {

broadcast use vstd::std_specs::hash::group_hash_axioms;

/// One second, in nanoseconds.
pub const SECOND: u64 = 1_000_000_000;

/// The time that has passed at `now` since `then`, in nanoseconds; zero if `then` is later.
pub open spec fn elapsed(now: u64, then: u64) -> int {
    if now >= then {
        now - then
    } else {
        0
    }
}

/// The time that has passed at `now` since `then`, in nanoseconds.
pub fn time_since(now: u64, then: u64) -> (r: u64)
    ensures
        r == elapsed(now, then),
{
    if now >= then {
        now - then
    } else {
        0
    }
}

/// Which call the timeslots carry, by carrier and timeslot.
pub struct SlotTable {
    map: HashMap<u32, u128>,
}

/// The number that a carrier and a timeslot are filed under.
spec fn slot_key(slot: (u16, u8)) -> u32 {
    (slot.0 * 256 + slot.1) as u32
}

impl View for SlotTable {
    type V = Map<(u16, u8), u128>;

    closed spec fn view(&self) -> Map<(u16, u8), u128> {
        Map::new(
            |slot: (u16, u8)| self.map@.contains_key(slot_key(slot)),
            |slot: (u16, u8)| self.map@[slot_key(slot)],
        )
    }
}

impl SlotTable {
    /// No timeslot carries a call.
    pub fn new() -> (r: SlotTable)
        ensures
            r@ == Map::<(u16, u8), u128>::empty(),
    {
        let r = SlotTable { map: HashMap::new() };
        assert(r@ =~= Map::<(u16, u8), u128>::empty());
        r
    }

    /// The number that a carrier and a timeslot are filed under.
    fn key(carrier_num: u16, ts: u8) -> (k: u32)
        ensures
            k == slot_key((carrier_num, ts)),
    {
        carrier_num as u32 * 256 + ts as u32
    }

    /// The call that a timeslot carries.
    pub fn get(&self, carrier_num: u16, ts: u8) -> (r: Option<u128>)
        ensures
            match r {
                Some(uuid) => self@.contains_key((carrier_num, ts)) && self@[(carrier_num, ts)]
                    == uuid,
                None => !self@.contains_key((carrier_num, ts)),
            },
    {
        match self.map.get(&Self::key(carrier_num, ts)) {
            Some(uuid) => Some(*uuid),
            None => None,
        }
    }

    /// Gives a timeslot to a call.
    pub fn insert(&mut self, carrier_num: u16, ts: u8, uuid: u128)
        ensures
            final(self)@ == old(self)@.insert((carrier_num, ts), uuid),
    {
        let _ = self.map.insert(Self::key(carrier_num, ts), uuid);
        assert(self@ =~= old(self)@.insert((carrier_num, ts), uuid));
    }

    /// Frees a timeslot.
    pub fn remove(&mut self, carrier_num: u16, ts: u8)
        ensures
            final(self)@ == old(self)@.remove((carrier_num, ts)),
    {
        let _ = self.map.remove(&Self::key(carrier_num, ts));
        assert(self@ =~= old(self)@.remove((carrier_num, ts)));
    }
}

/// The INVITEs of each source: when its window began, and how many have come since.
pub struct RateTable {
    v4: HashMap<u32, (u64, u32)>,
    v6: HashMap<u128, (u64, u32)>,
}

/// The table after an INVITE from `ip`: a window lasts a minute.
pub open spec fn rate_after(table: Map<IpAddr, (u64, u32)>, ip: IpAddr, now: u64) -> Map<
    IpAddr,
    (u64, u32),
> {
    let (since, count) = if table.contains_key(ip) && elapsed(now, table[ip].0) < 60 * SECOND {
        table[ip]
    } else {
        (now, 0u32)
    };
    table.insert(
        ip,
        (
            since,
            if count < u32::MAX {
                (count + 1) as u32
            } else {
                count
            },
        ),
    )
}

/// The table without the windows that began two minutes ago or earlier.
pub open spec fn rate_pruned(table: Map<IpAddr, (u64, u32)>, now: u64) -> Map<IpAddr, (u64, u32)> {
    Map::new(
        |ip: IpAddr| table.contains_key(ip) && elapsed(now, table[ip].0) < 120 * SECOND,
        |ip: IpAddr| table[ip],
    )
}

impl View for RateTable {
    type V = Map<IpAddr, (u64, u32)>;

    closed spec fn view(&self) -> Map<IpAddr, (u64, u32)> {
        Map::new(
            |ip: IpAddr|
                match ip {
                    IpAddr::V4(a) => self.v4@.contains_key(a),
                    IpAddr::V6(a) => self.v6@.contains_key(a),
                },
            |ip: IpAddr|
                match ip {
                    IpAddr::V4(a) => self.v4@[a],
                    IpAddr::V6(a) => self.v6@[a],
                },
        )
    }
}

/// The window of a source after one more INVITE.
spec fn counted(window: Option<(u64, u32)>, now: u64) -> (u64, u32) {
    let (since, count) = match window {
        Some((since, count)) if elapsed(now, since) < 60 * SECOND => (since, count),
        _ => (now, 0u32),
    };
    (
        since,
        if count < u32::MAX {
            (count + 1) as u32
        } else {
            count
        },
    )
}

/// Counts one more INVITE in a window.
fn count_in(window: Option<&(u64, u32)>, now: u64) -> (r: (u64, u32))
    ensures
        r == counted(
            match window {
                Some(w) => Some(*w),
                None => None,
            },
            now,
        ),
{
    let mut since: u64 = now;
    let mut count: u32 = 0;
    if let Some(w) = window {
        if time_since(now, w.0) < 60 * SECOND {
            since = w.0;
            count = w.1;
        }
    }
    if count < u32::MAX {
        count = count + 1;
    }
    (since, count)
}

/// The windows that began less than two minutes ago.
spec fn fresh<K>(map: Map<K, (u64, u32)>, now: u64) -> Map<K, (u64, u32)> {
    Map::new(
        |k: K| map.contains_key(k) && elapsed(now, map[k].0) < 120 * SECOND,
        |k: K| map[k],
    )
}

/// Forgets the windows that began two minutes ago or earlier.
fn keep_fresh<K: Copy + Eq + std::hash::Hash>(map: &mut HashMap<K, (u64, u32)>, now: u64)
    requires
        vstd::std_specs::hash::obeys_key_model::<K>(),
    ensures
        final(map)@ == fresh(old(map)@, now),
{
    let ghost before = map@;
    let mut keys: Vec<K> = Vec::new();
    let all = map.keys();
    let ghost listed = vstd::std_specs::iter::IteratorSpec::remaining(&all).unref();
    for k in it: all
        invariant
            it.seq().unref() == listed,
            keys@ == listed.take(it.index()),
    {
        keys.push(*k);
        assert(keys@ =~= listed.take(it.index() + 1));
    }
    proof {
        assert(listed.take(listed.len() as int) == listed);
        assert(keys@.to_set() == before.dom());
    }
    let mut i: usize = 0;
    while i < keys.len()
        invariant
            i <= keys@.len(),
            vstd::std_specs::hash::obeys_key_model::<K>(),
            keys@.to_set() == before.dom(),
            forall|k: K| #[trigger]
                map@.contains_key(k) <==> before.contains_key(k) && !(exists|j: int|
                    0 <= j < i && #[trigger] keys@[j] == k && elapsed(now, before[k].0) >= 120
                        * SECOND),
            forall|k: K| #[trigger] map@.contains_key(k) ==> map@[k] == before[k],
        decreases keys@.len() - i,
    {
        let k: K = keys[i];
        let ghost mid = map@;
        assert(keys@.to_set().contains(k));
        let stale: bool = match map.get(&k) {
            Some(w) => time_since(now, w.0) >= 120 * SECOND,
            None => false,
        };
        if stale {
            let _ = map.remove(&k);
        }
        i = i + 1;
        proof {
            assert(keys@[i - 1] == k);
            assert forall|u: K| #[trigger]
                map@.contains_key(u) <==> before.contains_key(u) && !(exists|j: int|
                    0 <= j < i && #[trigger] keys@[j] == u && elapsed(now, before[u].0) >= 120
                        * SECOND) by {
                assert(mid.contains_key(u) ==> u == k || map@.contains_key(u));
                if u == k {
                    assert(keys@[i - 1] == u);
                }
            }
        }
    }
    proof {
        assert forall|k: K| map@.contains_key(k) == fresh(before, now).contains_key(k) by {
            if before.contains_key(k) {
                assert(keys@.to_set().contains(k));
                let j = choose|j: int| 0 <= j < keys@.len() && keys@[j] == k;
                assert(keys@[j] == k);
            }
        }
        assert(map@ =~= fresh(before, now));
    }
}

impl RateTable {
    /// No INVITEs so far.
    pub fn new() -> (r: RateTable)
        ensures
            r@ == Map::<IpAddr, (u64, u32)>::empty(),
    {
        let r = RateTable { v4: HashMap::new(), v6: HashMap::new() };
        assert(r@ =~= Map::<IpAddr, (u64, u32)>::empty());
        r
    }

    /// Counts an INVITE, and returns how many its source has sent in its window.
    pub fn count(&mut self, ip: IpAddr, now: u64) -> (n: u32)
        ensures
            final(self)@ == rate_after(old(self)@, ip, now),
            n == final(self)@[ip].1,
    {
        let ghost before = self@;
        let window: (u64, u32) = match ip {
            IpAddr::V4(a) => {
                let window: (u64, u32) = count_in(self.v4.get(&a), now);
                let _ = self.v4.insert(a, window);
                window
            },
            IpAddr::V6(a) => {
                let window: (u64, u32) = count_in(self.v6.get(&a), now);
                let _ = self.v6.insert(a, window);
                window
            },
        };
        assert(self@ =~= before.insert(ip, window));
        window.1
    }

    /// Forgets the windows that began two minutes ago or earlier.
    pub fn prune(&mut self, now: u64)
        ensures
            final(self)@ == rate_pruned(old(self)@, now),
    {
        let ghost before = self@;
        keep_fresh(&mut self.v4, now);
        keep_fresh(&mut self.v6, now);
        assert(self@ =~= rate_pruned(before, now));
    }
}

} // verus!
