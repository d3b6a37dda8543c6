//! The key-value ledger, the host-input capability record, and the typed
//! accessors every higher-level operation routes through.
//!
//! Slots are keyed by a structured address (category tag plus up to two
//! ids); the hashed raw-key derivation in [`crate::addressing`] is the
//! documented alternative encoding of the same tuples.  The host's clock
//! and entropy word are plain fields injected by the embedder, so every
//! operation is a deterministic function of the stored map and those two
//! inputs.
//!
//! Reads follow the absent-vs-zero discipline: the raw representation of
//! the requested slot is compared against the raw representation of a
//! probe slot that is never written; a match means "absent" and reads as
//! `0`, anything else decodes as the stored signed 64-bit value, so a
//! stored `0` and a never-written slot are indistinguishable to callers
//! while a stored `-1` is never corrupted.

use crate::constants::{K_NEXT_ID, K_PAUSED, K_TIME_OVERRIDE, NULL_PROBE_KEY, P_CREATOR, P_TOKEN_OWNER};
use crate::packet::{fold_entropy, fold_entropy_spec, sat_add, sat_i64};
use vstd::prelude::*;

verus! {

/// A structured storage address: a category tag plus up to two ids.
#[derive(Clone, Copy, PartialEq, Eq, Structural)]
pub struct Addr {
    pub tag: i64,
    pub a: i64,
    pub b: i64,
}

/// The probe address: reserved, never written by any operation.
pub open spec fn probe_key() -> Addr {
    Addr { tag: NULL_PROBE_KEY, a: 0, b: 0 }
}

/// Address of a singleton (contract-wide) slot.
pub open spec fn meta_key(tag: u8) -> Addr {
    Addr { tag: tag as i64, a: 0, b: 0 }
}

/// Address of a per-entity field.
pub open spec fn field_key(tag: u8, id: i64) -> Addr {
    Addr { tag: tag as i64, a: id, b: 0 }
}

/// Address of a per-(entity, account) record.
pub open spec fn receipt_key(tag: u8, id: i64, account: i64) -> Addr {
    Addr { tag: tag as i64, a: id, b: account }
}

/// Value of a slot as callers see it: `0` when absent.
pub open spec fn slot_val(m: Map<Addr, i64>, key: Addr) -> i64 {
    if m.contains_key(key) {
        m[key]
    } else {
        0
    }
}

/// Value of a singleton slot.
pub open spec fn meta_val(m: Map<Addr, i64>, tag: u8) -> i64 {
    slot_val(m, meta_key(tag))
}

/// Value of a per-entity field.
pub open spec fn fld(m: Map<Addr, i64>, tag: u8, id: i64) -> i64 {
    slot_val(m, field_key(tag, id))
}

/// Value of a per-(entity, account) record.
pub open spec fn rcpt(m: Map<Addr, i64>, tag: u8, id: i64, account: i64) -> i64 {
    slot_val(m, receipt_key(tag, id, account))
}

/// The clock an operation acts on: a positive stored override wins over
/// the host clock, which makes deterministic testing trivial.
pub open spec fn now_spec(m: Map<Addr, i64>, clock: i64) -> i64 {
    if meta_val(m, K_TIME_OVERRIDE) > 0 {
        meta_val(m, K_TIME_OVERRIDE)
    } else {
        clock
    }
}

/// The persistent ledger plus the two host inputs of the current call.
pub struct Ledger {
    slots: Vec<(Addr, i64)>,
    host_time: i64,
    host_entropy: i64,
}

/// The map a slot sequence denotes: later writes shadow earlier ones.
spec fn slots_map(entries: Seq<(Addr, i64)>) -> Map<Addr, i64>
    decreases entries.len(),
{
    if entries.len() == 0 {
        Map::empty()
    } else {
        slots_map(entries.drop_last()).insert(entries.last().0, entries.last().1)
    }
}

/// The value a backwards scan of the slot sequence finds.
spec fn lookup(entries: Seq<(Addr, i64)>, key: Addr) -> Option<i64>
    decreases entries.len(),
{
    if entries.len() == 0 {
        None
    } else if entries.last().0 == key {
        Some(entries.last().1)
    } else {
        lookup(entries.drop_last(), key)
    }
}

proof fn lemma_lookup_is_map(entries: Seq<(Addr, i64)>, key: Addr)
    ensures
        lookup(entries, key) == (if slots_map(entries).contains_key(key) {
            Some(slots_map(entries)[key])
        } else {
            None::<i64>
        }),
    decreases entries.len(),
{
    if entries.len() > 0 {
        lemma_lookup_is_map(entries.drop_last(), key);
    }
}

proof fn lemma_slots_map_push(entries: Seq<(Addr, i64)>, e: (Addr, i64))
    ensures
        slots_map(entries.push(e)) == slots_map(entries).insert(e.0, e.1),
{
    assert(entries.push(e).drop_last() =~= entries);
    assert(entries.push(e).last() == e);
}

impl View for Ledger {
    type V = Map<Addr, i64>;

    closed spec fn view(&self) -> Map<Addr, i64> {
        slots_map(self.slots@)
    }
}

impl Ledger {
    /// The host clock injected for the current call.
    pub closed spec fn clock(&self) -> i64 {
        self.host_time
    }

    /// The raw host entropy word injected for the current call.
    pub closed spec fn entropy(&self) -> i64 {
        self.host_entropy
    }

    /// The probe slot has never been written.
    pub open spec fn wf(&self) -> bool {
        !self@.contains_key(probe_key())
    }

    /// Both host inputs carried over unchanged from `pre`.
    pub open spec fn host_unchanged(&self, pre: &Ledger) -> bool {
        self.clock() == pre.clock() && self.entropy() == pre.entropy()
    }

    /// A fresh, empty ledger with zeroed host inputs.
    pub fn new() -> (l: Ledger)
        ensures
            l@ == Map::<Addr, i64>::empty(),
            l.wf(),
            l.clock() == 0,
            l.entropy() == 0,
    {
        Ledger { slots: Vec::new(), host_time: 0, host_entropy: 0 }
    }

    /// Inject the host clock for the next call.
    pub fn set_clock(&mut self, t: i64)
        ensures
            final(self)@ == old(self)@,
            final(self).clock() == t,
            final(self).entropy() == old(self).entropy(),
    {
        self.host_time = t;
    }

    /// Inject the host entropy word for the next call.
    pub fn set_entropy(&mut self, e: i64)
        ensures
            final(self)@ == old(self)@,
            final(self).clock() == old(self).clock(),
            final(self).entropy() == e,
    {
        self.host_entropy = e;
    }

    /// The raw host entropy word, as an executable value.
    pub fn entropy_input(&self) -> (r: i64)
        ensures
            r == self.entropy(),
    {
        self.host_entropy
    }

    /// Raw read: the stored value, or the absent marker.
    fn storage_get(&self, key: Addr) -> (r: Option<i64>)
        ensures
            r == (if self@.contains_key(key) {
                Some(self@[key])
            } else {
                None::<i64>
            }),
    {
        proof {
            lemma_lookup_is_map(self.slots@, key);
        }
        let ghost s = self.slots@;
        let mut i: usize = self.slots.len();
        proof {
            assert(s.take(i as int) =~= s);
        }
        while i > 0
            invariant
                i <= self.slots.len(),
                s == self.slots@,
                lookup(s, key) == lookup(s.take(i as int), key),
            decreases i,
        {
            i = i - 1;
            let e = self.slots[i];
            proof {
                assert(s.take(i as int + 1).drop_last() =~= s.take(i as int));
                assert(s.take(i as int + 1).last() == s[i as int]);
            }
            if e.0 == key {
                proof {
                    assert(e == s[i as int]);
                    assert(lookup(s.take(i as int + 1), key) == Some(e.1));
                    lemma_lookup_is_map(s, key);
                }
                return Some(e.1);
            }
        }
        proof {
            assert(s.take(0).len() == 0);
        }
        None
    }

    /// Raw write of the full encoded value, even for `0`.
    fn storage_put(&mut self, key: Addr, v: i64)
        ensures
            final(self)@ == old(self)@.insert(key, v),
            final(self).host_unchanged(old(self)),
    {
        proof {
            lemma_slots_map_push(self.slots@, (key, v));
        }
        self.slots.push((key, v));
    }

    /// Read a slot as an integer: absent and stored-zero both read as
    /// `0`, detected by comparing raw representations against the probe.
    pub(crate) fn get_i64(&self, key: Addr) -> (r: i64)
        requires
            self.wf(),
        ensures
            r == slot_val(self@, key),
    {
        let raw = self.storage_get(key);
        let null_probe = self.storage_get(Addr { tag: NULL_PROBE_KEY, a: 0, b: 0 });
        let absent = match (raw, null_probe) {
            (None, None) => true,
            (Some(x), Some(y)) => x == y,
            _ => false,
        };
        if absent {
            0
        } else {
            match raw {
                Some(v) => v,
                None => 0,
            }
        }
    }

    /// Write a slot; the probe address is out of every caller's reach.
    pub(crate) fn put_i64(&mut self, key: Addr, v: i64)
        requires
            key != probe_key(),
        ensures
            final(self)@ == old(self)@.insert(key, v),
            final(self).wf() == old(self).wf(),
            final(self).host_unchanged(old(self)),
    {
        self.storage_put(key, v);
    }

    /// Read a singleton slot.
    pub fn get_key_i64(&self, tag: u8) -> (r: i64)
        requires
            self.wf(),
        ensures
            r == meta_val(self@, tag),
    {
        self.get_i64(Addr { tag: tag as i64, a: 0, b: 0 })
    }

    /// Write a singleton slot.
    pub fn put_key_i64(&mut self, tag: u8, v: i64)
        ensures
            final(self)@ == old(self)@.insert(meta_key(tag), v),
            final(self).wf() == old(self).wf(),
            final(self).host_unchanged(old(self)),
    {
        self.put_i64(Addr { tag: tag as i64, a: 0, b: 0 }, v);
    }

    /// Read a per-entity field.
    pub fn env(&self, tag: u8, id: i64) -> (r: i64)
        requires
            self.wf(),
        ensures
            r == fld(self@, tag, id),
    {
        self.get_i64(Addr { tag: tag as i64, a: id, b: 0 })
    }

    /// Write a per-entity field.
    pub fn set_env(&mut self, tag: u8, id: i64, v: i64)
        ensures
            final(self)@ == old(self)@.insert(field_key(tag, id), v),
            final(self).wf() == old(self).wf(),
            final(self).host_unchanged(old(self)),
    {
        self.put_i64(Addr { tag: tag as i64, a: id, b: 0 }, v);
    }

    /// Read a per-(entity, account) record.
    pub(crate) fn get_rcpt(&self, tag: u8, id: i64, account: i64) -> (r: i64)
        requires
            self.wf(),
        ensures
            r == rcpt(self@, tag, id, account),
    {
        self.get_i64(Addr { tag: tag as i64, a: id, b: account })
    }

    /// Write a per-(entity, account) record.
    pub(crate) fn put_rcpt(&mut self, tag: u8, id: i64, account: i64, v: i64)
        ensures
            final(self)@ == old(self)@.insert(receipt_key(tag, id, account), v),
            final(self).wf() == old(self).wf(),
            final(self).host_unchanged(old(self)),
    {
        self.put_i64(Addr { tag: tag as i64, a: id, b: account }, v);
    }

    /// Whether an entity with this id has been created: its creator
    /// field is non-zero.
    pub fn envelope_exists(&self, id: i64) -> (r: bool)
        requires
            self.wf(),
        ensures
            r == (fld(self@, P_CREATOR, id) != 0),
    {
        self.env(P_CREATOR, id) != 0
    }

    /// Whether a token with this id has an owner on record.
    pub fn token_exists(&self, token_id: i64) -> (r: bool)
        requires
            self.wf(),
        ensures
            r == (fld(self@, P_TOKEN_OWNER, token_id) != 0),
    {
        self.env(P_TOKEN_OWNER, token_id) != 0
    }

    /// Allocate a fresh entity id from the monotonic counter.
    pub fn alloc_id(&mut self) -> (id: i64)
        requires
            old(self).wf(),
        ensures
            id == sat_i64(meta_val(old(self)@, K_NEXT_ID) + 1),
            final(self)@ == old(self)@.insert(meta_key(K_NEXT_ID), id),
            final(self).wf(),
            final(self).host_unchanged(old(self)),
    {
        let cur = self.get_key_i64(K_NEXT_ID);
        let id = sat_add(cur, 1);
        self.put_key_i64(K_NEXT_ID, id);
        id
    }

    /// The clock this call acts on: a positive stored override, else the
    /// injected host clock.
    pub fn now_ms(&self) -> (r: i64)
        requires
            self.wf(),
        ensures
            r == now_spec(self@, self.clock()),
    {
        let t = self.get_key_i64(K_TIME_OVERRIDE);
        if t > 0 {
            t
        } else {
            self.host_time
        }
    }

    /// Whether the global pause flag is set.
    pub fn is_paused_flag(&self) -> (r: bool)
        requires
            self.wf(),
        ensures
            r == (meta_val(self@, K_PAUSED) != 0),
    {
        self.get_key_i64(K_PAUSED) != 0
    }

    /// The host entropy word sign-folded to a positive value.
    pub fn runtime_entropy(&self) -> (r: i64)
        ensures
            r == fold_entropy_spec(self.entropy()),
            1 <= r,
    {
        fold_entropy(self.host_entropy)
    }
}

} // verus!
