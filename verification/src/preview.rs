//! Pending preview state: the two transient maps that accumulate uncommitted
//! edits between coalescer ticks. An edit overwrites the entry for its key,
//! so each tick flushes at most one value per key — the latest.

use vstd::prelude::*;

use crate::config::LoopGains;
use crate::entries::{
    entries_view, find_key, propeller_entries_view, spec_lookup, spec_upsert,
    lemma_upsert_lookup,
};
use crate::text::is_key_text;

verus! {

/// Accumulated uncommitted edits, keyed by identity.
pub struct PendingPreview {
    pub propellers: Vec<(Vec<u8>, i8)>,
    pub control_loops: Vec<(Vec<u8>, LoopGains)>,
}

impl PendingPreview {
    pub open spec fn wf(&self) -> bool {
        &&& forall|i: int|
            0 <= i < self.propellers@.len() ==> is_key_text(#[trigger] self.propellers@[i].0@)
        &&& forall|i: int|
            0 <= i < self.control_loops@.len() ==> is_key_text(
                #[trigger] self.control_loops@[i].0@,
            ) && self.control_loops@[i].1.wf()
    }

    pub fn new() -> (r: Self)
        ensures
            r.wf(),
            propeller_entries_view(r.propellers@) == Seq::<(Seq<u8>, i8)>::empty(),
            entries_view(r.control_loops@) == Seq::<(Seq<u8>, crate::config::GainsView)>::empty(),
            r.propellers@.len() == 0,
            r.control_loops@.len() == 0,
    {
        let r = PendingPreview { propellers: Vec::new(), control_loops: Vec::new() };
        proof {
            assert(propeller_entries_view(r.propellers@) =~= Seq::<(Seq<u8>, i8)>::empty());
            assert(entries_view(r.control_loops@) =~= Seq::<
                (Seq<u8>, crate::config::GainsView),
            >::empty());
        }
        r
    }

    /// Records one propeller edit; a later edit for the same key replaces it.
    pub fn insert_propeller(&mut self, key: Vec<u8>, value: i8)
        requires
            old(self).wf(),
            is_key_text(key@),
        ensures
            final(self).wf(),
            propeller_entries_view(final(self).propellers@) == spec_upsert(
                propeller_entries_view(old(self).propellers@),
                key@,
                value,
            ),
            final(self).control_loops@ == old(self).control_loops@,
    {
        let ghost before = propeller_entries_view(self.propellers@);
        let found = find_key_i8(&self.propellers, &key);
        match found {
            Some(i) => {
                self.propellers.set(i, (key, value));
            },
            None => {
                self.propellers.push((key, value));
            },
        }
        proof {
            assert(propeller_entries_view(self.propellers@) =~= spec_upsert(
                before,
                key@,
                value,
            ));
        }
    }

    /// Records one control-loop edit; a later edit for the same key replaces it.
    pub fn insert_control_loop(&mut self, key: Vec<u8>, gains: LoopGains)
        requires
            old(self).wf(),
            is_key_text(key@),
            gains.wf(),
        ensures
            final(self).wf(),
            entries_view(final(self).control_loops@) == spec_upsert(
                entries_view(old(self).control_loops@),
                key@,
                gains@,
            ),
            final(self).propellers@ == old(self).propellers@,
    {
        let ghost before = entries_view(self.control_loops@);
        let found = find_key(&self.control_loops, &key);
        match found {
            Some(i) => {
                self.control_loops.set(i, (key, gains));
                proof {
                    assert forall|t: int| 0 <= t < self.control_loops@.len() implies is_key_text(
                        (#[trigger] self.control_loops@[t]).0@,
                    ) && self.control_loops@[t].1.wf() by {
                        if t != i as int {
                            assert(self.control_loops@[t] == old(self).control_loops@[t]);
                        }
                    }
                }
            },
            None => {
                self.control_loops.push((key, gains));
                proof {
                    assert forall|t: int| 0 <= t < self.control_loops@.len() implies is_key_text(
                        (#[trigger] self.control_loops@[t]).0@,
                    ) && self.control_loops@[t].1.wf() by {
                        if t < old(self).control_loops@.len() {
                            assert(self.control_loops@[t] == old(self).control_loops@[t]);
                        }
                    }
                }
            },
        }
        proof {
            assert(entries_view(self.control_loops@) =~= spec_upsert(before, key@, gains@));
        }
    }

    /// Swaps the propeller map for an empty one when it holds anything.
    pub fn take_propellers(&mut self) -> (r: Option<Vec<(Vec<u8>, i8)>>)
        requires
            old(self).wf(),
        ensures
            final(self).wf(),
            final(self).control_loops@ == old(self).control_loops@,
            match r {
                Some(m) => old(self).propellers@.len() > 0 && m@ == old(self).propellers@
                    && final(self).propellers@.len() == 0,
                None => old(self).propellers@.len() == 0 && final(self).propellers@
                    == old(self).propellers@,
            },
    {
        if self.propellers.len() == 0 {
            return None;
        }
        let mut out: Vec<(Vec<u8>, i8)> = Vec::new();
        core::mem::swap(&mut out, &mut self.propellers);
        Some(out)
    }

    /// Swaps the control-loop map for an empty one when it holds anything.
    pub fn take_control_loops(&mut self) -> (r: Option<Vec<(Vec<u8>, LoopGains)>>)
        requires
            old(self).wf(),
        ensures
            final(self).wf(),
            final(self).propellers@ == old(self).propellers@,
            match r {
                Some(m) => old(self).control_loops@.len() > 0 && m@ == old(self).control_loops@
                    && final(self).control_loops@.len() == 0,
                None => old(self).control_loops@.len() == 0 && final(self).control_loops@
                    == old(self).control_loops@,
            },
    {
        if self.control_loops.len() == 0 {
            return None;
        }
        let mut out: Vec<(Vec<u8>, LoopGains)> = Vec::new();
        core::mem::swap(&mut out, &mut self.control_loops);
        Some(out)
    }
}

/// Index of the first propeller entry with the given key.
fn find_key_i8(entries: &Vec<(Vec<u8>, i8)>, key: &Vec<u8>) -> (r: Option<usize>)
    ensures
        match r {
            Some(i) => i < entries@.len() && entries@[i as int].0@ == key@
                && crate::entries::spec_index_of(propeller_entries_view(entries@), key@) == Some(
                i as int,
            ),
            None => crate::entries::spec_index_of(propeller_entries_view(entries@), key@) is None,
        },
{
    let ghost ev = propeller_entries_view(entries@);
    let mut i: usize = 0;
    while i < entries.len()
        invariant
            0 <= i <= entries@.len(),
            ev == propeller_entries_view(entries@),
            ev.len() == entries@.len(),
            forall|j: int| 0 <= j < entries@.len() ==> ev[j] == (entries@[j].0@, entries@[j].1),
            crate::entries::spec_index_of_from(ev, key@, 0) == crate::entries::spec_index_of_from(
                ev,
                key@,
                i as int,
            ),
        decreases entries@.len() - i,
    {
        if crate::text::bytes_eq(&entries[i].0, key) {
            return Some(i);
        }
        i = i + 1;
    }
    None
}

/// The edits of one tick window folded into an empty map, in order.
pub open spec fn spec_upsert_all(
    acc: Seq<(Seq<u8>, i8)>,
    edits: Seq<(Seq<u8>, i8)>,
) -> Seq<(Seq<u8>, i8)>
    decreases edits.len(),
{
    if edits.len() == 0 {
        acc
    } else {
        spec_upsert_all(spec_upsert(acc, edits[0].0, edits[0].1), edits.drop_first())
    }
}

/// The value of the last edit in the window that names the given key.
pub open spec fn spec_last_value(edits: Seq<(Seq<u8>, i8)>, k: Seq<u8>) -> Option<i8>
    decreases edits.len(),
{
    if edits.len() == 0 {
        None
    } else {
        match spec_last_value(edits.drop_first(), k) {
            Some(v) => Some(v),
            None => if edits[0].0 == k {
                Some(edits[0].1)
            } else {
                None
            },
        }
    }
}

/// However many preview edits land in one tick window, the map the
/// coalescer flushes binds each edited key to the value of its latest edit,
/// and binds nothing else.
pub proof fn lemma_coalesced_latest_value(
    acc: Seq<(Seq<u8>, i8)>,
    edits: Seq<(Seq<u8>, i8)>,
    k: Seq<u8>,
)
    ensures
        spec_lookup(spec_upsert_all(acc, edits), k) == match spec_last_value(edits, k) {
            Some(v) => Some(v),
            None => spec_lookup(acc, k),
        },
    decreases edits.len(),
{
    if edits.len() > 0 {
        lemma_upsert_lookup(acc, edits[0].0, edits[0].1, k);
        lemma_coalesced_latest_value(
            spec_upsert(acc, edits[0].0, edits[0].1),
            edits.drop_first(),
            k,
        );
    }
}

} // verus!
