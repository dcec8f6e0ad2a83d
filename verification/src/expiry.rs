//! The expiry sweeper: prunes idempotency records older than the retention
//! window. Deleting records is idempotent and commutative, so any number
//! of sweepers can run without coordination; the loop around the sweep
//! lives outside the library.

use vstd::prelude::*;

use crate::store::EntryView;
use crate::store::IdempotencyEntry;
use crate::store::IdempotencyRecord;
use crate::store::RETENTION_SECONDS;
use crate::store::Store;
use crate::store::StoreView;

verus! {

/// Whether a record has outlived the retention window at time `now`. A
/// record dated in the future has non-positive age and is kept, as the
/// database's interval comparison would keep it.
pub open spec fn record_expired(r: EntryView, now: u64) -> bool {
    now > r.record.created_at && now - r.record.created_at > RETENTION_SECONDS
}

/// The views of a sequence of stored entries.
pub open spec fn entry_views(s: Seq<IdempotencyEntry>) -> Seq<EntryView> {
    Seq::new(s.len(), |k: int| s[k]@)
}

impl IdempotencyEntry {
    /// An exact copy of the entry.
    pub fn clone_entry(&self) -> (r: IdempotencyEntry)
        ensures
            r@ == self@,
    {
        IdempotencyEntry {
            actor: self.actor,
            key: self.key.clone(),
            record: IdempotencyRecord {
                created_at: self.record.created_at,
                response: self.record.response.duplicate(),
            },
        }
    }
}

/// Every element the filter keeps comes from the source sequence.
proof fn lemma_filter_elements_from(s: Seq<EntryView>, pred: spec_fn(EntryView) -> bool)
    ensures
        forall|p: int|
            0 <= p < s.filter(pred).len() ==> exists|i: int|
                0 <= i < s.len() && s[i] == #[trigger] s.filter(pred)[p],
    decreases s.len(),
{
    reveal(Seq::filter);
    if s.len() == 0 {
    } else {
        let rest = s.drop_last();
        lemma_filter_elements_from(rest, pred);
        let out = s.filter(pred);
        let sub = rest.filter(pred);
        assert forall|p: int| 0 <= p < out.len() implies exists|i: int|
            0 <= i < s.len() && s[i] == #[trigger] out[p] by {
            if p < sub.len() {
                assert(out[p] == sub[p]);
                let i = choose|i: int| 0 <= i < rest.len() && rest[i] == sub[p];
                assert(s[i] == out[p]);
            } else {
                assert(s[s.len() - 1] == out[p]);
            }
        }
    }
}

/// Filtering a sequence with pairwise distinct (actor, key) pairs keeps
/// them pairwise distinct.
proof fn lemma_filter_distinct_keys(s: Seq<EntryView>, pred: spec_fn(EntryView) -> bool)
    requires
        forall|p: int, q: int|
            0 <= p < q < s.len() ==> !(s[p].actor == s[q].actor && s[p].key == s[q].key),
    ensures
        forall|p: int, q: int|
            0 <= p < q < s.filter(pred).len() ==> !(s.filter(pred)[p].actor == s.filter(
                pred,
            )[q].actor && s.filter(pred)[p].key == s.filter(pred)[q].key),
    decreases s.len(),
{
    reveal(Seq::filter);
    if s.len() == 0 {
    } else {
        let rest = s.drop_last();
        lemma_filter_distinct_keys(rest, pred);
        lemma_filter_elements_from(rest, pred);
        let out = s.filter(pred);
        let sub = rest.filter(pred);
        assert forall|p: int, q: int|
            0 <= p < q < out.len() implies !(out[p].actor == out[q].actor && out[p].key
            == out[q].key) by {
            if q < sub.len() {
                assert(out[p] == sub[p] && out[q] == sub[q]);
            } else if pred(s.last()) && q == out.len() - 1 {
                assert(out[p] == sub[p]);
                let i = choose|i: int| 0 <= i < rest.len() && rest[i] == sub[p];
                assert(s[i] == out[p]);
                assert(!(s[i].actor == s[s.len() - 1].actor && s[i].key == s[s.len() - 1].key));
            }
        }
    }
}

/// One sweeper cycle: delete every idempotency record older than the
/// retention window, completed or not, and nothing else. Records at or
/// under the window's edge survive untouched.
pub fn expire_old_keys(store: &mut Store, now: u64)
    requires
        old(store).wf(),
    ensures
        final(store).wf(),
        final(store)@ == (StoreView {
            records: old(store)@.records.filter(|r: EntryView| !record_expired(r, now)),
            ..old(store)@
        }),
{
    let ghost old_v = store@;
    let ghost pred = |r: EntryView| !record_expired(r, now);
    let mut kept: Vec<IdempotencyEntry> = Vec::new();
    let mut i: usize = 0;
    proof {
        reveal(Seq::filter);
        assert(entry_views(kept@) =~= old_v.records.take(0).filter(pred));
    }
    while i < store.records.len()
        invariant
            old_v == old(store)@,
            store@ == old_v,
            store.wf(),
            pred == (|r: EntryView| !record_expired(r, now)),
            i <= old_v.records.len(),
            entry_views(kept@) == old_v.records.take(i as int).filter(pred),
        decreases old_v.records.len() - i,
    {
        proof {
            reveal(Seq::filter);
            assert(old_v.records.take(i as int + 1).drop_last() =~= old_v.records.take(i as int));
            assert(old_v.records.take(i as int + 1).last() == old_v.records[i as int]);
        }
        let created_at = store.records[i].record.created_at;
        let expired = now > created_at && now - created_at > RETENTION_SECONDS;
        if !expired {
            let ghost pre = kept@;
            kept.push(store.records[i].clone_entry());
            proof {
                assert(entry_views(kept@) =~= entry_views(pre).push(old_v.records[i as int]));
            }
        }
        i = i + 1;
    }
    proof {
        assert(old_v.records.take(old_v.records.len() as int) =~= old_v.records);
    }
    store.records = kept;
    proof {
        assert(store@.records =~= entry_views(kept@));
        assert(store@ =~= (StoreView { records: old_v.records.filter(pred), ..old_v }));
        lemma_filter_distinct_keys(old_v.records, pred);
    }
}

/// How long the sweeper loop sleeps before its next cycle: a long pause
/// after a clean sweep, a shorter one after an error.
pub fn expiry_delay(swept: bool) -> (r: u64)
    ensures
        r == (if swept {
            600u64
        } else {
            60u64
        }),
{
    if swept {
        600
    } else {
        60
    }
}

} // verus!
