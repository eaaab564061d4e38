//! Laws of the session: properties that relate several operations, stated
//! over the same specification functions the operations' contracts use and
//! proved once and for all.

use vstd::prelude::*;

use crate::manager::{fresh_info, ids_bounded};
use crate::registry::{
    contains_id, idx_of, lemma_idx_of_unique, lemma_remove_shape, lemma_set_status_shape,
    spec_apply_alert, spec_get, spec_remove, spec_set_status, wf_entries, with_status,
};
use crate::torrent::{StatsAlert, TorrentInfo, TorrentStatus};

verus! {

/// After a successful add the new identifier resolves to exactly the fresh
/// snapshot: status `Downloading`, zero progress, zero byte counters, zero
/// peers, and the supplied name. `last` is the high-water mark before the
/// add, so `last + 1` is the identifier the add allocates and
/// `s.push(fresh_info(last + 1, name))` is the registry it leaves behind.
pub proof fn lemma_add_then_get(s: Seq<TorrentInfo>, last: u64, name: String)
    requires
        wf_entries(s),
        ids_bounded(s, last),
        last < u64::MAX,
    ensures
        ({
            let id = (last + 1) as u64;
            let s2 = s.push(fresh_info(id, name));
            &&& contains_id(s2, id)
            &&& spec_get(s2, id) == fresh_info(id, name)
            &&& wf_entries(s2)
        }),
{
    let id = (last + 1) as u64;
    let t = fresh_info(id, name);
    let s2 = s.push(t);
    assert(s2[s.len() as int] == t);
    assert forall|k: int, l: int|
        0 <= k < l < s2.len() implies (#[trigger] s2[k]).id != (#[trigger] s2[l]).id by {
        if l < s.len() {
            assert(s[k].id != s[l].id);
        } else {
            assert(s2[k] == s[k]);
            assert(1 <= s[k].id <= last);
        }
    }
    assert forall|k: int| 0 <= k < s2.len() implies (#[trigger] s2[k]).valid() by {
        if k < s.len() {
            assert(s[k].valid());
        }
    }
    lemma_idx_of_unique(s2, id, s.len() as int);
}

/// Pausing a transfer and then resuming it restores status `Downloading`
/// without altering its progress, byte counters, peer count or name, leaves
/// every other entry untouched, and yields exactly the registry that
/// resuming alone would have produced.
pub proof fn lemma_pause_then_resume(s: Seq<TorrentInfo>, id: u64)
    requires
        wf_entries(s),
        contains_id(s, id),
    ensures
        ({
            let paused = spec_set_status(s, id, TorrentStatus::Paused);
            let resumed = spec_set_status(paused, id, TorrentStatus::Downloading);
            &&& resumed == spec_set_status(s, id, TorrentStatus::Downloading)
            &&& contains_id(resumed, id)
            &&& spec_get(resumed, id) == with_status(spec_get(s, id), TorrentStatus::Downloading)
            &&& spec_get(resumed, id).progress == spec_get(s, id).progress
            &&& spec_get(resumed, id).downloaded == spec_get(s, id).downloaded
            &&& spec_get(resumed, id).total == spec_get(s, id).total
            &&& spec_get(resumed, id).peers == spec_get(s, id).peers
            &&& spec_get(resumed, id).name == spec_get(s, id).name
            &&& forall|k: int| 0 <= k < s.len() && (#[trigger] s[k]).id != id ==> resumed[k] == s[k]
        }),
{
    let i = idx_of(s, id);
    assert(0 <= i < s.len() && s[i].id == id);
    let paused = spec_set_status(s, id, TorrentStatus::Paused);
    lemma_set_status_shape(s, id, TorrentStatus::Paused);
    assert(paused == s.update(i, with_status(s[i], TorrentStatus::Paused)));
    assert(paused[i].id == id);
    lemma_idx_of_unique(paused, id, i);
    let resumed = spec_set_status(paused, id, TorrentStatus::Downloading);
    assert(resumed == paused.update(i, with_status(paused[i], TorrentStatus::Downloading)));
    assert(with_status(paused[i], TorrentStatus::Downloading) == with_status(
        s[i],
        TorrentStatus::Downloading,
    ));
    assert(resumed =~= s.update(i, with_status(s[i], TorrentStatus::Downloading)));
    assert(resumed == spec_set_status(s, id, TorrentStatus::Downloading));
    assert(resumed[i].id == id);
    lemma_set_status_shape(paused, id, TorrentStatus::Downloading);
    lemma_idx_of_unique(resumed, id, i);
    assert(spec_get(resumed, id) == with_status(s[i], TorrentStatus::Downloading));
    lemma_idx_of_unique(s, id, i);
    assert forall|k: int| 0 <= k < s.len() && (#[trigger] s[k]).id != id implies resumed[k]
        == s[k] by {
        assert(k != i);
    }
}

/// Once a transfer is removed its identifier is gone for good: the registry
/// no longer contains it, so a lookup reports it missing, and removing it a
/// second time finds nothing and changes nothing.
pub proof fn lemma_remove_then_not_found(s: Seq<TorrentInfo>, id: u64)
    requires
        wf_entries(s),
    ensures
        !contains_id(spec_remove(s, id), id),
        spec_remove(spec_remove(s, id), id) == spec_remove(s, id),
{
    lemma_remove_shape(s, id);
}

/// One alert-consumer step keeps the registry well formed: after an alert is
/// applied — with its byte counters clamped — every entry still satisfies
/// `downloaded <= total`, so a snapshot taken under the same guard at any
/// point between updates never shows more bytes fetched than the total.
pub proof fn lemma_alert_keeps_counters_consistent(s: Seq<TorrentInfo>, a: StatsAlert)
    requires
        wf_entries(s),
    ensures
        wf_entries(spec_apply_alert(s, a)),
        forall|k: int|
            0 <= k < spec_apply_alert(s, a).len() ==> (#[trigger] spec_apply_alert(
                s,
                a,
            )[k]).downloaded <= spec_apply_alert(s, a)[k].total,
{
    crate::registry::lemma_apply_alert_shape(s, a);
    assert forall|k: int|
        0 <= k < spec_apply_alert(s, a).len() implies (#[trigger] spec_apply_alert(
        s,
        a,
    )[k]).downloaded <= spec_apply_alert(s, a)[k].total by {
        assert(spec_apply_alert(s, a)[k].valid());
    }
}

/// A fresh allocation never collides with a live transfer: the identifier
/// one past the high-water mark is absent from the registry, because every
/// entry's identifier lies at or below the mark.
pub proof fn lemma_allocated_id_fresh(s: Seq<TorrentInfo>, last: u64)
    requires
        ids_bounded(s, last),
        last < u64::MAX,
    ensures
        !contains_id(s, (last + 1) as u64),
        forall|k: int| 0 <= k < s.len() ==> (#[trigger] s[k]).id < last + 1,
{
    let id = (last + 1) as u64;
    if contains_id(s, id) {
        let k = idx_of(s, id);
        assert(0 <= k < s.len() && s[k].id == id);
        assert(1 <= s[k].id <= last);
    }
}

/// Identifier allocation is strictly increasing across successful adds,
/// whatever happens in between. An add allocates one past the high-water
/// mark and raises the mark to the allocated identifier; every other
/// operation leaves the mark unchanged, so the mark never decreases. Hence
/// if a first add ran when the mark was `first_mark` and the session later
/// holds entries `s` under mark `later_mark`, the next allocation exceeds
/// the first one and collides with no entry still present — even if the
/// transfer carrying the highest identifier has been removed since.
pub proof fn lemma_ids_strictly_increasing(first_mark: u64, s: Seq<TorrentInfo>, later_mark: u64)
    requires
        first_mark < u64::MAX,
        first_mark + 1 <= later_mark,
        later_mark < u64::MAX,
        ids_bounded(s, later_mark),
    ensures
        ({
            let first_allocated = (first_mark + 1) as u64;
            let next_allocated = (later_mark + 1) as u64;
            &&& next_allocated > first_allocated
            &&& !contains_id(s, next_allocated)
        }),
{
    lemma_allocated_id_fresh(s, later_mark);
}

} // verus!
