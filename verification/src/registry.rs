//! The session registry: the mapping from transfer identifier to its current
//! snapshot, held as a vector in insertion order with unique identifiers.
//!
//! The specification functions here are the mathematical model that every
//! contract of the library speaks of: a registry is a sequence of snapshots,
//! and each operation is a function on such sequences.

use vstd::prelude::*;

use crate::torrent::{StatsAlert, TorrentInfo, TorrentStatus, PROGRESS_MAX};

verus! {

/// Whether some entry of `s` carries the identifier `id`.
pub open spec fn contains_id(s: Seq<TorrentInfo>, id: u64) -> bool {
    exists|i: int| 0 <= i < s.len() && (#[trigger] s[i]).id == id
}

/// The position of the entry carrying `id`; meaningful only when
/// `contains_id(s, id)` holds and identifiers are unique.
pub open spec fn idx_of(s: Seq<TorrentInfo>, id: u64) -> int {
    choose|i: int| 0 <= i < s.len() && (#[trigger] s[i]).id == id
}

/// The entry of `s` carrying `id`; meaningful only when `contains_id(s, id)`
/// holds.
pub open spec fn spec_get(s: Seq<TorrentInfo>, id: u64) -> TorrentInfo {
    s[idx_of(s, id)]
}

/// No two entries share an identifier.
pub open spec fn ids_unique(s: Seq<TorrentInfo>) -> bool {
    forall|i: int, j: int|
        0 <= i < j < s.len() ==> (#[trigger] s[i]).id != (#[trigger] s[j]).id
}

/// Every entry is a valid snapshot.
pub open spec fn entries_valid(s: Seq<TorrentInfo>) -> bool {
    forall|i: int| 0 <= i < s.len() ==> (#[trigger] s[i]).valid()
}

/// The registry invariant: unique identifiers, valid snapshots.
pub open spec fn wf_entries(s: Seq<TorrentInfo>) -> bool {
    ids_unique(s) && entries_valid(s)
}

/// `t` with its status replaced.
pub open spec fn with_status(t: TorrentInfo, status: TorrentStatus) -> TorrentInfo {
    TorrentInfo { status, ..t }
}

/// `t` after a stats alert `a` is applied to it: progress, byte counters and
/// peer count are taken from the alert, the byte counters clamped so that
/// `downloaded <= total` and the progress clamped to `PROGRESS_MAX`. The
/// status becomes `Seeding` when the engine reports the transfer fully
/// fetched and `Downloading` otherwise — unless the transfer is `Paused`, in
/// which case an alert never overrides the explicitly commanded status.
pub open spec fn apply_stats_to(t: TorrentInfo, a: StatsAlert) -> TorrentInfo {
    TorrentInfo {
        progress: if a.progress > PROGRESS_MAX {
            PROGRESS_MAX
        } else {
            a.progress
        },
        downloaded: if a.downloaded > a.total {
            a.total
        } else {
            a.downloaded
        },
        total: a.total,
        peers: a.peers,
        status: if t.status is Paused {
            TorrentStatus::Paused
        } else if a.is_seeding {
            TorrentStatus::Seeding
        } else {
            TorrentStatus::Downloading
        },
        ..t
    }
}

/// The registry after the status of `id` is set: unchanged when `id` is
/// absent.
pub open spec fn spec_set_status(
    s: Seq<TorrentInfo>,
    id: u64,
    status: TorrentStatus,
) -> Seq<TorrentInfo> {
    if contains_id(s, id) {
        s.update(idx_of(s, id), with_status(s[idx_of(s, id)], status))
    } else {
        s
    }
}

/// The registry after a stats alert is applied: unchanged when the alert's
/// identifier is unknown, which is how stray alerts for removed transfers
/// are dropped.
pub open spec fn spec_apply_alert(s: Seq<TorrentInfo>, a: StatsAlert) -> Seq<TorrentInfo> {
    if contains_id(s, a.id) {
        s.update(idx_of(s, a.id), apply_stats_to(s[idx_of(s, a.id)], a))
    } else {
        s
    }
}

/// The registry after `id` is removed: unchanged when `id` is absent.
pub open spec fn spec_remove(s: Seq<TorrentInfo>, id: u64) -> Seq<TorrentInfo> {
    if contains_id(s, id) {
        s.remove(idx_of(s, id))
    } else {
        s
    }
}

/// With unique identifiers, the entry found at any position carrying `id`
/// is the one `idx_of` denotes.
pub proof fn lemma_idx_of_unique(s: Seq<TorrentInfo>, id: u64, i: int)
    requires
        ids_unique(s),
        0 <= i < s.len(),
        s[i].id == id,
    ensures
        contains_id(s, id),
        idx_of(s, id) == i,
{
    assert(contains_id(s, id));
    let k = idx_of(s, id);
    assert(0 <= k < s.len() && s[k].id == id);
    if k != i {
        if k < i {
            assert(s[k].id != s[i].id);
        } else {
            assert(s[i].id != s[k].id);
        }
    }
}

/// Setting a status keeps the length and every identifier in place.
pub proof fn lemma_set_status_shape(s: Seq<TorrentInfo>, id: u64, status: TorrentStatus)
    requires
        ids_unique(s),
    ensures
        spec_set_status(s, id, status).len() == s.len(),
        forall|k: int|
            0 <= k < s.len() ==> (#[trigger] spec_set_status(s, id, status)[k]).id == s[k].id,
        wf_entries(s) ==> wf_entries(spec_set_status(s, id, status)),
{
    let s2 = spec_set_status(s, id, status);
    if contains_id(s, id) {
        let i = idx_of(s, id);
        assert(0 <= i < s.len() && s[i].id == id);
        assert forall|k: int| 0 <= k < s.len() implies (#[trigger] s2[k]).id == s[k].id by {
            if k == i {
                assert(s2[k] == with_status(s[i], status));
            }
        }
        if wf_entries(s) {
            assert forall|k: int| 0 <= k < s2.len() implies (#[trigger] s2[k]).valid() by {
                assert(s[k].valid());
                if k == i {
                    assert(s2[k] == with_status(s[i], status));
                }
            }
        }
    }
}

/// Applying an alert keeps the length, every identifier and every name in
/// place, and keeps the registry well formed: in particular the updated
/// entry still has `downloaded <= total`.
pub proof fn lemma_apply_alert_shape(s: Seq<TorrentInfo>, a: StatsAlert)
    requires
        ids_unique(s),
    ensures
        spec_apply_alert(s, a).len() == s.len(),
        forall|k: int|
            0 <= k < s.len() ==> (#[trigger] spec_apply_alert(s, a)[k]).id == s[k].id,
        forall|k: int|
            0 <= k < s.len() ==> (#[trigger] spec_apply_alert(s, a)[k]).name == s[k].name,
        wf_entries(s) ==> wf_entries(spec_apply_alert(s, a)),
{
    let s2 = spec_apply_alert(s, a);
    if contains_id(s, a.id) {
        let i = idx_of(s, a.id);
        assert(0 <= i < s.len() && s[i].id == a.id);
        assert forall|k: int|
            0 <= k < s.len() implies (#[trigger] s2[k]).id == s[k].id && s2[k].name == s[k].name by {
            if k == i {
                assert(s2[k] == apply_stats_to(s[i], a));
            }
        }
        if wf_entries(s) {
            assert forall|k: int| 0 <= k < s2.len() implies (#[trigger] s2[k]).valid() by {
                assert(s[k].valid());
                if k == i {
                    assert(s2[k] == apply_stats_to(s[i], a));
                }
            }
        }
    }
}

/// Removing an identifier leaves a registry in which it no longer occurs,
/// and keeps the remaining entries well formed.
pub proof fn lemma_remove_shape(s: Seq<TorrentInfo>, id: u64)
    requires
        wf_entries(s),
    ensures
        !contains_id(spec_remove(s, id), id),
        wf_entries(spec_remove(s, id)),
        forall|k: int|
            0 <= k < spec_remove(s, id).len() ==> contains_id(
                s,
                (#[trigger] spec_remove(s, id)[k]).id,
            ),
{
    let s2 = spec_remove(s, id);
    if contains_id(s, id) {
        let i = idx_of(s, id);
        assert(0 <= i < s.len() && s[i].id == id);
        assert forall|k: int| 0 <= k < s2.len() implies (#[trigger] s2[k]) == (if k < i {
            s[k]
        } else {
            s[k + 1]
        }) by {
            assert(s2 == s.remove(i));
        }
        assert forall|k: int| 0 <= k < s2.len() implies (#[trigger] s2[k]).id != id by {
            if k < i {
                assert(s[k].id != s[i].id);
            } else {
                assert(s[i].id != s[k + 1].id);
            }
        }
        assert forall|k: int, l: int| 0 <= k < l < s2.len() implies (#[trigger] s2[k]).id != (
        #[trigger] s2[l]).id by {
            let k0 = if k < i { k } else { k + 1 };
            let l0 = if l < i { l } else { l + 1 };
            assert(s2[k] == s[k0] && s2[l] == s[l0]);
            assert(s[k0].id != s[l0].id);
        }
        assert forall|k: int| 0 <= k < s2.len() implies (#[trigger] s2[k]).valid() by {
            let k0 = if k < i { k } else { k + 1 };
            assert(s2[k] == s[k0]);
            assert(s[k0].valid());
        }
        assert forall|k: int| 0 <= k < s2.len() implies contains_id(s, (#[trigger] s2[k]).id) by {
            let k0 = if k < i { k } else { k + 1 };
            assert(s2[k] == s[k0]);
            assert(contains_id(s, s[k0].id));
        }
    }
}

/// The registry component: exclusive-access snapshot store for all known
/// transfers. Callers wrap it (together with the allocator in
/// `TorrentManager`) in whatever guard their runtime provides and keep each
/// critical section to a single call.
pub struct Registry {
    entries: Vec<TorrentInfo>,
}

impl View for Registry {
    type V = Seq<TorrentInfo>;

    closed spec fn view(&self) -> Seq<TorrentInfo> {
        self.entries@
    }
}

impl Registry {
    /// The registry invariant: unique identifiers, valid snapshots.
    pub open spec fn wf(&self) -> bool {
        wf_entries(self@)
    }

    /// An empty registry.
    pub fn new() -> (r: Registry)
        ensures
            r@ == Seq::<TorrentInfo>::empty(),
            r.wf(),
    {
        Registry { entries: Vec::new() }
    }

    /// A registry holding exactly `entries`; the caller has established the
    /// invariant.
    pub(crate) fn from_vec(entries: Vec<TorrentInfo>) -> (r: Registry)
        requires
            wf_entries(entries@),
        ensures
            r@ == entries@,
            r.wf(),
    {
        Registry { entries }
    }

    /// The position of the entry carrying `id`, if any.
    fn find(&self, id: u64) -> (r: Option<usize>)
        requires
            self.wf(),
        ensures
            match r {
                Some(i) => contains_id(self@, id) && idx_of(self@, id) == i as int,
                None => !contains_id(self@, id),
            },
    {
        let n = self.entries.len();
        let mut i: usize = 0;
        while i < n
            invariant
                self.wf(),
                n == self@.len(),
                i <= n,
                forall|j: int| 0 <= j < i ==> (#[trigger] self@[j]).id != id,
            decreases n - i,
        {
            if self.entries[i].id == id {
                proof {
                    lemma_idx_of_unique(self@, id, i as int);
                }
                return Some(i);
            }
            i += 1;
        }
        None
    }

    /// Whether `id` is known to the registry.
    pub fn contains(&self, id: u64) -> (r: bool)
        requires
            self.wf(),
        ensures
            r == contains_id(self@, id),
    {
        self.find(id).is_some()
    }

    /// The number of tracked transfers.
    pub fn len(&self) -> (r: usize)
        ensures
            r == self@.len(),
    {
        self.entries.len()
    }

    /// A full value copy of the snapshot for `id`, so that no caller ever
    /// observes an entry mutated mid-read; `None` when `id` is absent.
    pub fn get(&self, id: u64) -> (r: Option<TorrentInfo>)
        requires
            self.wf(),
        ensures
            match r {
                Some(t) => contains_id(self@, id) && t == spec_get(self@, id) && t.id == id,
                None => !contains_id(self@, id),
            },
    {
        match self.find(id) {
            Some(i) => Some(self.entries[i].clone()),
            None => None,
        }
    }

    /// A consistent point-in-time copy of all entries, in insertion order.
    pub fn list(&self) -> (r: Vec<TorrentInfo>)
        ensures
            r@ == self@,
    {
        let n = self.entries.len();
        let mut out: Vec<TorrentInfo> = Vec::new();
        let mut i: usize = 0;
        while i < n
            invariant
                n == self@.len(),
                i <= n,
                out@ == self@.subrange(0, i as int),
            decreases n - i,
        {
            out.push(self.entries[i].clone());
            proof {
                assert(out@ == self@.subrange(0, i + 1 as int));
            }
            i += 1;
        }
        proof {
            assert(self@.subrange(0, n as int) == self@);
        }
        out
    }

    /// Registers a new snapshot. Fails (returning `false`, registry
    /// unchanged) when the identifier is already present; otherwise the
    /// entry is appended.
    pub fn insert(&mut self, info: TorrentInfo) -> (r: bool)
        requires
            old(self).wf(),
            info.valid(),
        ensures
            final(self).wf(),
            r == !contains_id(old(self)@, info.id),
            r ==> final(self)@ == old(self)@.push(info),
            !r ==> final(self)@ == old(self)@,
    {
        let present = self.contains(info.id);
        if present {
            return false;
        }
        let ghost s0 = self@;
        self.entries.push(info);
        proof {
            assert forall|i: int, j: int|
                0 <= i < j < self@.len() implies (#[trigger] self@[i]).id != (
            #[trigger] self@[j]).id by {
                if j < s0.len() {
                    assert(s0[i].id != s0[j].id);
                } else {
                    assert(self@[i] == s0[i]);
                    if s0[i].id == info.id {
                        assert(contains_id(s0, info.id));
                    }
                }
            }
            assert forall|i: int| 0 <= i < self@.len() implies (#[trigger] self@[i]).valid() by {
                if i < s0.len() {
                    assert(s0[i].valid());
                } else {
                    assert(self@[i] == info);
                }
            }
        }
        true
    }

    /// Sets the status of `id`, in place and under the caller's guard; a
    /// no-op (not an error) when `id` is absent, since a removal may race an
    /// in-flight command for the same identifier.
    pub fn set_status(&mut self, id: u64, status: TorrentStatus)
        requires
            old(self).wf(),
        ensures
            final(self).wf(),
            final(self)@ == spec_set_status(old(self)@, id, status),
    {
        match self.find(id) {
            Some(i) => {
                let t = self.entries[i].clone();
                let updated = TorrentInfo { status, ..t };
                self.entries.set(i, updated);
                proof {
                    assert(self@ == spec_set_status(old(self)@, id, status));
                    lemma_set_status_shape(old(self)@, id, status);
                }
            },
            None => {},
        }
    }

    /// Applies a stats alert to the matching entry, clamping as
    /// `apply_stats_to` describes; a no-op when the alert's identifier is
    /// unknown, so stray alerts for removed transfers are dropped.
    pub fn apply_stats(&mut self, a: StatsAlert)
        requires
            old(self).wf(),
        ensures
            final(self).wf(),
            final(self)@ == spec_apply_alert(old(self)@, a),
    {
        match self.find(a.id) {
            Some(i) => {
                let t = self.entries[i].clone();
                let updated = TorrentInfo {
                    progress: if a.progress > PROGRESS_MAX {
                        PROGRESS_MAX
                    } else {
                        a.progress
                    },
                    downloaded: if a.downloaded > a.total {
                        a.total
                    } else {
                        a.downloaded
                    },
                    total: a.total,
                    peers: a.peers,
                    status: if matches!(t.status, TorrentStatus::Paused) {
                        TorrentStatus::Paused
                    } else if a.is_seeding {
                        TorrentStatus::Seeding
                    } else {
                        TorrentStatus::Downloading
                    },
                    ..t
                };
                proof {
                    assert(updated == apply_stats_to(old(self)@[i as int], a));
                }
                self.entries.set(i, updated);
                proof {
                    assert(self@ == spec_apply_alert(old(self)@, a));
                    lemma_apply_alert_shape(old(self)@, a);
                }
            },
            None => {},
        }
    }

    /// Deletes the entry for `id`; reports whether an entry existed.
    pub fn remove(&mut self, id: u64) -> (r: bool)
        requires
            old(self).wf(),
        ensures
            final(self).wf(),
            r == contains_id(old(self)@, id),
            final(self)@ == spec_remove(old(self)@, id),
            !contains_id(final(self)@, id),
    {
        match self.find(id) {
            Some(i) => {
                self.entries.remove(i);
                proof {
                    lemma_remove_shape(old(self)@, id);
                }
                true
            },
            None => false,
        }
    }
}

} // verus!
