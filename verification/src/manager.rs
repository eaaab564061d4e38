//! The command layer: a registry together with the identifier allocator,
//! deciding every add / pause / resume / remove / get / list request.
//!
//! Engine calls themselves (create, pause, resume, remove) may block on
//! network or disk, so the caller performs them outside any guard and passes
//! the outcome in as a plain `Result`; every decision about the session state
//! — membership checks, error selection, what is written and when nothing
//! must change — is made here.

use vstd::prelude::*;

use crate::registry::{
    apply_stats_to, contains_id, spec_apply_alert, spec_get, spec_remove, spec_set_status,
    wf_entries, with_status, Registry,
};
use crate::torrent::{SessionError, StatsAlert, TorrentInfo, TorrentStatus};

verus! {

/// Every entry's identifier was allocated at or below the high-water mark
/// `last`, and identifiers start at 1.
pub open spec fn ids_bounded(s: Seq<TorrentInfo>, last: u64) -> bool {
    forall|i: int| 0 <= i < s.len() ==> 1 <= (#[trigger] s[i]).id <= last
}

/// The fresh snapshot a successful add registers: status `Downloading`, no
/// progress, no bytes, no peers.
pub open spec fn fresh_info(id: u64, name: String) -> TorrentInfo {
    TorrentInfo {
        id,
        name,
        status: TorrentStatus::Downloading,
        progress: 0,
        downloaded: 0,
        total: 0,
        peers: 0,
    }
}

/// The session coordinator: the registry of snapshots plus the identifier
/// high-water mark. Identifiers grow strictly and are never reused within a
/// run, even after the highest entry is removed.
pub struct TorrentManager {
    registry: Registry,
    last_id: u64,
}

impl View for TorrentManager {
    type V = Seq<TorrentInfo>;

    closed spec fn view(&self) -> Seq<TorrentInfo> {
        self.registry@
    }
}

impl TorrentManager {
    /// The identifier high-water mark: the last identifier ever allocated,
    /// 0 when none was.
    pub closed spec fn last(&self) -> u64 {
        self.last_id
    }

    /// The coordinator invariant: the registry is well formed and no entry
    /// outruns the high-water mark.
    pub open spec fn wf(&self) -> bool {
        wf_entries(self@) && ids_bounded(self@, self.last())
    }

    /// An empty session.
    pub fn new() -> (m: TorrentManager)
        ensures
            m@ == Seq::<TorrentInfo>::empty(),
            m.last() == 0,
            m.wf(),
    {
        TorrentManager { registry: Registry::new(), last_id: 0 }
    }

    /// A session holding exactly `entries` with high-water mark `last_id`,
    /// or `None` when that would break the invariant: a duplicated or zero
    /// identifier, one above `last_id`, progress out of range, or
    /// `downloaded` exceeding `total`.
    pub fn from_parts(entries: Vec<TorrentInfo>, last_id: u64) -> (r: Option<TorrentManager>)
        ensures
            match r {
                Some(m) => {
                    &&& m@ == entries@
                    &&& m.last() == last_id
                    &&& m.wf()
                },
                None => !(wf_entries(entries@) && ids_bounded(entries@, last_id)),
            },
    {
        let n = entries.len();
        let mut i: usize = 0;
        while i < n
            invariant
                n == entries@.len(),
                i <= n,
                forall|k: int|
                    0 <= k < i ==> (#[trigger] entries@[k]).valid() && 1 <= entries@[k].id
                        <= last_id,
                forall|k: int, l: int|
                    0 <= k < i && k < l < n ==> (#[trigger] entries@[k]).id != (
                    #[trigger] entries@[l]).id,
            decreases n - i,
        {
            let e = &entries[i];
            if e.id == 0 || e.id > last_id || e.progress > crate::torrent::PROGRESS_MAX
                || e.downloaded > e.total {
                proof {
                    assert(!(entries@[i as int].valid() && 1 <= entries@[i as int].id <= last_id));
                }
                return None;
            }
            let mut j: usize = i + 1;
            while j < n
                invariant
                    n == entries@.len(),
                    i < j <= n,
                    forall|l: int| i < l < j ==> entries@[i as int].id != (#[trigger] entries@[l]).id,
                decreases n - j,
            {
                if entries[j].id == entries[i].id {
                    proof {
                        assert(entries@[i as int].id == entries@[j as int].id);
                    }
                    return None;
                }
                j += 1;
            }
            i += 1;
        }
        Some(TorrentManager { registry: Registry::from_vec(entries), last_id })
    }

    /// Whether `id` is currently tracked. Commands that must call the engine
    /// check membership first, so that no engine call is spent on a
    /// nonexistent identifier.
    pub fn contains(&self, id: u64) -> (r: bool)
        requires
            self.wf(),
        ensures
            r == contains_id(self@, id),
    {
        self.registry.contains(id)
    }

    /// Whether another identifier can still be allocated.
    pub fn can_allocate(&self) -> (r: bool)
        ensures
            r == (self.last() < u64::MAX),
    {
        self.last_id < u64::MAX
    }

    /// The number of tracked transfers.
    pub fn len(&self) -> (r: usize)
        ensures
            r == self@.len(),
    {
        self.registry.len()
    }

    /// A full value copy of the snapshot for `id`; `NotFound` when the
    /// identifier is absent.
    pub fn get(&self, id: u64) -> (r: Result<TorrentInfo, SessionError>)
        requires
            self.wf(),
        ensures
            match r {
                Ok(t) => contains_id(self@, id) && t == spec_get(self@, id) && t.id == id,
                Err(e) => !contains_id(self@, id) && e == SessionError::NotFound(id),
            },
    {
        match self.registry.get(id) {
            Some(t) => Ok(t),
            None => Err(SessionError::NotFound(id)),
        }
    }

    /// A consistent point-in-time copy of all snapshots, in insertion order;
    /// never fails.
    pub fn list(&self) -> (r: Vec<TorrentInfo>)
        ensures
            r@ == self@,
    {
        self.registry.list()
    }

    /// Registers a new transfer once the engine has accepted its creation.
    ///
    /// The caller first checks `can_allocate`, then asks the engine to
    /// create the transfer from the parsed source, and passes the outcome in
    /// as `engine_result`. When the identifier space is exhausted the add
    /// fails with `IdentifierOverflow` (identifiers saturate rather than
    /// wrap, so two live transfers can never collide). When the engine
    /// refused, the add fails with `CreationError` carrying the engine's
    /// message. In every failure the registry is exactly as it was. On
    /// success the allocated identifier is one past the previous high-water
    /// mark — strictly greater than every identifier ever handed out — and
    /// the new snapshot starts Downloading with zero progress and no peers.
    pub fn add_torrent(&mut self, name: String, engine_result: Result<(), String>) -> (r: Result<
        TorrentInfo,
        SessionError,
    >)
        requires
            old(self).wf(),
        ensures
            final(self).wf(),
            final(self).last() >= old(self).last(),
            old(self).last() == u64::MAX ==> {
                &&& r == Err::<TorrentInfo, SessionError>(SessionError::IdentifierOverflow)
                &&& final(self)@ == old(self)@
                &&& final(self).last() == old(self).last()
            },
            old(self).last() < u64::MAX ==> match engine_result {
                Err(m) => {
                    &&& r == Err::<TorrentInfo, SessionError>(SessionError::CreationError(m))
                    &&& final(self)@ == old(self)@
                    &&& final(self).last() == old(self).last()
                },
                Ok(u) => {
                    let id = (old(self).last() + 1) as u64;
                    &&& r == Ok::<TorrentInfo, SessionError>(fresh_info(id, name))
                    &&& !contains_id(old(self)@, id)
                    &&& final(self)@ == old(self)@.push(fresh_info(id, name))
                    &&& final(self).last() == id
                    &&& contains_id(final(self)@, id)
                    &&& spec_get(final(self)@, id) == fresh_info(id, name)
                },
            },
    {
        if self.last_id == u64::MAX {
            return Err(SessionError::IdentifierOverflow);
        }
        match engine_result {
            Err(m) => Err(SessionError::CreationError(m)),
            Ok(_) => {
                let id = self.last_id + 1;
                let info = TorrentInfo {
                    id,
                    name,
                    status: TorrentStatus::Downloading,
                    progress: 0,
                    downloaded: 0,
                    total: 0,
                    peers: 0,
                };
                proof {
                    assert(!contains_id(self@, id)) by {
                        if contains_id(self@, id) {
                            let k = crate::registry::idx_of(self@, id);
                            assert(0 <= k < self@.len() && self@[k].id == id);
                            assert(1 <= self@[k].id <= self.last());
                            assert(false);
                        }
                    }
                }
                self.registry.insert(info.clone());
                self.last_id = id;
                proof {
                    assert forall|k: int| 0 <= k < self@.len() implies 1 <= (
                    #[trigger] self@[k]).id <= self.last() by {
                        if k < old(self)@.len() {
                            assert(1 <= old(self)@[k].id <= old(self).last());
                        } else {
                            assert(self@[k] == info);
                        }
                    }
                    let s0 = old(self)@;
                    assert(self@[s0.len() as int] == info);
                    crate::registry::lemma_idx_of_unique(self@, id, s0.len() as int);
                }
                Ok(info)
            },
        }
    }

    /// Pauses a tracked transfer.
    ///
    /// The caller checks membership first, then calls the engine, and passes
    /// the outcome in as `engine_result`. An absent identifier fails with
    /// `NotFound`; an engine failure is surfaced verbatim as `EngineError`;
    /// in both cases the registry is exactly as it was. On success only the
    /// status of the matching entry changes, to `Paused`.
    pub fn pause(&mut self, id: u64, engine_result: Result<(), String>) -> (r: Result<
        (),
        SessionError,
    >)
        requires
            old(self).wf(),
        ensures
            final(self).wf(),
            final(self).last() == old(self).last(),
            !contains_id(old(self)@, id) ==> r == Err::<(), SessionError>(
                SessionError::NotFound(id),
            ) && final(self)@ == old(self)@,
            contains_id(old(self)@, id) ==> match engine_result {
                Err(m) => r == Err::<(), SessionError>(SessionError::EngineError(m)) && final(self)@
                    == old(self)@,
                Ok(u) => {
                    &&& r == Ok::<(), SessionError>(())
                    &&& final(self)@ == spec_set_status(old(self)@, id, TorrentStatus::Paused)
                    &&& contains_id(final(self)@, id)
                    &&& spec_get(final(self)@, id) == with_status(
                        spec_get(old(self)@, id),
                        TorrentStatus::Paused,
                    )
                    &&& forall|k: int|
                        0 <= k < old(self)@.len() && (#[trigger] old(self)@[k]).id != id
                            ==> final(self)@[k] == old(self)@[k]
                },
            },
    {
        self.set_status_command(id, TorrentStatus::Paused, engine_result)
    }

    /// Resumes a tracked transfer: the same protocol as `pause`, setting the
    /// status back to `Downloading` on success.
    pub fn resume(&mut self, id: u64, engine_result: Result<(), String>) -> (r: Result<
        (),
        SessionError,
    >)
        requires
            old(self).wf(),
        ensures
            final(self).wf(),
            final(self).last() == old(self).last(),
            !contains_id(old(self)@, id) ==> r == Err::<(), SessionError>(
                SessionError::NotFound(id),
            ) && final(self)@ == old(self)@,
            contains_id(old(self)@, id) ==> match engine_result {
                Err(m) => r == Err::<(), SessionError>(SessionError::EngineError(m)) && final(self)@
                    == old(self)@,
                Ok(u) => {
                    &&& r == Ok::<(), SessionError>(())
                    &&& final(self)@ == spec_set_status(old(self)@, id, TorrentStatus::Downloading)
                    &&& contains_id(final(self)@, id)
                    &&& spec_get(final(self)@, id) == with_status(
                        spec_get(old(self)@, id),
                        TorrentStatus::Downloading,
                    )
                    &&& forall|k: int|
                        0 <= k < old(self)@.len() && (#[trigger] old(self)@[k]).id != id
                            ==> final(self)@[k] == old(self)@[k]
                },
            },
    {
        self.set_status_command(id, TorrentStatus::Downloading, engine_result)
    }

    /// Shared decision logic of `pause` and `resume`.
    fn set_status_command(
        &mut self,
        id: u64,
        status: TorrentStatus,
        engine_result: Result<(), String>,
    ) -> (r: Result<(), SessionError>)
        requires
            old(self).wf(),
        ensures
            final(self).wf(),
            final(self).last() == old(self).last(),
            !contains_id(old(self)@, id) ==> r == Err::<(), SessionError>(
                SessionError::NotFound(id),
            ) && final(self)@ == old(self)@,
            contains_id(old(self)@, id) ==> match engine_result {
                Err(m) => r == Err::<(), SessionError>(SessionError::EngineError(m)) && final(self)@
                    == old(self)@,
                Ok(u) => {
                    &&& r == Ok::<(), SessionError>(())
                    &&& final(self)@ == spec_set_status(old(self)@, id, status)
                    &&& contains_id(final(self)@, id)
                    &&& spec_get(final(self)@, id) == with_status(spec_get(old(self)@, id), status)
                    &&& forall|k: int|
                        0 <= k < old(self)@.len() && (#[trigger] old(self)@[k]).id != id
                            ==> final(self)@[k] == old(self)@[k]
                },
            },
    {
        if !self.registry.contains(id) {
            return Err(SessionError::NotFound(id));
        }
        match engine_result {
            Err(m) => Err(SessionError::EngineError(m)),
            Ok(_) => {
                self.registry.set_status(id, status);
                proof {
                    crate::registry::lemma_set_status_shape(old(self)@, id, status);
                    assert forall|k: int| 0 <= k < self@.len() implies 1 <= (
                    #[trigger] self@[k]).id <= self.last() by {
                        assert(self@[k].id == old(self)@[k].id);
                        assert(1 <= old(self)@[k].id <= old(self).last());
                    }
                    let s0 = old(self)@;
                    let i = crate::registry::idx_of(s0, id);
                    assert(0 <= i < s0.len() && s0[i].id == id);
                    assert(self@ == s0.update(i, with_status(s0[i], status)));
                    assert(self@[i].id == id);
                    crate::registry::lemma_idx_of_unique(self@, id, i);
                    assert forall|k: int|
                        0 <= k < s0.len() && (#[trigger] s0[k]).id != id implies self@[k]
                        == s0[k] by {
                        assert(k != i);
                    }
                }
                Ok(())
            },
        }
    }

    /// Forgets a tracked transfer once the engine has acknowledged its
    /// removal.
    ///
    /// The caller checks membership first, then asks the engine to stop and
    /// discard the transfer, and passes the outcome in as `engine_result`.
    /// An absent identifier fails with `NotFound` — so does a second removal
    /// of the same identifier. When the engine call failed the entry is left
    /// intact and the failure surfaces as `EngineError`. On success the
    /// entry is deleted and the identifier never resolves again.
    pub fn remove(&mut self, id: u64, engine_result: Result<(), String>) -> (r: Result<
        (),
        SessionError,
    >)
        requires
            old(self).wf(),
        ensures
            final(self).wf(),
            final(self).last() == old(self).last(),
            !contains_id(old(self)@, id) ==> r == Err::<(), SessionError>(
                SessionError::NotFound(id),
            ) && final(self)@ == old(self)@,
            contains_id(old(self)@, id) ==> match engine_result {
                Err(m) => r == Err::<(), SessionError>(SessionError::EngineError(m)) && final(self)@
                    == old(self)@,
                Ok(u) => r == Ok::<(), SessionError>(()) && final(self)@ == spec_remove(
                    old(self)@,
                    id,
                ) && !contains_id(final(self)@, id),
            },
    {
        if !self.registry.contains(id) {
            return Err(SessionError::NotFound(id));
        }
        match engine_result {
            Err(m) => Err(SessionError::EngineError(m)),
            Ok(_) => {
                self.registry.remove(id);
                proof {
                    crate::registry::lemma_remove_shape(old(self)@, id);
                    assert forall|k: int| 0 <= k < self@.len() implies 1 <= (
                    #[trigger] self@[k]).id <= self.last() by {
                        assert(contains_id(old(self)@, self@[k].id));
                        let w = crate::registry::idx_of(old(self)@, self@[k].id);
                        assert(1 <= old(self)@[w].id <= old(self).last());
                    }
                }
                Ok(())
            },
        }
    }

    /// Applies one engine alert: the single step of the alert consumer.
    ///
    /// The matching entry's progress, byte counters and peer count are
    /// updated with clamping so that `downloaded <= total` always holds, and
    /// its status is derived from the alert — except that an explicitly
    /// `Paused` transfer is never resurrected by a stale alert. An alert for
    /// an unknown identifier is silently dropped, since a removal may race
    /// an in-flight alert; nothing else changes either way.
    pub fn apply_alert(&mut self, alert: StatsAlert)
        requires
            old(self).wf(),
        ensures
            final(self).wf(),
            final(self).last() == old(self).last(),
            final(self)@ == spec_apply_alert(old(self)@, alert),
            !contains_id(old(self)@, alert.id) ==> final(self)@ == old(self)@,
            contains_id(old(self)@, alert.id) ==> {
                &&& contains_id(final(self)@, alert.id)
                &&& spec_get(final(self)@, alert.id) == apply_stats_to(
                    spec_get(old(self)@, alert.id),
                    alert,
                )
                &&& forall|k: int|
                    0 <= k < old(self)@.len() && (#[trigger] old(self)@[k]).id != alert.id
                        ==> final(self)@[k] == old(self)@[k]
            },
    {
        self.registry.apply_stats(alert);
        proof {
            crate::registry::lemma_apply_alert_shape(old(self)@, alert);
            assert forall|k: int| 0 <= k < self@.len() implies 1 <= (#[trigger] self@[k]).id
                <= self.last() by {
                assert(self@[k].id == old(self)@[k].id);
                assert(1 <= old(self)@[k].id <= old(self).last());
            }
            if contains_id(old(self)@, alert.id) {
                let s0 = old(self)@;
                let i = crate::registry::idx_of(s0, alert.id);
                assert(0 <= i < s0.len() && s0[i].id == alert.id);
                assert(self@ == s0.update(i, apply_stats_to(s0[i], alert)));
                assert(self@[i].id == alert.id);
                crate::registry::lemma_idx_of_unique(self@, alert.id, i);
                assert forall|k: int|
                    0 <= k < s0.len() && (#[trigger] s0[k]).id != alert.id implies self@[k]
                    == s0[k] by {
                    assert(k != i);
                }
            }
        }
    }
}

} // verus!
