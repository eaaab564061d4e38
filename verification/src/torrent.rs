//! The data model of the session: transfer snapshots, engine alerts reduced
//! to plain values, and the error vocabulary of the commands.

use vstd::prelude::*;

verus! {

/// Completion is measured in hundredths of a percent, so `PROGRESS_MAX`
/// (10000 units) means the transfer is fully fetched.
pub const PROGRESS_MAX: u32 = 10_000;

/// Lifecycle status of one tracked transfer.
///
/// Commands move a transfer between `Paused` and `Downloading`; an engine
/// alert that reports the transfer as fully fetched moves it to `Seeding`.
#[derive(Clone, Copy, Debug, PartialEq, Eq, Structural)]
pub enum TorrentStatus {
    Downloading,
    Paused,
    Seeding,
}

/// Snapshot of one tracked transfer, as handed out by queries.
#[derive(Debug)]
pub struct TorrentInfo {
    /// Unique identifier, assigned once and never reused within a run.
    pub id: u64,
    /// Display name, fixed at creation.
    pub name: String,
    pub status: TorrentStatus,
    /// Completion in hundredths of a percent, between 0 and `PROGRESS_MAX`.
    pub progress: u32,
    /// Bytes fetched so far; never exceeds `total`.
    pub downloaded: u64,
    /// Total size in bytes, as last reported by the engine.
    pub total: u64,
    /// Currently connected peers.
    pub peers: u32,
}

impl TorrentInfo {
    /// A snapshot is valid when its progress lies in range and its byte
    /// counters are consistent.
    pub open spec fn valid(&self) -> bool {
        self.progress <= PROGRESS_MAX && self.downloaded <= self.total
    }
}

impl Clone for TorrentInfo {
    fn clone(&self) -> (r: Self)
        ensures
            r == *self,
    {
        TorrentInfo {
            id: self.id,
            name: self.name.clone(),
            status: self.status,
            progress: self.progress,
            downloaded: self.downloaded,
            total: self.total,
            peers: self.peers,
        }
    }
}

/// One progress event from the transfer engine, already reduced to plain
/// values by the caller that drains the engine's alert channel.
#[derive(Clone, Copy, Debug, PartialEq, Eq, Structural)]
pub struct StatsAlert {
    /// Identifier of the transfer the alert is about.
    pub id: u64,
    /// Reported completion in hundredths of a percent; clamped to
    /// `PROGRESS_MAX` when applied.
    pub progress: u32,
    /// Reported bytes fetched; clamped to `total` when applied.
    pub downloaded: u64,
    /// Reported total size in bytes.
    pub total: u64,
    /// Reported count of connected peers.
    pub peers: u32,
    /// True when the engine reports the transfer as fully fetched.
    pub is_seeding: bool,
}

/// Errors surfaced by the session commands.
#[derive(Debug)]
pub enum SessionError {
    /// The operation referenced an identifier absent from the registry.
    NotFound(u64),
    /// The engine rejected a new transfer; carries the engine's message.
    CreationError(String),
    /// An engine call failed for an existing transfer; carries the engine's
    /// message.
    EngineError(String),
    /// The identifier space is exhausted; adding more transfers is refused
    /// rather than reusing an identifier.
    IdentifierOverflow,
}

} // verus!
