use torrent_session::manager::TorrentManager;
use torrent_session::registry::Registry;
use torrent_session::torrent::{
    SessionError, StatsAlert, TorrentInfo, TorrentStatus, PROGRESS_MAX,
};

fn info(id: u64, name: &str) -> TorrentInfo {
    TorrentInfo {
        id,
        name: name.to_string(),
        status: TorrentStatus::Downloading,
        progress: 0,
        downloaded: 0,
        total: 0,
        peers: 0,
    }
}

fn alert(id: u64, progress: u32, downloaded: u64, total: u64, peers: u32) -> StatsAlert {
    StatsAlert { id, progress, downloaded, total, peers, is_seeding: false }
}

#[test]
fn unknown_ids_report_not_found() {
    let mut m = TorrentManager::new();
    assert!(matches!(m.get(1), Err(SessionError::NotFound(1))));
    assert!(matches!(m.pause(1, Ok(())), Err(SessionError::NotFound(1))));
    assert!(matches!(m.resume(1, Ok(())), Err(SessionError::NotFound(1))));
    assert!(matches!(m.remove(1, Ok(())), Err(SessionError::NotFound(1))));

    m.add_torrent("known".to_string(), Ok(())).unwrap();
    assert!(matches!(m.get(7), Err(SessionError::NotFound(7))));
    assert!(matches!(m.pause(7, Ok(())), Err(SessionError::NotFound(7))));
    assert!(matches!(m.resume(7, Ok(())), Err(SessionError::NotFound(7))));
    assert!(matches!(m.remove(7, Ok(())), Err(SessionError::NotFound(7))));
    assert_eq!(m.len(), 1);
}

#[test]
fn add_then_get_returns_fresh_snapshot() {
    let mut m = TorrentManager::new();
    let added = m.add_torrent("Ubuntu ISO".to_string(), Ok(())).unwrap();
    assert_eq!(added.id, 1);
    let t = m.get(added.id).unwrap();
    assert_eq!(t.id, 1);
    assert_eq!(t.name, "Ubuntu ISO");
    assert!(matches!(t.status, TorrentStatus::Downloading));
    assert_eq!(t.progress, 0);
    assert_eq!(t.downloaded, 0);
    assert_eq!(t.total, 0);
    assert_eq!(t.peers, 0);
}

#[test]
fn pause_then_resume_restores_downloading_and_keeps_counters() {
    let mut m = TorrentManager::new();
    let id = m.add_torrent("X".to_string(), Ok(())).unwrap().id;
    m.apply_alert(alert(id, 4200, 17, 40, 9));
    let before = m.get(id).unwrap();

    m.pause(id, Ok(())).unwrap();
    assert!(matches!(m.get(id).unwrap().status, TorrentStatus::Paused));
    m.resume(id, Ok(())).unwrap();

    let after = m.get(id).unwrap();
    assert!(matches!(after.status, TorrentStatus::Downloading));
    assert_eq!(after.progress, before.progress);
    assert_eq!(after.downloaded, before.downloaded);
    assert_eq!(after.total, before.total);
    assert_eq!(after.peers, before.peers);
    assert_eq!(after.name, before.name);
}

#[test]
fn remove_then_get_and_second_remove_report_not_found() {
    let mut m = TorrentManager::new();
    let id = m.add_torrent("X".to_string(), Ok(())).unwrap().id;
    m.remove(id, Ok(())).unwrap();
    assert!(matches!(m.get(id), Err(SessionError::NotFound(i)) if i == id));
    assert!(matches!(m.remove(id, Ok(())), Err(SessionError::NotFound(i)) if i == id));
}

#[test]
fn snapshots_never_show_downloaded_over_total() {
    let mut m = TorrentManager::new();
    let a = m.add_torrent("a".to_string(), Ok(())).unwrap().id;
    let b = m.add_torrent("b".to_string(), Ok(())).unwrap().id;
    // the engine misreports more bytes fetched than the total: clamped
    m.apply_alert(alert(a, 5000, 30, 20, 3));
    m.apply_alert(alert(b, 1000, 5, 50, 1));
    for t in m.list() {
        assert!(t.downloaded <= t.total);
    }
    let t = m.get(a).unwrap();
    assert_eq!(t.downloaded, 20);
    assert_eq!(t.total, 20);
}

#[test]
fn identifiers_strictly_increase_even_after_removals() {
    let mut m = TorrentManager::new();
    let first = m.add_torrent("a".to_string(), Ok(())).unwrap().id;
    let second = m.add_torrent("b".to_string(), Ok(())).unwrap().id;
    assert_eq!((first, second), (1, 2));
    // remove the highest id: it must not be handed out again
    m.remove(second, Ok(())).unwrap();
    let third = m.add_torrent("c".to_string(), Ok(())).unwrap().id;
    assert_eq!(third, 3);
    assert!(third > second && second > first);
}

#[test]
fn full_session_scenario() {
    let mut m = TorrentManager::new();
    assert_eq!(m.len(), 0);

    let added = m.add_torrent("X".to_string(), Ok(())).unwrap();
    assert_eq!(added.id, 1);
    assert!(matches!(added.status, TorrentStatus::Downloading));

    // progress at 50.00 %, ten peers
    m.apply_alert(alert(1, 5000, 10, 20, 10));
    let t = m.get(1).unwrap();
    assert_eq!(t.progress, 5000);
    assert_eq!(t.peers, 10);

    m.pause(1, Ok(())).unwrap();
    assert!(matches!(m.get(1).unwrap().status, TorrentStatus::Paused));

    // a stale alert arrives while paused: counters update, status does not
    m.apply_alert(alert(1, 6000, 12, 20, 10));
    let t = m.get(1).unwrap();
    assert!(matches!(t.status, TorrentStatus::Paused));
    assert_eq!(t.progress, 6000);

    m.resume(1, Ok(())).unwrap();
    assert!(matches!(m.get(1).unwrap().status, TorrentStatus::Downloading));

    m.remove(1, Ok(())).unwrap();
    assert!(matches!(m.get(1), Err(SessionError::NotFound(1))));
}

#[test]
fn failed_creation_leaves_registry_unchanged() {
    let mut m = TorrentManager::new();
    let r = m.add_torrent("X".to_string(), Err("engine refused".to_string()));
    assert!(matches!(r, Err(SessionError::CreationError(msg)) if msg == "engine refused"));
    assert_eq!(m.len(), 0);
    // the failed attempt did not burn an identifier either
    assert_eq!(m.add_torrent("Y".to_string(), Ok(())).unwrap().id, 1);
}

#[test]
fn failed_engine_pause_leaves_status_unchanged() {
    let mut m = TorrentManager::new();
    let id = m.add_torrent("X".to_string(), Ok(())).unwrap().id;
    let r = m.pause(id, Err("io".to_string()));
    assert!(matches!(r, Err(SessionError::EngineError(msg)) if msg == "io"));
    assert!(matches!(m.get(id).unwrap().status, TorrentStatus::Downloading));
}

#[test]
fn failed_engine_removal_keeps_entry_intact() {
    let mut m = TorrentManager::new();
    let id = m.add_torrent("X".to_string(), Ok(())).unwrap().id;
    let r = m.remove(id, Err("busy".to_string()));
    assert!(matches!(r, Err(SessionError::EngineError(msg)) if msg == "busy"));
    assert_eq!(m.get(id).unwrap().id, id);
    assert_eq!(m.len(), 1);
}

#[test]
fn exhausted_identifier_space_fails_add() {
    let mut m = TorrentManager::from_parts(Vec::new(), u64::MAX).unwrap();
    assert!(!m.can_allocate());
    let r = m.add_torrent("X".to_string(), Ok(()));
    assert!(matches!(r, Err(SessionError::IdentifierOverflow)));
    assert_eq!(m.len(), 0);
}

#[test]
fn from_parts_validates_the_invariant() {
    // duplicate identifiers
    let r = TorrentManager::from_parts(vec![info(1, "a"), info(1, "b")], 5);
    assert!(r.is_none());
    // identifier zero
    assert!(TorrentManager::from_parts(vec![info(0, "a")], 5).is_none());
    // identifier above the high-water mark
    assert!(TorrentManager::from_parts(vec![info(6, "a")], 5).is_none());
    // inconsistent byte counters
    let mut bad = info(1, "a");
    bad.downloaded = 10;
    bad.total = 5;
    assert!(TorrentManager::from_parts(vec![bad], 5).is_none());
    // progress out of range
    let mut bad = info(1, "a");
    bad.progress = PROGRESS_MAX + 1;
    assert!(TorrentManager::from_parts(vec![bad], 5).is_none());
    // a well-formed snapshot is accepted unchanged
    let mut m = TorrentManager::from_parts(vec![info(1, "a"), info(4, "b")], 5).unwrap();
    let listed = m.list();
    assert_eq!(listed.len(), 2);
    assert_eq!(listed[0].id, 1);
    assert_eq!(listed[1].id, 4);
    assert_eq!(m.add_torrent("c".to_string(), Ok(())).unwrap().id, 6);
}

#[test]
fn stray_alert_for_unknown_id_is_dropped() {
    let mut m = TorrentManager::new();
    let id = m.add_torrent("X".to_string(), Ok(())).unwrap().id;
    m.apply_alert(alert(99, 9000, 1, 2, 3));
    let t = m.get(id).unwrap();
    assert_eq!(t.progress, 0);
    assert_eq!(m.len(), 1);
    assert!(matches!(m.get(99), Err(SessionError::NotFound(99))));
}

#[test]
fn seeding_alert_moves_status_unless_paused() {
    let mut m = TorrentManager::new();
    let id = m.add_torrent("X".to_string(), Ok(())).unwrap().id;
    let done = StatsAlert {
        id,
        progress: PROGRESS_MAX,
        downloaded: 20,
        total: 20,
        peers: 2,
        is_seeding: true,
    };
    m.apply_alert(done);
    assert!(matches!(m.get(id).unwrap().status, TorrentStatus::Seeding));
    // an explicit pause wins over a later seeding alert
    m.pause(id, Ok(())).unwrap();
    m.apply_alert(done);
    assert!(matches!(m.get(id).unwrap().status, TorrentStatus::Paused));
}

#[test]
fn reported_progress_is_clamped_to_full() {
    let mut m = TorrentManager::new();
    let id = m.add_torrent("X".to_string(), Ok(())).unwrap().id;
    m.apply_alert(alert(id, PROGRESS_MAX + 500, 5, 10, 1));
    assert_eq!(m.get(id).unwrap().progress, PROGRESS_MAX);
}

#[test]
fn registry_insert_refuses_duplicate_identifier() {
    let mut r = Registry::new();
    assert!(r.insert(info(1, "a")));
    assert!(!r.insert(info(1, "b")));
    assert_eq!(r.len(), 1);
    assert_eq!(r.get(1).unwrap().name, "a");
}

#[test]
fn registry_updates_are_noops_for_absent_ids() {
    let mut r = Registry::new();
    r.insert(info(1, "a"));
    r.set_status(2, TorrentStatus::Paused);
    r.apply_stats(alert(2, 100, 1, 2, 3));
    assert!(!r.remove(2));
    let t = r.get(1).unwrap();
    assert!(matches!(t.status, TorrentStatus::Downloading));
    assert_eq!(t.progress, 0);
    assert!(r.contains(1));
    assert!(!r.contains(2));
}

#[test]
fn list_returns_entries_in_insertion_order() {
    let mut m = TorrentManager::new();
    m.add_torrent("a".to_string(), Ok(())).unwrap();
    m.add_torrent("b".to_string(), Ok(())).unwrap();
    m.add_torrent("c".to_string(), Ok(())).unwrap();
    let listed = m.list();
    let ids: Vec<u64> = listed.iter().map(|t| t.id).collect();
    let names: Vec<&str> = listed.iter().map(|t| t.name.as_str()).collect();
    assert_eq!(ids, vec![1, 2, 3]);
    assert_eq!(names, vec!["a", "b", "c"]);
}
