use taskchampion_swift::sync::{
    key_id_preview, secret_strength, suggests_key_mismatch, SecretStrength, SyncAction, SyncEvent,
    SyncKind, SyncSession,
};
use taskchampion_swift::sync::SyncEvent::{Failed, Panicked, Succeeded};

fn run(kind: SyncKind, events: &[SyncEvent]) -> Vec<SyncAction> {
    let (mut s, first) = SyncSession::new(kind);
    let mut actions = vec![first];
    for e in events {
        actions.push(s.on_event(*e));
    }
    actions
}

#[test]
fn sync_with_server_succeeds_after_connect_and_sync() {
    assert_eq!(
        run(SyncKind::Local, &[Succeeded, Succeeded]),
        vec![SyncAction::ConnectServer, SyncAction::RunSync, SyncAction::Finish(true)]
    );
    assert_eq!(
        run(SyncKind::Remote, &[Failed]),
        vec![SyncAction::ConnectServer, SyncAction::Finish(false)]
    );
    assert_eq!(
        run(SyncKind::Local, &[Succeeded, Panicked, Succeeded]),
        vec![
            SyncAction::ConnectServer,
            SyncAction::RunSync,
            SyncAction::Finish(false),
            SyncAction::Finish(false)
        ]
    );
}

#[test]
fn cloud_sync_counts_tasks_afterwards() {
    assert_eq!(
        run(SyncKind::Gcp, &[Succeeded, Succeeded, Failed]),
        vec![
            SyncAction::ConnectServer,
            SyncAction::RunSync,
            SyncAction::CountTasks,
            SyncAction::Finish(true)
        ]
    );
    assert_eq!(
        run(SyncKind::Aws, &[Succeeded, Succeeded, Panicked]),
        vec![
            SyncAction::ConnectServer,
            SyncAction::RunSync,
            SyncAction::CountTasks,
            SyncAction::Finish(false)
        ]
    );
}

#[test]
fn sync_without_server_rebuilds_working_set() {
    assert_eq!(
        run(SyncKind::NoServer, &[Succeeded]),
        vec![SyncAction::RebuildWorkingSet, SyncAction::Finish(true)]
    );
    assert_eq!(
        run(SyncKind::NoServer, &[Failed]),
        vec![SyncAction::RebuildWorkingSet, SyncAction::Finish(false)]
    );
}

#[test]
fn secret_strength_thresholds() {
    assert_eq!(secret_strength(0), SecretStrength::VeryShort);
    assert_eq!(secret_strength(15), SecretStrength::VeryShort);
    assert_eq!(secret_strength(16), SecretStrength::Short);
    assert_eq!(secret_strength(31), SecretStrength::Short);
    assert_eq!(secret_strength(32), SecretStrength::Adequate);
}

#[test]
fn key_mismatch_hint() {
    assert!(suggests_key_mismatch("Server(\"unsealing failed\")"));
    assert!(suggests_key_mismatch("Other(Unspecified)"));
    assert!(!suggests_key_mismatch("Server(\"timeout\")"));
}

#[test]
fn access_key_preview() {
    assert_eq!(key_id_preview("ABCDEFGHIJKLMNOP"), "ABCDEFGH");
    assert_eq!(key_id_preview("short"), "short");
}
