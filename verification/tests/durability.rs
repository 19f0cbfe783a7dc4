use std::collections::HashMap;

use fiducia_admin::json::Json;
use fiducia_admin::session::Session;
use fiducia_admin::streaming::InfraOperationsRow;
use fiducia_admin::sync::{
    finish_catchup_page, sync_write_fingerprint, SyncCatchupChange, SyncWriteError, SyncWriteOutcome,
    SyncWriteRequest,
};
use fiducia_admin::sync_transaction::{
    sync_write_infra_operations, DatabaseAction, DatabaseEvent, KeyRecord,
};

type Keys = HashMap<String, (Option<String>, Option<i64>)>;
type Rows = HashMap<u128, (i64, String)>;

/// A store with one transaction at a time.
#[derive(Default)]
struct Store {
    keys: Keys,
    rows: Rows,
    open: Option<(Keys, Rows)>,
}

fn parsed(text: &str) -> Json {
    match Json::from_bytes(text.as_bytes()) {
        Some(value) => value,
        None => panic!("not JSON: {text}"),
    }
}

fn row(id: u128, version: i64, status: &str) -> InfraOperationsRow {
    InfraOperationsRow {
        id: format!("{id:032x}"),
        version,
        status: status.to_string(),
        document: Json::Null,
    }
}

impl Store {
    fn perform(&mut self, action: DatabaseAction) -> DatabaseEvent {
        if let DatabaseAction::Begin = action {
            self.open = Some((self.keys.clone(), self.rows.clone()));
            return DatabaseEvent::Done;
        }
        let (keys, rows) = match self.open.as_mut() {
            Some(open) => open,
            None => return DatabaseEvent::Failed,
        };
        match action {
            DatabaseAction::ClaimKey { key, fingerprint } => {
                if keys.contains_key(&key) {
                    return DatabaseEvent::Rows(0);
                }
                keys.insert(key, (Some(fingerprint), None));
                DatabaseEvent::Rows(1)
            }
            DatabaseAction::ReadKey { key } => DatabaseEvent::Key(keys.get(&key).map(|kept| KeyRecord {
                fingerprint: kept.0.clone(),
                committed_version: kept.1,
            })),
            DatabaseAction::ReadRow { id } => {
                DatabaseEvent::Row(rows.get(&id).map(|kept| row(id, kept.0, &kept.1)))
            }
            DatabaseAction::UpdateRow { id, version, patch } => match rows.get_mut(&id) {
                Some(kept) if kept.0 == version => {
                    kept.0 += 1;
                    if let Some(status) = patch.status {
                        kept.1 = status;
                    }
                    DatabaseEvent::Rows(1)
                }
                _ => DatabaseEvent::Rows(0),
            },
            DatabaseAction::CompleteKey { key, fingerprint, version } => match keys.get_mut(&key) {
                Some(kept) if kept.0.as_deref() == Some(fingerprint.as_str()) => {
                    kept.1 = Some(version);
                    DatabaseEvent::Rows(1)
                }
                _ => DatabaseEvent::Rows(0),
            },
            DatabaseAction::Commit => {
                if let Some((keys, rows)) = self.open.take() {
                    self.keys = keys;
                    self.rows = rows;
                }
                DatabaseEvent::Done
            }
            DatabaseAction::Rollback => {
                self.open = None;
                DatabaseEvent::Done
            }
            DatabaseAction::Begin | DatabaseAction::Rest => DatabaseEvent::Done,
        }
    }

    fn write(&mut self, request: &SyncWriteRequest, key: &str) -> Result<SyncWriteOutcome, SyncWriteError> {
        let operator = Session::test_admin_bearer("00000000-0000-0000-0000-000000000001", "verified.jwt");
        let fingerprint = sync_write_fingerprint(&operator, "infra_operations", request);
        let mut write = sync_write_infra_operations(request, key, &fingerprint, true)?;
        loop {
            match write.action() {
                DatabaseAction::Rest => match write.result() {
                    Some(result) => return result,
                    None => panic!("a resting write has no result"),
                },
                action => write = write.advance(self.perform(action)),
            }
        }
    }
}

fn request(status: &str, base_version: i64) -> SyncWriteRequest {
    SyncWriteRequest {
        id: "00000000-0000-0000-0000-000000000007".to_string(),
        op: Some("upsert".to_string()),
        payload: Some(parsed(&format!("{{\"status\":\"{status}\"}}"))),
        base_version: Some(base_version),
        key: None,
    }
}

#[test]
fn a_write_is_kept_once_and_replayed_exactly() {
    let mut store = Store::default();
    let applied = request("applied", 1);
    assert!(matches!(store.write(&applied, "key-1"), Err(SyncWriteError::NotFound)));
    assert!(store.keys.is_empty(), "a failed row mutation rolls its key claim back");

    store.rows.insert(7, (1, "requested".to_string()));
    let committed = match store.write(&applied, "key-1") {
        Ok(SyncWriteOutcome::Committed(row)) => row.version,
        _ => panic!("first successful write must commit"),
    };
    assert_eq!(committed, 2);
    assert_eq!(store.rows[&7], (2, "applied".to_string()));
    assert_eq!(store.keys["key-1"].1, Some(2));

    assert!(matches!(store.write(&applied, "key-1"), Ok(SyncWriteOutcome::Replay(2))));
    assert!(matches!(store.write(&request("failed", 1), "key-1"), Err(SyncWriteError::IdempotencyMismatch)));
    assert!(matches!(
        store.write(&request("failed", 1), "key-2"),
        Err(SyncWriteError::VersionConflict { expected: 1, actual: 2 })
    ));
    assert!(!store.keys.contains_key("key-2"), "a failed CAS rolls its key claim back");
    assert_eq!(store.rows[&7], (2, "applied".to_string()));
}

#[test]
fn an_empty_patch_and_a_delete_still_advance_the_version() {
    let mut store = Store::default();
    store.rows.insert(7, (4, "requested".to_string()));
    let mut empty = request("applied", 4);
    empty.payload = None;
    assert!(matches!(store.write(&empty, "key-1"), Ok(SyncWriteOutcome::Committed(row)) if row.version == 5));
    assert_eq!(store.rows[&7], (5, "requested".to_string()));
    let mut delete = request("applied", 5);
    delete.op = Some("delete".to_string());
    assert!(matches!(store.write(&delete, "key-2"), Ok(SyncWriteOutcome::Committed(row)) if row.version == 6));
    assert_eq!(store.rows[&7], (6, "failed".to_string()), "an audit record is marked, not dropped");
    assert!(matches!(store.write(&request("lost", 6), "key-3"), Err(SyncWriteError::InvalidPayload)));
    assert_eq!(store.rows[&7].0, 6);
}

#[test]
fn a_change_is_not_committed_before_its_commit_is_confirmed() {
    let mut store = Store::default();
    store.rows.insert(7, (1, "requested".to_string()));
    let mut write = match sync_write_infra_operations(&request("applied", 1), "key-1", "print", true) {
        Ok(write) => write,
        Err(_) => panic!("the write was turned down"),
    };
    loop {
        match write.action() {
            DatabaseAction::Commit => break,
            action => write = write.advance(store.perform(action)),
        }
        assert_eq!(store.rows[&7], (1, "requested".to_string()), "nobody else sees it yet");
    }
    assert!(matches!(write.advance(DatabaseEvent::Failed).result(), Some(Err(SyncWriteError::Database(_)))));
}

#[test]
fn pages_of_one_walk_the_whole_feed() {
    let feed: Vec<(i64, &str, i64)> = vec![(11, "upsert", 2), (12, "delete", 2), (13, "upsert", 1)];
    let mut cursor: i64 = 10;
    let mut seen: Vec<i64> = Vec::new();
    loop {
        let fetched: Vec<SyncCatchupChange> = feed
            .iter()
            .filter(|change| change.0 > cursor)
            .take(2)
            .map(|change| SyncCatchupChange {
                sequence: change.0,
                table_name: "infra_operations".to_string(),
                op: change.1.to_string(),
                id: format!("op-{}", change.0),
                version: change.2,
                row: None,
            })
            .collect();
        let page = finish_catchup_page(fetched, cursor, 1);
        assert!(page.changes.iter().all(|change| change.sequence > cursor));
        seen.extend(page.changes.iter().map(|change| change.sequence));
        cursor = page.next_cursor;
        if !page.has_more {
            break;
        }
    }
    assert_eq!(seen, vec![11, 12, 13]);
    assert_eq!(cursor, 13);
}
