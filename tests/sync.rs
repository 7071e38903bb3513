use vaultpad::models::{Project, SyncStatus};
use vaultpad::projects::{edited_status, new_local_project, plan_delete, DeleteAction};
use vaultpad::remote::{decimal_i64, project_from_server, project_payload, projects_from_server, ServerProject};
use vaultpad::storage::StorageError;
use vaultpad::sync::{download_candidates, mark_synced, upload_action, SyncAction, SyncEvent, SyncPass, UploadAction};

fn record(id: &str, server_id: Option<&str>, status: SyncStatus) -> Project {
    Project {
        id: id.to_string(),
        encrypted_name: vec![1, 2],
        encrypted_content: vec![3],
        sort_order: 0,
        created_at: "t0".to_string(),
        updated_at: "t0".to_string(),
        server_id: server_id.map(|s| s.to_string()),
        sync_status: status,
    }
}

/// One pass against in-memory stores; returns (uploaded, downloaded).
fn run_pass(local: &mut Vec<Project>, remote: &mut Vec<Project>, next_id: &mut u32, delete_fails: bool) -> (usize, usize) {
    let mut pass = SyncPass::new(local.clone(), remote);
    let mut event = SyncEvent::Done;
    loop {
        event = match pass.advance(event) {
            SyncAction::CreateRemote(p) => {
                *next_id += 1;
                let sid = next_id.to_string();
                let mut r = p.clone();
                r.id = sid.clone();
                r.server_id = Some(sid.clone());
                r.sync_status = SyncStatus::Synced;
                remote.push(r);
                SyncEvent::Created(sid)
            }
            SyncAction::UpdateRemote(_) => SyncEvent::Done,
            SyncAction::DeleteRemote(sid) => {
                if delete_fails {
                    SyncEvent::Failed("remote unavailable".to_string())
                } else {
                    remote.retain(|r| r.id != sid);
                    SyncEvent::Done
                }
            }
            SyncAction::SaveLocal(p) => {
                let pos = local.iter().position(|q| q.id == p.id).unwrap();
                local[pos] = p;
                SyncEvent::Done
            }
            SyncAction::DeleteLocal(id) => {
                local.retain(|q| q.id != id);
                SyncEvent::Done
            }
            SyncAction::InsertLocal(p) => {
                local.push(p);
                SyncEvent::Done
            }
            SyncAction::Finished(up, down) => return (up, down),
            SyncAction::Aborted(m) => panic!("pass stopped: {}", m),
        };
    }
}

fn remote_record(id: &str) -> Project {
    record(id, Some(id), SyncStatus::Synced)
}

#[test]
fn actions_by_status() {
    assert!(matches!(upload_action(&record("a", None, SyncStatus::Local)), UploadAction::Create));
    assert!(matches!(upload_action(&record("a", None, SyncStatus::Modified)), UploadAction::Create));
    match upload_action(&record("a", Some("7"), SyncStatus::Modified)) {
        UploadAction::Update(s) => assert_eq!(s, "7"),
        other => panic!("unexpected {:?}", other),
    }
    match upload_action(&record("a", Some("7"), SyncStatus::Deleted)) {
        UploadAction::Remove(s) => assert_eq!(s, Some("7".to_string())),
        other => panic!("unexpected {:?}", other),
    }
    assert!(matches!(upload_action(&record("a", Some("7"), SyncStatus::Synced)), UploadAction::Skip));
}

#[test]
fn mark_synced_sets_remote_id() {
    let p = mark_synced(&record("a", None, SyncStatus::Local), "12".to_string());
    assert_eq!(p.server_id, Some("12".to_string()));
    assert_eq!(p.sync_status, SyncStatus::Synced);
    assert_eq!(p.id, "a");
    assert_eq!(p.encrypted_name, vec![1, 2]);
}

#[test]
fn downloads_skip_known_remote_ids() {
    let local = vec![record("a", Some("1"), SyncStatus::Synced), record("b", None, SyncStatus::Local)];
    let remote = vec![remote_record("1"), remote_record("2"), remote_record("3")];
    let d = download_candidates(&local, &remote);
    let ids: Vec<&str> = d.iter().map(|p| p.id.as_str()).collect();
    assert_eq!(ids, vec!["2", "3"]);
}

#[test]
fn second_pass_moves_nothing() {
    let mut local = vec![
        record("a", None, SyncStatus::Local),
        record("b", Some("5"), SyncStatus::Modified),
        record("c", Some("6"), SyncStatus::Synced),
        record("d", Some("8"), SyncStatus::Deleted),
    ];
    let mut remote = vec![remote_record("5"), remote_record("6"), remote_record("8"), remote_record("9")];
    let mut next_id = 100;
    let (up, down) = run_pass(&mut local, &mut remote, &mut next_id, false);
    assert_eq!((up, down), (2, 1));
    let (up, down) = run_pass(&mut local, &mut remote, &mut next_id, false);
    assert_eq!((up, down), (0, 0));
}

#[test]
fn record_lifecycle() {
    let p = new_local_project("x".to_string(), vec![1], vec![2], 4, "now".to_string());
    assert_eq!(p.sync_status, SyncStatus::Local);
    assert_eq!(p.server_id, None);
    assert_eq!(p.created_at, p.updated_at);
    let mut local = vec![p];
    let mut remote = Vec::new();
    let mut next_id = 0;
    run_pass(&mut local, &mut remote, &mut next_id, false);
    assert_eq!(local[0].sync_status, SyncStatus::Synced);
    assert!(local[0].server_id.is_some());
    assert_eq!(edited_status(local[0].sync_status), SyncStatus::Modified);
    match plan_delete(&local[0]) {
        DeleteAction::MarkDeleted(q) => local[0] = q,
        DeleteAction::RemoveNow => panic!("an uploaded record is marked, not removed"),
    }
    assert_eq!(local[0].sync_status, SyncStatus::Deleted);
    run_pass(&mut local, &mut remote, &mut next_id, true);
    assert!(local.is_empty());
}

#[test]
fn never_uploaded_record_goes_at_once() {
    assert!(matches!(plan_delete(&record("a", None, SyncStatus::Local)), DeleteAction::RemoveNow));
    assert_eq!(edited_status(SyncStatus::Local), SyncStatus::Local);
    assert_eq!(edited_status(SyncStatus::Deleted), SyncStatus::Modified);
}

#[test]
fn server_records_become_synced_locals() {
    let sp = ServerProject {
        id: 42,
        user_id: 1,
        encrypted_name: "AQI=".to_string(),
        encrypted_content: "Aw==".to_string(),
        sort_order: 3,
        created_at: "c".to_string(),
        updated_at: "u".to_string(),
    };
    let p = project_from_server(&sp).unwrap();
    assert_eq!(p.id, "42");
    assert_eq!(p.server_id, Some("42".to_string()));
    assert_eq!(p.encrypted_name, vec![1, 2]);
    assert_eq!(p.encrypted_content, vec![3]);
    assert_eq!(p.sync_status, SyncStatus::Synced);
    let payload = project_payload(&p);
    assert_eq!(payload.encrypted_name, "AQI=");
    assert_eq!(payload.encrypted_content, "Aw==");
    assert_eq!(payload.sort_order, 3);
    let mut bad = sp.clone();
    bad.encrypted_content = "%%%".to_string();
    assert!(matches!(project_from_server(&bad), Err(StorageError::Io(_))));
    assert!(projects_from_server(&vec![sp.clone(), bad]).is_err());
    assert_eq!(projects_from_server(&vec![sp]).unwrap().len(), 1);
}

#[test]
fn failures_stop_the_pass_except_remote_deletes() {
    let local = vec![record("a", None, SyncStatus::Local), record("b", None, SyncStatus::Local)];
    let mut pass = SyncPass::new(local, &vec![]);
    assert!(matches!(pass.advance(SyncEvent::Done), SyncAction::CreateRemote(_)));
    match pass.advance(SyncEvent::Failed("offline".to_string())) {
        SyncAction::Aborted(m) => assert_eq!(m, "offline"),
        other => panic!("unexpected {:?}", other),
    }
    assert!(matches!(pass.advance(SyncEvent::Done), SyncAction::Aborted(_)));

    let local = vec![record("d", Some("4"), SyncStatus::Deleted)];
    let mut pass = SyncPass::new(local, &vec![]);
    match pass.advance(SyncEvent::Done) {
        SyncAction::DeleteRemote(s) => assert_eq!(s, "4"),
        other => panic!("unexpected {:?}", other),
    }
    match pass.advance(SyncEvent::Failed("gone".to_string())) {
        SyncAction::DeleteLocal(id) => assert_eq!(id, "d"),
        other => panic!("unexpected {:?}", other),
    }
    assert!(matches!(pass.advance(SyncEvent::Done), SyncAction::Finished(0, 0)));
}

#[test]
fn create_needs_a_remote_id() {
    let mut pass = SyncPass::new(vec![record("a", None, SyncStatus::Local)], &vec![]);
    pass.advance(SyncEvent::Done);
    match pass.advance(SyncEvent::Done) {
        SyncAction::Aborted(m) => assert_eq!(m, "remote create returned no id"),
        other => panic!("unexpected {:?}", other),
    }
}

#[test]
fn synced_record_without_remote_id_is_marked_not_removed() {
    match plan_delete(&record("a", None, SyncStatus::Synced)) {
        DeleteAction::MarkDeleted(q) => assert_eq!(q.sync_status, SyncStatus::Deleted),
        DeleteAction::RemoveNow => panic!("only never-synced records go at once"),
    }
    assert!(matches!(plan_delete(&record("b", None, SyncStatus::Modified)), DeleteAction::MarkDeleted(_)));
}

#[test]
fn server_ids_as_decimal_text() {
    assert_eq!(decimal_i64(0), "0");
    assert_eq!(decimal_i64(7), "7");
    assert_eq!(decimal_i64(1203), "1203");
    assert_eq!(decimal_i64(-45), "-45");
    assert_eq!(decimal_i64(i64::MAX), i64::MAX.to_string());
    assert_eq!(decimal_i64(i64::MIN), i64::MIN.to_string());
}
