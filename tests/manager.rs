use flowy_database::error::DatabaseError;
use flowy_database::manager::{DatabaseManager, LogKind, Revision, REVISION_RETENTION};
use flowy_database::registry::Claim;

fn open(m: &mut DatabaseManager<u32>, id: &str, handle: u32) {
    assert_eq!(m.open_database(id, Ok(())), Claim::Claimed);
    assert_eq!(m.settle_open(id, Ok(handle)), Ok(()));
}

#[test]
fn open_then_get_returns_same_handle_until_close() {
    let mut m: DatabaseManager<u32> = DatabaseManager::new();
    open(&mut m, "doc", 7);
    assert_eq!(m.get_database_editor("doc"), Some(&7));
    assert_eq!(m.open_database("doc", Ok(())), Claim::Live);
    open(&mut m, "other", 9);
    assert_eq!(m.close_database("other"), Some(9));
    assert_eq!(m.get_database_editor("doc"), Some(&7));
    assert_eq!(m.close_database("doc"), Some(7));
    assert_eq!(m.get_database_editor("doc"), None);
}

#[test]
fn concurrent_first_opens_build_one_editor() {
    let mut m: DatabaseManager<u32> = DatabaseManager::new();
    let outcomes: Vec<Claim> = (0..5).map(|_| m.open_database("doc", Ok(()))).collect();
    assert_eq!(outcomes.iter().filter(|c| **c == Claim::Claimed).count(), 1);
    assert_eq!(outcomes[0], Claim::Claimed);
    assert!(outcomes[1..].iter().all(|c| *c == Claim::Building));
    assert_eq!(m.get_database_editor("doc"), None);
    assert_eq!(m.settle_open("doc", Ok(3)), Ok(()));
    for _ in 0..4 {
        assert_eq!(m.get_or_create_database_editor("doc"), Claim::Live);
        assert_eq!(m.get_database_editor("doc"), Some(&3));
    }
}

#[test]
fn close_unknown_id_is_noop() {
    let mut m: DatabaseManager<u32> = DatabaseManager::new();
    assert_eq!(m.close_database("nothing"), None);
    open(&mut m, "doc", 1);
    assert_eq!(m.close_database("nothing"), None);
    assert_eq!(m.get_database_editor("doc"), Some(&1));
}

#[test]
fn close_while_building_is_noop() {
    let mut m: DatabaseManager<u32> = DatabaseManager::new();
    assert_eq!(m.open_database("doc", Ok(())), Claim::Claimed);
    assert_eq!(m.close_database("doc"), None);
    assert_eq!(m.open_database("doc", Ok(())), Claim::Building);
}

#[test]
fn failed_construction_releases_claim() {
    let mut m: DatabaseManager<u32> = DatabaseManager::new();
    assert_eq!(m.open_database("doc", Ok(())), Claim::Claimed);
    assert_eq!(m.settle_open("doc", Err(DatabaseError::Storage)), Err(DatabaseError::Storage));
    assert_eq!(m.get_database_editor("doc"), None);
    assert_eq!(m.open_database("doc", Ok(())), Claim::Claimed);
}

#[test]
fn migration_failure_does_not_block_open() {
    let mut m: DatabaseManager<u32> = DatabaseManager::new();
    assert_eq!(m.open_database("doc", Err(DatabaseError::Storage)), Claim::Claimed);
    assert_eq!(m.settle_open("doc", Ok(5)), Ok(()));
    assert_eq!(m.open_database("doc", Err(DatabaseError::InvalidData)), Claim::Live);
    assert_eq!(m.get_database_editor("doc"), Some(&5));
}

#[test]
fn create_grid_storage_fault_leaves_no_editor() {
    let m: DatabaseManager<u32> = DatabaseManager::new();
    let rev = Revision::initial_revision("doc", vec![1, 2, 3]);
    let plan = m.create_grid("doc", vec![rev], Ok(()), Ok("user".to_string())).unwrap();
    assert_eq!(plan.kind, LogKind::Database);
    assert_eq!(plan.object_id, "doc");
    assert_eq!(plan.user_id, "user");
    assert_eq!(plan.revisions.len(), 1);
    let rev = Revision::initial_revision("doc", vec![1, 2, 3]);
    let r = m.create_grid("doc", vec![rev], Err(DatabaseError::Storage), Ok("user".to_string()));
    assert_eq!(r.unwrap_err(), DatabaseError::Storage);
    assert_eq!(m.get_database_editor("doc"), None);
}

#[test]
fn create_checks_pool_before_user() {
    let m: DatabaseManager<u32> = DatabaseManager::new();
    let r = m.create_grid_block("b", vec![], Err(DatabaseError::Storage), Err(DatabaseError::UserUnauthorized));
    assert_eq!(r.unwrap_err(), DatabaseError::Storage);
    let r = m.create_grid_view("v", vec![], Ok(()), Err(DatabaseError::UserUnauthorized));
    assert_eq!(r.unwrap_err(), DatabaseError::UserUnauthorized);
    let p = m.create_grid_block("b", vec![], Ok(()), Ok("u".to_string())).unwrap();
    assert_eq!(p.kind, LogKind::Block);
    assert_eq!(p.object_id, "b");
    let p = m.create_grid_view("v", vec![], Ok(()), Ok("u".to_string())).unwrap();
    assert_eq!(p.kind, LogKind::View);
    assert_eq!(p.object_id, "v");
}

#[test]
fn rev_manager_config() {
    let m: DatabaseManager<u32> = DatabaseManager::new();
    let c = m.make_database_rev_manager("abc", "user1");
    assert_eq!(c.snapshot_object_id, "grid:abc");
    assert_eq!(c.object_id, "abc");
    assert_eq!(c.user_id, "user1");
    assert_eq!(c.merge_threshold, 6);
    assert_eq!(REVISION_RETENTION, 6);
    assert!(!c.force_flush);
}

#[test]
fn initial_revision_starts_at_zero() {
    let r = Revision::initial_revision("obj", vec![9, 8]);
    assert_eq!(r.object_id, "obj");
    assert_eq!(r.rev_id, 0);
    assert_eq!(r.base_rev_id, 0);
    assert_eq!(r.bytes, vec![9, 8]);
}

#[test]
fn initialize_succeeds() {
    let m: DatabaseManager<u32> = DatabaseManager::new();
    assert_eq!(m.initialize("u", "t"), Ok(()));
    assert_eq!(m.initialize_with_new_user("u", "t"), Ok(()));
}
