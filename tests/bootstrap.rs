use flowy_database::bootstrap::{
    make_database_view_data, BootstrapRun, BootstrapStep, BuildGridContext, DatabaseViewLayout,
    DatabaseViewRevision, FieldRevision, GridBlockMetaRevision, GridBlockRevision, RowRevision,
};
use flowy_database::error::DatabaseError;

fn context(blocks: usize, rows: usize, view_data: &str) -> BuildGridContext {
    let mut metas = Vec::new();
    let mut all = Vec::new();
    for b in 0..blocks {
        let block_id = format!("block{}", b);
        let rows: Vec<RowRevision> = (0..rows)
            .map(|r| RowRevision { id: format!("row{}_{}", b, r), block_id: block_id.clone() })
            .collect();
        metas.push(GridBlockMetaRevision {
            block_id: block_id.clone(),
            start_row_index: 0,
            row_count: rows.len() as i32,
        });
        all.push(GridBlockRevision { block_id, rows });
    }
    BuildGridContext {
        field_revs: vec![FieldRevision { id: "f1".to_string(), name: "Name".to_string() }],
        block_metas: metas,
        blocks: all,
        grid_view_revision_data: view_data.to_string(),
    }
}

/// Performs every step, failing the view create when `view` is `Err`; returns the steps
/// whose outcome was a commit, and the index entries written.
fn drive(run: &mut BootstrapRun, view: Result<(), DatabaseError>) -> (Vec<BootstrapStep>, Vec<(String, String)>) {
    let mut committed = Vec::new();
    let mut index = Vec::new();
    while let Some(step) = run.next_step().cloned() {
        let outcome = match &step {
            BootstrapStep::IndexRow { row_id, block_id } => {
                index.push((row_id.clone(), block_id.clone()));
                Ok(())
            }
            BootstrapStep::CreateView => view,
            _ => Ok(()),
        };
        if outcome.is_ok() && !matches!(step, BootstrapStep::IndexRow { .. }) {
            committed.push(step);
        }
        run.record(outcome);
    }
    (committed, index)
}

#[test]
fn bootstrap_two_blocks_three_rows() {
    let mut run = make_database_view_data("view1", DatabaseViewLayout::Grid, context(2, 3, ""));
    assert_eq!(run.database_revision().fields.len(), 1);
    assert_eq!(run.database_revision().blocks.len(), 2);
    assert_eq!(run.database_revision().grid_id, "view1");
    let (committed, index) = drive(&mut run, Ok(()));
    assert_eq!(run.result(), Some(Ok(())));
    let blocks = committed.iter().filter(|s| matches!(s, BootstrapStep::CreateBlock { .. })).count();
    let dbs = committed.iter().filter(|s| matches!(s, BootstrapStep::CreateDatabase)).count();
    let views = committed.iter().filter(|s| matches!(s, BootstrapStep::CreateView)).count();
    assert_eq!((blocks, dbs, views), (2, 1, 1));
    assert!(matches!(committed[0], BootstrapStep::CreateBlock { block: 0 }));
    assert!(matches!(committed[1], BootstrapStep::CreateBlock { block: 1 }));
    assert!(matches!(committed[2], BootstrapStep::CreateDatabase));
    assert!(matches!(committed[3], BootstrapStep::CreateView));
    assert_eq!(index.len(), 6);
    for b in 0..2 {
        for r in 0..3 {
            let row = format!("row{}_{}", b, r);
            let owner = index.iter().find(|(id, _)| *id == row).map(|(_, blk)| blk.clone());
            assert_eq!(owner, Some(format!("block{}", b)));
        }
    }
    assert_eq!(run.block(1).block_id, "block1");
}

#[test]
fn index_failures_do_not_abort() {
    let mut run = make_database_view_data("v", DatabaseViewLayout::Board, context(1, 2, ""));
    while let Some(step) = run.next_step().cloned() {
        let outcome = match step {
            BootstrapStep::IndexRow { .. } => Err(DatabaseError::Storage),
            _ => Ok(()),
        };
        run.record(outcome);
    }
    assert_eq!(run.result(), Some(Ok(())));
}

#[test]
fn block_failure_stops_run() {
    let mut run = make_database_view_data("v", DatabaseViewLayout::Grid, context(2, 1, ""));
    let mut performed = 0;
    while let Some(step) = run.next_step().cloned() {
        performed += 1;
        let outcome = match step {
            BootstrapStep::CreateBlock { block: 1 } => Err(DatabaseError::Storage),
            _ => Ok(()),
        };
        run.record(outcome);
    }
    assert_eq!(performed, 4);
    assert_eq!(run.result(), Some(Err(DatabaseError::Storage)));
    assert!(run.next_step().is_none());
}

#[test]
fn empty_view_payload_gives_default_view() {
    let run = make_database_view_data("view9", DatabaseViewLayout::Calendar, context(1, 1, ""));
    let v = run.resolve_view(None).unwrap();
    assert_eq!(v.database_id, "view9");
    assert_eq!(v.view_id, "view9");
    assert_eq!(v.layout, DatabaseViewLayout::Calendar);
}

#[test]
fn supplied_view_payload_is_used() {
    let run = make_database_view_data("view9", DatabaseViewLayout::Grid, context(1, 1, "{\"view_id\":\"x\"}"));
    let parsed = DatabaseViewRevision::new("db".to_string(), "x".to_string(), DatabaseViewLayout::Board);
    let v = run.resolve_view(Some(parsed)).unwrap();
    assert_eq!(v.view_id, "x");
    assert_eq!(v.layout, DatabaseViewLayout::Board);
}

#[test]
fn malformed_view_payload_is_partial_bootstrap() {
    let mut run = make_database_view_data("v", DatabaseViewLayout::Grid, context(2, 3, "not json"));
    let view = run.resolve_view(None).map(|_| ());
    assert_eq!(view, Err(DatabaseError::InvalidData));
    let (committed, index) = drive(&mut run, view);
    assert_eq!(run.result(), Some(Err(DatabaseError::InvalidData)));
    assert_eq!(committed.len(), 3);
    assert!(matches!(committed[2], BootstrapStep::CreateDatabase));
    assert!(!committed.iter().any(|s| matches!(s, BootstrapStep::CreateView)));
    assert_eq!(index.len(), 6);
}

#[test]
fn empty_context_creates_database_and_view() {
    let mut run = make_database_view_data("v", DatabaseViewLayout::Grid, context(0, 0, ""));
    let (committed, index) = drive(&mut run, Ok(()));
    assert_eq!(committed.len(), 2);
    assert!(index.is_empty());
    assert_eq!(run.result(), Some(Ok(())));
}
