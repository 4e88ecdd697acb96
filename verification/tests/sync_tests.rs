use lab_sync::cliente::{Cliente, UpdateCliente};
use lab_sync::db_to_sheets;
use lab_sync::rows::{RowTable, SheetBook};
use lab_sync::sheets_to_db;
use lab_sync::store::{ClienteTable, Database, SyncSource};
use lab_sync::sync::{SyncResult, SyncState};

fn cliente(id: &str, nombre: &str) -> Cliente {
    Cliente {
        id: id.to_string(),
        codigo: format!("CLI-{id}"),
        nombre: nombre.to_string(),
        rut: None,
        direccion: None,
        ciudad: None,
        telefono: None,
        email: None,
        contacto_nombre: None,
        contacto_cargo: None,
        contacto_email: None,
        contacto_telefono: None,
        activo: true,
        drive_folder_id: None,
        created_at: "2024-01-01".to_string(),
        updated_at: "2024-01-01".to_string(),
    }
}

#[test]
fn test_provenance_after_sheets_upsert() {
    let mut db = ClienteTable::new();
    db.upsert_from_sheets(cliente("C1", "Andina"), 1000);
    assert_eq!(db.len(), 1);
    let e = db.entry(0);
    assert_eq!(e.sync_source, SyncSource::Sheets);
    assert_eq!(e.synced_at_ms, Some(1000));
}

#[test]
fn test_provenance_after_db_save() {
    let mut db = ClienteTable::new();
    db.upsert_from_sheets(cliente("C1", "Andina"), 1000);
    db.save_from_db(cliente("C1", "Andina SA"), 2000);
    let e = db.entry(0);
    assert_eq!(e.sync_source, SyncSource::Db);
    assert_eq!(e.rec.nombre, "Andina SA");
    // an ordinary write does not refresh the sync touch
    assert_eq!(e.synced_at_ms, Some(1000));
    assert_eq!(e.updated_at_ms, 2000);
}

#[test]
fn test_outward_pass_selects_only_db_records() {
    let mut db = ClienteTable::new();
    db.upsert_from_sheets(cliente("C1", "From sheet"), 1000);
    db.save_from_db(cliente("C2", "From api"), 1500);
    db.save_from_db(cliente("C3", "Old local"), 500);
    let selected = db.find_modified_since(900);
    assert_eq!(selected.len(), 1);
    assert_eq!(selected[0].id, "C2");
}

#[test]
fn test_partial_failure_isolation_malformed_row_skipped() {
    // N rows, one malformed: the pass processes N-1 and reports no error.
    let good1 = cliente("C1", "Uno").to_row();
    let malformed = vec!["C2".to_string(), "too short".to_string()];
    let good2 = cliente("C3", "Tres").to_row();
    let rows = vec![good1, malformed, good2];
    let mut db = ClienteTable::new();
    let result = sheets_to_db::sync_clientes(&rows, &mut db, 1000);
    assert_eq!(result.total_processed, 2);
    assert_eq!(result.inserted, 2);
    assert!(result.errors.is_empty());
    assert!(result.is_success());
    assert_eq!(db.len(), 2);
}

#[test]
fn test_partial_failure_isolation_write_failure_recorded() {
    // N records where one write fails: all N count as processed, with
    // exactly one entry in the error list, and the pass is not a success.
    let mut result = SyncResult::new("clientes", 1000);
    for _ in 0..3 {
        result.count_processed();
    }
    result.count_inserted();
    result.record_error("C2", "store rejected the write", 1001);
    result.count_inserted();
    result.finalize(1002);
    assert_eq!(result.total_processed, 3);
    assert_eq!(result.errors.len(), 1);
    assert_eq!(result.errors[0].entity_id, "C2");
    assert!(!result.is_success());
    assert_eq!(result.completed_at, 1002);
    assert_eq!(result.duration_ms, 2);
}

#[test]
fn test_full_refresh_idempotent() {
    let rows = vec![
        cliente("C1", "Uno").to_row(),
        cliente("C2", "Dos").to_row(),
    ];
    let mut db = ClienteTable::new();
    db.save_from_db(cliente("C1", "Local name"), 100);
    let r1 = sheets_to_db::sync_clientes(&rows, &mut db, 1000);
    let after_first: Vec<_> = (0..db.len())
        .map(|i| {
            let e = db.entry(i);
            (e.rec.to_row(), e.sync_source, e.updated_at_ms, e.synced_at_ms)
        })
        .collect();
    let r2 = sheets_to_db::sync_clientes(&rows, &mut db, 2000);
    let after_second: Vec<_> = (0..db.len())
        .map(|i| {
            let e = db.entry(i);
            (e.rec.to_row(), e.sync_source, e.updated_at_ms, e.synced_at_ms)
        })
        .collect();
    assert_eq!(r1.total_processed, 2);
    assert_eq!(r2.total_processed, 2);
    assert_eq!(after_first.len(), after_second.len());
    for (a, b) in after_first.iter().zip(after_second.iter()) {
        // identical database state...
        assert_eq!(a.0, b.0);
        assert_eq!(a.1, b.1);
        assert_eq!(a.2, b.2);
        // ...though the sync touch advances
        assert_eq!(a.3, Some(1000));
        assert_eq!(b.3, Some(2000));
    }
}

#[test]
fn test_sheets_edit_wins_over_newer_db_record() {
    // A spreadsheet row for client id "C1" was edited externally while the
    // database row is newer and tagged as a local write: the inward pass
    // still overwrites with the spreadsheet version — last writer against
    // the pass direction, not against timestamps.
    let mut db = ClienteTable::new();
    db.save_from_db(cliente("C1", "Database name"), 5000);
    let mut edited = cliente("C1", "Sheet name");
    edited.created_at = "2023-12-31".to_string();
    let rows = vec![edited.to_row()];
    let result = sheets_to_db::sync_clientes(&rows, &mut db, 1000);
    assert_eq!(result.total_processed, 1);
    let e = db.entry(0);
    assert_eq!(e.rec.nombre, "Sheet name");
    assert_eq!(e.sync_source, SyncSource::Sheets);
    assert_eq!(e.synced_at_ms, Some(1000));
    // audit fields of the stored row are kept by the overwrite
    assert_eq!(e.rec.created_at, "2024-01-01");
}

#[test]
fn test_outward_pass_updates_or_appends() {
    let mut db = ClienteTable::new();
    db.save_from_db(cliente("C1", "Uno"), 1000);
    db.save_from_db(cliente("C2", "Dos"), 1000);
    // the sheet already holds a stale row for C1 and none for C2
    let stale = cliente("C1", "Stale").to_row();
    let mut sheet = RowTable::from_rows(vec![stale]);
    let result = db_to_sheets::sync_clientes_since(&db, &mut sheet, 0, 2000);
    assert_eq!(result.total_processed, 2);
    assert_eq!(result.updated, 1);
    assert_eq!(result.inserted, 1);
    assert!(result.is_success());
    assert_eq!(sheet.len(), 2);
    assert_eq!(sheet.row(0)[2], "Uno");
    assert_eq!(sheet.row(1)[0], "C2");
}

#[test]
fn test_full_outward_refresh_overwrites_sheet() {
    let mut db = ClienteTable::new();
    db.upsert_from_sheets(cliente("C9", "Nine"), 100);
    let mut sheet = RowTable::from_rows(vec![
        vec!["junk".to_string()],
        cliente("C1", "Gone").to_row(),
    ]);
    let result = db_to_sheets::sync_all_clientes(&db, &mut sheet, 2000);
    assert_eq!(result.total_processed, 1);
    assert_eq!(sheet.len(), 1);
    assert_eq!(sheet.row(0)[0], "C9");
}

#[test]
fn test_sync_all_runs_kinds_in_dependency_order() {
    let mut book = SheetBook::new();
    book.clientes.append(cliente("C1", "Uno").to_row());
    let mut db = Database::new();
    let summary = sheets_to_db::sync_all(&book, &mut db, 1000);
    assert_eq!(summary.direction, "sheets_to_db");
    assert_eq!(summary.results.len(), 3);
    assert_eq!(summary.results[0].entity_type, "clientes");
    assert_eq!(summary.results[1].entity_type, "proyectos");
    assert_eq!(summary.results[2].entity_type, "ensayos");
    assert!(summary.is_success());
    assert_eq!(summary.total_processed(), 1);
    assert_eq!(summary.total_errors(), 0);
    assert_eq!(db.clientes.len(), 1);
}

#[test]
fn test_incremental_run_reports_per_kind() {
    let mut db = Database::new();
    db.clientes.save_from_db(cliente("C1", "Uno"), 1500);
    let mut book = SheetBook::new();
    let summary = db_to_sheets::sync_changes_since(&db, &mut book, 1000, 2000);
    assert_eq!(summary.direction, "db_to_sheets");
    assert_eq!(summary.results.len(), 3);
    assert_eq!(summary.total_processed(), 1);
    assert!(summary.is_success());
    assert_eq!(book.clientes.len(), 1);
    assert_eq!(book.proyectos.len(), 0);
}

#[test]
fn test_sync_state_default_has_no_watermarks() {
    let state = SyncState::default();
    assert!(state.last_sync_sheets_to_db.is_none());
    assert!(state.last_sync_db_to_sheets.is_none());
    assert!(state.last_full_sync.is_none());
}

#[test]
fn test_partial_update_overlays_supplied_fields() {
    let mut db = ClienteTable::new();
    db.upsert_from_sheets(cliente("C1", "Andina"), 1000);
    let update = UpdateCliente {
        nombre: Some("Andina SpA".to_string()),
        rut: None,
        direccion: Some("Av. Sur 1".to_string()),
        ciudad: None,
        telefono: None,
        email: None,
        contacto_nombre: None,
        contacto_cargo: None,
        contacto_email: None,
        contacto_telefono: None,
        activo: Some(false),
    };
    assert!(db.update("C1", update, 2000));
    let e = db.entry(0);
    assert_eq!(e.rec.nombre, "Andina SpA");
    assert_eq!(e.rec.direccion.as_deref(), Some("Av. Sur 1"));
    assert!(!e.rec.activo);
    // untouched fields keep their values; the write re-tags provenance
    assert_eq!(e.rec.codigo, "CLI-C1");
    assert_eq!(e.sync_source, SyncSource::Db);
    assert_eq!(e.updated_at_ms, 2000);
}

#[test]
fn test_client_soft_delete_deactivates() {
    let mut db = ClienteTable::new();
    db.save_from_db(cliente("C1", "Uno"), 100);
    assert!(db.delete("C1", 200));
    let e = db.entry(0);
    assert!(!e.rec.activo);
    assert_eq!(e.sync_source, SyncSource::Db);
    assert!(!db.delete("missing", 300));
}

