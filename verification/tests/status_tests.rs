use lab_sync::ensayo::{Ensayo, UpdateEnsayo};
use lab_sync::ensayo_store::EnsayoTable;
use lab_sync::errors::AppError;
use lab_sync::status::{get_pdf_view_url, plan_status_update};
use lab_sync::store::SyncSource;
use lab_sync::workflow::WorkflowState;

fn ensayo(id: &str, state: WorkflowState, sheet: Option<&str>, folder: Option<&str>) -> Ensayo {
    Ensayo {
        id: id.to_string(),
        codigo: format!("ENS-{id}"),
        tipo: "COMPRESION_SIMPLE".to_string(),
        perforacion_id: "P-1".to_string(),
        proyecto_id: "PRY-1".to_string(),
        muestra: "M-1".to_string(),
        muestra_id: None,
        norma: "ASTM D2166".to_string(),
        workflow_state: state,
        fecha_solicitud: "2024-01-01".to_string(),
        fecha_programacion: None,
        fecha_ejecucion: None,
        fecha_reporte: None,
        fecha_entrega: None,
        tecnico_id: None,
        tecnico_nombre: None,
        sheet_id: sheet.map(|s| s.to_string()),
        sheet_url: None,
        equipos_utilizados: vec!["EQ-1".to_string()],
        observaciones: None,
        urgente: false,
        pdf_drive_id: None,
        pdf_url: None,
        pdf_generated_at: None,
        perforacion_folder_id: folder.map(|s| s.to_string()),
        created_at: "2024-01-01".to_string(),
        updated_at: "2024-01-01".to_string(),
    }
}

#[test]
fn test_e11_to_e12_generates_document_when_ids_present() {
    // a test record at E11 with a linked working sheet and resolved folder
    let current = ensayo("1", WorkflowState::E11, Some("SHEET-1"), Some("FOLDER-1"));
    assert!(current.workflow_state.can_transition_to(WorkflowState::E12));
    let plan = plan_status_update(&current, WorkflowState::E12).unwrap();
    assert_eq!(plan.new_state, WorkflowState::E12);
    let doc = plan.document.expect("document side effect expected");
    assert_eq!(doc.sheet_id, "SHEET-1");
    assert_eq!(doc.folder_id, "FOLDER-1");
    assert_eq!(doc.pdf_name, "ENS-1.pdf");

    // the transition commits and the document result lands on the record
    let mut db = EnsayoTable::new();
    db.save_from_db(current, 100);
    assert!(db.update_workflow_state("1", plan.new_state, 200));
    let pdf_url = get_pdf_view_url("PDF-9");
    assert!(db.update_pdf_info("1", "PDF-9", &pdf_url, 300));
    let e = db.find_by_id("1").unwrap();
    assert_eq!(e.rec.workflow_state, WorkflowState::E12);
    assert_eq!(e.rec.pdf_drive_id.as_deref(), Some("PDF-9"));
    assert_eq!(
        e.rec.pdf_url.as_deref(),
        Some("https://drive.google.com/file/d/PDF-9/view")
    );
    assert!(e.rec.pdf_generated_at.is_some());
    assert_eq!(e.sync_source, SyncSource::Db);
}

#[test]
fn test_e11_to_e12_without_ids_still_transitions() {
    let current = ensayo("2", WorkflowState::E11, None, Some("FOLDER-1"));
    let plan = plan_status_update(&current, WorkflowState::E12).unwrap();
    assert_eq!(plan.new_state, WorkflowState::E12);
    assert!(plan.document.is_none());

    let mut db = EnsayoTable::new();
    db.save_from_db(current, 100);
    assert!(db.update_workflow_state("2", plan.new_state, 200));
    let e = db.find_by_id("2").unwrap();
    assert_eq!(e.rec.workflow_state, WorkflowState::E12);
    // no document fields change
    assert!(e.rec.pdf_drive_id.is_none());
    assert!(e.rec.pdf_url.is_none());
}

#[test]
fn test_terminal_state_rejects_any_transition() {
    let current = ensayo("3", WorkflowState::E3, Some("S"), Some("F"));
    for target in [
        WorkflowState::E1,
        WorkflowState::E2,
        WorkflowState::E3,
        WorkflowState::E12,
        WorkflowState::E15,
    ] {
        let denied = plan_status_update(&current, target).unwrap_err();
        assert_eq!(denied.from, WorkflowState::E3);
        assert_eq!(denied.to, target);
        // the response enumerates the (empty) allowed set
        assert!(denied.allowed.is_empty());
        let msg = denied.message();
        assert!(msg.contains("E3"));
        assert!(msg.contains("Permitidas: "));
        assert!(msg.ends_with("Permitidas: "));
    }
}

#[test]
fn test_denied_transition_names_states_and_allowed_set() {
    let current = ensayo("4", WorkflowState::E11, None, None);
    let denied = plan_status_update(&current, WorkflowState::E9).unwrap_err();
    let msg = denied.message();
    assert_eq!(
        msg,
        "Transición inválida de E11 (Rev. Dirección) a E9 (Rev. Técnica). Permitidas: E12, E10"
    );
}

#[test]
fn test_update_denies_invalid_state_change() {
    let mut db = EnsayoTable::new();
    db.save_from_db(ensayo("5", WorkflowState::E1, None, None), 100);
    let current = db.find_by_id("5").unwrap().rec.clone();
    // the transition table is consulted before the persisted update
    assert!(plan_status_update(&current, WorkflowState::E9).is_err());
    let update = UpdateEnsayo {
        workflow_state: Some(WorkflowState::E2),
        fecha_programacion: Some("2024-02-01".to_string()),
        fecha_ejecucion: None,
        fecha_reporte: None,
        fecha_entrega: None,
        tecnico_id: None,
        tecnico_nombre: None,
        observaciones: None,
    };
    assert!(plan_status_update(&current, WorkflowState::E2).is_ok());
    assert!(db.update("5", update, 200));
    let e = db.find_by_id("5").unwrap();
    assert_eq!(e.rec.workflow_state, WorkflowState::E2);
    assert_eq!(e.rec.fecha_programacion.as_deref(), Some("2024-02-01"));
    assert_eq!(e.sync_source, SyncSource::Db);
}

#[test]
fn test_soft_delete_forces_final_state() {
    let mut db = EnsayoTable::new();
    db.save_from_db(ensayo("6", WorkflowState::E2, None, None), 100);
    assert!(db.delete("6", 200));
    let e = db.find_by_id("6").unwrap();
    assert_eq!(e.rec.workflow_state, WorkflowState::E15);
    // deleting again is a no-op
    assert!(!db.delete("6", 300));
    assert!(!db.delete("missing", 300));
}

#[test]
fn test_sheets_upsert_preserves_document_fields() {
    let mut db = EnsayoTable::new();
    let mut with_pdf = ensayo("7", WorkflowState::E12, Some("S"), Some("F"));
    with_pdf.pdf_drive_id = Some("PDF-1".to_string());
    with_pdf.pdf_url = Some("url".to_string());
    db.save_from_db(with_pdf, 100);
    // the sheet's copy of the row knows nothing about the document
    let mut from_sheet = ensayo("7", WorkflowState::E13, Some("S"), Some("F"));
    from_sheet.pdf_drive_id = Some("SHEET-SMUGGLED".to_string());
    db.upsert_from_sheets(from_sheet, 500);
    let e = db.find_by_id("7").unwrap();
    assert_eq!(e.rec.workflow_state, WorkflowState::E13);
    assert_eq!(e.rec.pdf_drive_id.as_deref(), Some("PDF-1"));
    assert_eq!(e.sync_source, SyncSource::Sheets);
    assert_eq!(e.synced_at_ms, Some(500));
}

#[test]
fn test_sheets_insert_leaves_document_fields_empty() {
    let mut db = EnsayoTable::new();
    let mut from_sheet = ensayo("8", WorkflowState::E6, Some("S"), Some("F"));
    from_sheet.pdf_drive_id = Some("SHEET-SMUGGLED".to_string());
    from_sheet.muestra_id = Some("MID".to_string());
    db.upsert_from_sheets(from_sheet, 500);
    let e = db.find_by_id("8").unwrap();
    assert!(e.rec.pdf_drive_id.is_none());
    assert!(e.rec.muestra_id.is_none());
    assert_eq!(e.rec.sheet_id.as_deref(), Some("S"));
}

#[test]
fn test_app_error_variants() {
    assert_eq!(AppError::NotFound.status_code(), 404);
    assert_eq!(AppError::Unauthorized.status_code(), 401);
    assert_eq!(AppError::InternalServerError.status_code(), 500);
    assert_eq!(AppError::BadRequest("x".to_string()).status_code(), 400);
    assert_eq!(AppError::SheetsError("x".to_string()).status_code(), 500);
    assert_eq!(AppError::DatabaseError("x".to_string()).status_code(), 500);
    assert_eq!(AppError::DriveError("x".to_string()).status_code(), 500);
    assert_eq!(AppError::NotFound.message(), "No se encontró el recurso");
    assert_eq!(
        AppError::BadRequest("detalle".to_string()).message(),
        "detalle"
    );
}
