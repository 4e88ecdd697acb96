use lab_sync::cliente::Cliente;
use lab_sync::comprobacion::Comprobacion;
use lab_sync::ensayo::Ensayo;
use lab_sync::personal_interno::PersonalInterno;
use lab_sync::proyecto::Proyecto;
use lab_sync::workflow::WorkflowState;

fn sample_cliente() -> Cliente {
    Cliente {
        id: "C1".to_string(),
        codigo: "CLI-0001".to_string(),
        nombre: "Constructora Andina".to_string(),
        rut: Some("76.123.456-7".to_string()),
        direccion: None,
        ciudad: Some("Santiago".to_string()),
        telefono: None,
        email: Some("contacto@andina.cl".to_string()),
        contacto_nombre: None,
        contacto_cargo: None,
        contacto_email: None,
        contacto_telefono: None,
        activo: true,
        drive_folder_id: None,
        created_at: "2024-01-01".to_string(),
        updated_at: "2024-01-02".to_string(),
    }
}

fn sample_ensayo() -> Ensayo {
    Ensayo {
        id: "E-1".to_string(),
        codigo: "ENS-20240101-0001".to_string(),
        tipo: "COMPRESION_SIMPLE".to_string(),
        perforacion_id: "P-1".to_string(),
        proyecto_id: "PRY-1".to_string(),
        muestra: "M-3".to_string(),
        muestra_id: Some("MID-3".to_string()),
        norma: "ASTM D2166".to_string(),
        workflow_state: WorkflowState::E6,
        fecha_solicitud: "2024-01-01".to_string(),
        fecha_programacion: Some("2024-01-05".to_string()),
        fecha_ejecucion: None,
        fecha_reporte: None,
        fecha_entrega: None,
        tecnico_id: Some("T-9".to_string()),
        tecnico_nombre: None,
        sheet_id: Some("SHEET-1".to_string()),
        sheet_url: None,
        equipos_utilizados: vec!["EQ-1".to_string(), "EQ-2".to_string()],
        observaciones: None,
        urgente: false,
        pdf_drive_id: None,
        pdf_url: None,
        pdf_generated_at: None,
        perforacion_folder_id: Some("FOLDER-1".to_string()),
        created_at: "2024-01-01".to_string(),
        updated_at: "2024-01-02".to_string(),
    }
}

fn rows_eq(a: &Ensayo, b: &Ensayo) -> bool {
    a.to_row() == b.to_row()
}

#[test]
fn test_cliente_roundtrip() {
    let c = sample_cliente();
    let row = c.to_row();
    assert_eq!(row.len(), 16);
    let back = Cliente::from_row(&row).unwrap();
    assert_eq!(back.to_row(), row);
    assert_eq!(back.id, "C1");
    assert_eq!(back.rut.as_deref(), Some("76.123.456-7"));
    assert_eq!(back.direccion, None);
    assert!(back.activo);
}

#[test]
fn test_cliente_short_row_guard() {
    let c = sample_cliente();
    let row = c.to_row();
    for len in 0..16 {
        let short: Vec<String> = row[..len].to_vec();
        assert!(Cliente::from_row(&short).is_none());
    }
    assert!(Cliente::from_row(&row).is_some());
}

#[test]
fn test_cliente_bool_cell_permissive() {
    let mut row = sample_cliente().to_row();
    row[12] = "1".to_string();
    assert!(Cliente::from_row(&row).unwrap().activo);
    row[12] = "true".to_string();
    assert!(Cliente::from_row(&row).unwrap().activo);
    row[12] = "yes".to_string();
    assert!(!Cliente::from_row(&row).unwrap().activo);
    row[12] = "".to_string();
    assert!(!Cliente::from_row(&row).unwrap().activo);
}

#[test]
fn test_cliente_empty_optional_cell_decodes_to_none() {
    let mut row = sample_cliente().to_row();
    row[3] = "".to_string();
    let back = Cliente::from_row(&row).unwrap();
    assert_eq!(back.rut, None);
}

#[test]
fn test_ensayo_roundtrip() {
    let e = sample_ensayo();
    let row = e.to_row();
    assert_eq!(row.len(), 27);
    assert_eq!(row[8], "E6");
    assert_eq!(row[18], "EQ-1,EQ-2");
    let back = Ensayo::from_row(&row).unwrap();
    assert!(rows_eq(&back, &e));
    assert_eq!(back.workflow_state, WorkflowState::E6);
    assert_eq!(back.equipos_utilizados, vec!["EQ-1", "EQ-2"]);
}

#[test]
fn test_ensayo_short_row_guard() {
    let row = sample_ensayo().to_row();
    for len in [0, 1, 8, 20, 26] {
        let short: Vec<String> = row[..len].to_vec();
        assert!(Ensayo::from_row(&short).is_none());
    }
}

#[test]
fn test_ensayo_bad_state_label_defaults_to_initial() {
    let mut row = sample_ensayo().to_row();
    row[8] = "E99".to_string();
    let back = Ensayo::from_row(&row).unwrap();
    assert_eq!(back.workflow_state, WorkflowState::E1);
}

#[test]
fn test_ensayo_equipment_list_is_trimmed() {
    let mut row = sample_ensayo().to_row();
    row[18] = " EQ-1 , EQ-2,EQ-3 ".to_string();
    let back = Ensayo::from_row(&row).unwrap();
    assert_eq!(back.equipos_utilizados, vec!["EQ-1", "EQ-2", "EQ-3"]);
}

#[test]
fn test_ensayo_urgente_defaults_false() {
    let mut row = sample_ensayo().to_row();
    row[20] = "".to_string();
    assert!(!Ensayo::from_row(&row).unwrap().urgente);
    row[20] = "1".to_string();
    assert!(Ensayo::from_row(&row).unwrap().urgente);
}

#[test]
fn test_proyecto_roundtrip() {
    let p = Proyecto {
        id: "PRY-1".to_string(),
        codigo: "PRY-20240101-0001".to_string(),
        nombre: "Edificio Norte".to_string(),
        descripcion: "Estudio de suelos".to_string(),
        fecha_inicio: "2024-01-01".to_string(),
        fecha_fin_estimada: Some("2024-06-01".to_string()),
        cliente_id: "C1".to_string(),
        cliente_nombre: "Constructora Andina".to_string(),
        contacto: None,
        estado: "activo".to_string(),
        fecha_fin_real: None,
        drive_folder_id: None,
        created_at: "2024-01-01".to_string(),
        updated_at: "2024-01-01".to_string(),
        created_by: Some("admin".to_string()),
    };
    let row = p.to_row();
    assert_eq!(row.len(), 15);
    let back = Proyecto::from_row(&row).unwrap();
    assert_eq!(back.to_row(), row);
    assert!(Proyecto::from_row(&row[..14]).is_none());
}

#[test]
fn test_comprobacion_roundtrip() {
    let c = Comprobacion {
        id: "CH-1".to_string(),
        equipo_id: "EQ-1".to_string(),
        fecha: "2024-02-01".to_string(),
        tipo: "verificacion".to_string(),
        resultado: "Conforme".to_string(),
        responsable: Some("Ana".to_string()),
        observaciones: None,
        created_at: "2024-02-01".to_string(),
        updated_at: "2024-02-01".to_string(),
    };
    let row = c.to_row();
    assert_eq!(row.len(), 9);
    let back = Comprobacion::from_row(&row).unwrap();
    assert_eq!(back.to_row(), row);
    assert!(Comprobacion::from_row(&row[..8]).is_none());
}

#[test]
fn test_personal_interno_roundtrip() {
    let p = PersonalInterno {
        id: "S-1".to_string(),
        codigo: "PER-0001".to_string(),
        nombre: "Luis".to_string(),
        apellido: "Rojas".to_string(),
        cargo: "Técnico".to_string(),
        email: "luis@lab.cl".to_string(),
        telefono: None,
        activo: false,
        created_at: "2024-01-01".to_string(),
        updated_at: "2024-01-01".to_string(),
    };
    let row = p.to_row();
    assert_eq!(row.len(), 10);
    assert_eq!(row[7], "false");
    let back = PersonalInterno::from_row(&row).unwrap();
    assert_eq!(back.to_row(), row);
    assert!(!back.activo);
    assert!(PersonalInterno::from_row(&row[..9]).is_none());
}
