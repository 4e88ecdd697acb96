use lab_sync::id::{generate_dated_code, generate_simple_code, generate_uuid, rand_suffix};
use lab_sync::sql::{
    select_from, select_from_with, select_where, select_where_with, CLIENTE_COLUMNS,
};
use lab_sync::status::{get_pdf_export_url, get_pdf_view_url, get_view_url};

#[test]
fn test_rand_suffix_range() {
    for _ in 0..100 {
        let suffix = rand_suffix();
        assert!(suffix < 10000);
    }
}

#[test]
fn test_generate_uuid_format() {
    let uuid = generate_uuid();
    assert_eq!(uuid.len(), 36);
    assert!(uuid.contains('-'));
}

#[test]
fn test_generate_dated_code_format() {
    let code = generate_dated_code("PRY");
    assert!(code.starts_with("PRY-"));
    assert_eq!(code.len(), 17);
}

#[test]
fn test_generate_simple_code_format() {
    let code = generate_simple_code("CLI");
    assert!(code.starts_with("CLI-"));
    assert_eq!(code.len(), 8);
}

#[test]
fn test_cliente_columns_not_empty() {
    assert!(!CLIENTE_COLUMNS.is_empty());
    assert!(CLIENTE_COLUMNS.contains("id"));
    assert!(CLIENTE_COLUMNS.contains("created_at"));
}

#[test]
fn test_select_from() {
    let query = select_from("clientes", "id, nombre");
    assert_eq!(query, "SELECT id, nombre FROM clientes");
}

#[test]
fn test_select_from_with_suffix() {
    let query = select_from_with("clientes", "id, nombre", "ORDER BY nombre");
    assert_eq!(query, "SELECT id, nombre FROM clientes ORDER BY nombre");
}

#[test]
fn test_select_where() {
    let query = select_where("clientes", "id, nombre", "id = $1");
    assert_eq!(query, "SELECT id, nombre FROM clientes WHERE id = $1");
}

#[test]
fn test_select_where_with() {
    let query = select_where_with("clientes", "id, nombre", "activo = true", "ORDER BY nombre");
    assert_eq!(
        query,
        "SELECT id, nombre FROM clientes WHERE activo = true ORDER BY nombre"
    );
}

#[test]
fn test_template_url_generation() {
    let sheet_id = "1ABC123xyz";
    let view_url = get_view_url(sheet_id);
    assert!(view_url.contains(sheet_id));
    assert!(view_url.contains("edit"));
}

#[test]
fn test_pdf_urls() {
    assert_eq!(
        get_pdf_view_url("F1"),
        "https://drive.google.com/file/d/F1/view"
    );
    assert_eq!(
        get_pdf_export_url("F1"),
        "https://docs.google.com/spreadsheets/d/F1/export?format=pdf"
    );
}

#[test]
fn test_simple_code_suffix_is_digits() {
    let code = generate_simple_code("SEN");
    let suffix = &code["SEN-".len()..];
    assert_eq!(suffix.len(), 4);
    assert!(suffix.chars().all(|c| c.is_ascii_digit()));
}
