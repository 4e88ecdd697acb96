//! SQL column lists and query builders.
//!
//! The column constants spell out each table's full column list once; the
//! builders assemble SELECT statements from their parts.

use vstd::prelude::*;
use vstd::string::*;

verus! {

/// Columns of the `clientes` table.
pub const CLIENTE_COLUMNS: &'static str =
    "id, codigo, nombre, rut, direccion, ciudad, telefono, email, contacto_nombre, contacto_cargo, contacto_email, contacto_telefono, activo, drive_folder_id, created_at, updated_at, synced_at, sync_source";

/// Columns of the `proyectos` table.
pub const PROYECTO_COLUMNS: &'static str =
    "id, codigo, nombre, descripcion, fecha_inicio, fecha_fin_estimada, duracion_estimada, cliente_id, cliente_nombre, contacto, estado, ensayos_cotizados, fecha_fin_real, drive_folder_id, created_at, updated_at, created_by, synced_at, sync_source";

/// Columns of the `perforaciones` table.
pub const PERFORACION_COLUMNS: &'static str =
    "id, codigo, proyecto_id, nombre, descripcion, ubicacion, profundidad, fecha_inicio, fecha_fin, estado, drive_folder_id, created_at, updated_at, synced_at, sync_source";

/// Columns of the `ensayos` table.
pub const ENSAYO_COLUMNS: &'static str =
    "id, codigo, tipo, perforacion_id, proyecto_id, muestra, muestra_id, norma, workflow_state, fecha_solicitud, fecha_programacion, fecha_ejecucion, fecha_reporte, fecha_entrega, tecnico_id, tecnico_nombre, sheet_id, sheet_url, equipos_utilizados, observaciones, urgente, duracion_estimada, pdf_drive_id, pdf_url, pdf_generated_at, perforacion_folder_id, created_at, updated_at, synced_at, sync_source";

/// Columns of the `equipos` table.
pub const EQUIPO_COLUMNS: &'static str =
    "id, codigo, nombre, serie, placa, descripcion, marca, modelo, ubicacion, estado, fecha_calibracion, proxima_calibracion, incertidumbre, error_maximo, certificado_id, responsable, observaciones, activo, created_at, updated_at, synced_at, sync_source";

/// Columns of the `sensores` table.
pub const SENSOR_COLUMNS: &'static str =
    "id, codigo, tipo, marca, modelo, numero_serie, rango_medicion, precision, ubicacion, estado, fecha_calibracion, proxima_calibracion, error_maximo, certificado_id, responsable, observaciones, activo, created_at, updated_at, synced_at, sync_source, equipo_id";

/// Columns of the `personal_interno` table.
pub const PERSONAL_INTERNO_COLUMNS: &'static str =
    "id, codigo, nombre, apellido, cargo, email, telefono, activo, created_at, updated_at, synced_at, sync_source";

/// Columns of the `muestras` table.
pub const MUESTRA_COLUMNS: &'static str =
    "id, codigo, perforacion_id, profundidad_inicio, profundidad_fin, tipo_muestra, descripcion, created_at, updated_at, synced_at, sync_source";

/// `SELECT {columns} FROM {table}`.
pub fn select_from(table: &str, columns: &str) -> (r: String)
    ensures
        r@ == "SELECT "@ + columns@ + " FROM "@ + table@,
{
    let mut s = "SELECT ".to_owned();
    s.append(columns);
    s.append(" FROM ");
    s.append(table);
    proof {
        assert(s@ =~= "SELECT "@ + columns@ + " FROM "@ + table@);
    }
    s
}

/// `SELECT {columns} FROM {table} {suffix}`.
pub fn select_from_with(table: &str, columns: &str, suffix: &str) -> (r: String)
    ensures
        r@ == "SELECT "@ + columns@ + " FROM "@ + table@ + " "@ + suffix@,
{
    let mut s = "SELECT ".to_owned();
    s.append(columns);
    s.append(" FROM ");
    s.append(table);
    s.append(" ");
    s.append(suffix);
    proof {
        assert(s@ =~= "SELECT "@ + columns@ + " FROM "@ + table@ + " "@ + suffix@);
    }
    s
}

/// `SELECT {columns} FROM {table} WHERE {where_clause}`.
pub fn select_where(table: &str, columns: &str, where_clause: &str) -> (r: String)
    ensures
        r@ == "SELECT "@ + columns@ + " FROM "@ + table@ + " WHERE "@ + where_clause@,
{
    let mut s = "SELECT ".to_owned();
    s.append(columns);
    s.append(" FROM ");
    s.append(table);
    s.append(" WHERE ");
    s.append(where_clause);
    proof {
        assert(s@ =~= "SELECT "@ + columns@ + " FROM "@ + table@ + " WHERE "@ + where_clause@);
    }
    s
}

/// `SELECT {columns} FROM {table} WHERE {where_clause} {suffix}`.
pub fn select_where_with(table: &str, columns: &str, where_clause: &str, suffix: &str) -> (r:
    String)
    ensures
        r@ == "SELECT "@ + columns@ + " FROM "@ + table@ + " WHERE "@ + where_clause@ + " "@
            + suffix@,
{
    let mut s = "SELECT ".to_owned();
    s.append(columns);
    s.append(" FROM ");
    s.append(table);
    s.append(" WHERE ");
    s.append(where_clause);
    s.append(" ");
    s.append(suffix);
    proof {
        assert(s@ =~= "SELECT "@ + columns@ + " FROM "@ + table@ + " WHERE "@ + where_clause@
            + " "@ + suffix@);
    }
    s
}

} // verus!
