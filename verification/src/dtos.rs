//! Plain data carried across the service boundary: authentication
//! payloads, sync requests and status rows, creation payloads of the
//! entities whose own logic lives outside the library, and the template
//! bookkeeping of the document service.

use vstd::prelude::*;
use crate::text::str_eq;

verus! {

/// A login request carrying a Google access token.
#[derive(Debug)]
pub struct GoogleLoginRequest {
    pub access_token: String,
}

/// What Google reports about an authenticated user.
#[derive(Debug, Clone)]
pub struct GoogleUserInfo {
    pub id: String,
    pub email: String,
    pub name: Option<String>,
    pub given_name: Option<String>,
    pub family_name: Option<String>,
    pub picture: Option<String>,
    pub verified_email: Option<bool>,
}

/// The profile the frontend sees.
#[derive(Debug, Clone)]
pub struct UserProfile {
    pub id: String,
    pub email: String,
    pub nombre: String,
    pub apellido: Option<String>,
    pub avatar: Option<String>,
    pub rol: String,
    pub activo: bool,
}

/// A successful login.
#[derive(Debug)]
pub struct LoginResponse {
    pub success: bool,
    pub user: UserProfile,
    pub message: String,
}

/// A generic success acknowledgement.
#[derive(Debug)]
pub struct SuccessResponse {
    pub success: bool,
    pub message: String,
}

/// A request for an incremental outward sync; without an explicit
/// watermark the caller defaults to the last twenty-four hours.
#[derive(Debug)]
pub struct IncrementalSyncRequest {
    pub since: Option<String>,
}

/// One entity kind's record count, as the sync status endpoint reports it.
#[derive(Debug)]
pub struct EntitySyncStatus {
    pub name: String,
    pub db_count: i64,
}

/// Fields a caller supplies to create a piece of equipment.
#[derive(Debug)]
pub struct CreateEquipo {
    pub nombre: String,
    pub serie: String,
    pub placa: Option<String>,
    pub descripcion: Option<String>,
    pub marca: Option<String>,
    pub modelo: Option<String>,
    pub ubicacion: Option<String>,
}

/// Fields a caller supplies to create a sensor.
#[derive(Debug)]
pub struct CreateSensor {
    pub codigo: String,
    pub tipo: String,
    pub marca: Option<String>,
    pub modelo: Option<String>,
    pub numero_serie: String,
    pub rango_medicion: Option<String>,
    pub precision_sensor: Option<String>,
    pub ubicacion: Option<String>,
    pub equipo_id: Option<String>,
}

/// A sensor as listed under its owning equipment.
#[derive(Debug, Clone)]
pub struct SensorResumen {
    pub id: String,
    pub codigo: String,
    pub tipo: String,
    pub marca: Option<String>,
    pub modelo: Option<String>,
    pub numero_serie: String,
    pub rango_medicion: Option<String>,
    pub estado: String,
    pub proxima_calibracion: Option<String>,
}

/// A working-sheet template for one test type: the file to copy and what
/// it stands for.
#[derive(Debug, Clone)]
pub struct EnsayoTemplate {
    pub template_id: String,
    pub name: String,
    pub norma: String,
}

/// The working sheet created for a new test.
#[derive(Debug, Clone)]
pub struct EnsayoSheetCreationResult {
    pub sheet_id: String,
    pub sheet_url: String,
}

/// Whether a user's role admits an action: the role is among the allowed
/// ones, or it is the administrator role.
pub fn role_allowed(rol: &String, allowed_roles: &Vec<String>) -> (r: bool)
    ensures
        r == (allowed_roles.deep_view().contains(rol@) || rol@ == "admin"@),
{
    if str_eq(rol.as_str(), "admin") {
        return true;
    }
    let mut k: usize = 0;
    while k < allowed_roles.len()
        invariant
            k <= allowed_roles@.len(),
            forall|i: int| 0 <= i < k ==> allowed_roles.deep_view()[i] != rol@,
        decreases allowed_roles@.len() - k,
    {
        if str_eq(allowed_roles[k].as_str(), rol.as_str()) {
            proof {
                assert(allowed_roles.deep_view()[k as int] == rol@);
            }
            return true;
        }
        k = k + 1;
    }
    proof {
        assert(!allowed_roles.deep_view().contains(rol@));
    }
    false
}

} // verus!
