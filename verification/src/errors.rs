//! The error type surfaced by the service layer.

use vstd::prelude::*;
use vstd::string::*;

verus! {

/// An error of the service layer; the message-bearing variants carry what
/// the caller is told.
#[derive(Debug, Clone)]
pub enum AppError {
    NotFound,
    InternalServerError,
    BadRequest(String),
    SheetsError(String),
    DatabaseError(String),
    Unauthorized,
    DriveError(String),
}

impl AppError {
    /// The HTTP status the response layer maps each variant to.
    pub open spec fn spec_status_code(&self) -> u16 {
        match self {
            AppError::NotFound => 404u16,
            AppError::InternalServerError => 500u16,
            AppError::BadRequest(_) => 400u16,
            AppError::SheetsError(_) => 500u16,
            AppError::DatabaseError(_) => 500u16,
            AppError::Unauthorized => 401u16,
            AppError::DriveError(_) => 500u16,
        }
    }

    /// The HTTP status of this error.
    pub fn status_code(&self) -> (r: u16)
        ensures
            r == self.spec_status_code(),
    {
        match self {
            AppError::NotFound => 404,
            AppError::InternalServerError => 500,
            AppError::BadRequest(_) => 400,
            AppError::SheetsError(_) => 500,
            AppError::DatabaseError(_) => 500,
            AppError::Unauthorized => 401,
            AppError::DriveError(_) => 500,
        }
    }

    /// The message shown to the caller.
    pub open spec fn spec_message(&self) -> Seq<char> {
        match self {
            AppError::NotFound => "No se encontró el recurso"@,
            AppError::InternalServerError => "Error interno del servidor"@,
            AppError::BadRequest(m) => m@,
            AppError::SheetsError(m) => m@,
            AppError::DatabaseError(m) => m@,
            AppError::Unauthorized => "Autenticación fallida"@,
            AppError::DriveError(m) => m@,
        }
    }

    /// The message shown to the caller.
    pub fn message(&self) -> (r: String)
        ensures
            r@ == self.spec_message(),
    {
        match self {
            AppError::NotFound => "No se encontró el recurso".to_owned(),
            AppError::InternalServerError => "Error interno del servidor".to_owned(),
            AppError::BadRequest(m) => m.clone(),
            AppError::SheetsError(m) => m.clone(),
            AppError::DatabaseError(m) => m.clone(),
            AppError::Unauthorized => "Autenticación fallida".to_owned(),
            AppError::DriveError(m) => m.clone(),
        }
    }
}

} // verus!
