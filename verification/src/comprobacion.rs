//! The equipment-check entity and its row codec.

use vstd::prelude::*;
use crate::codec::{opt_cell, opt_str, req_cell, spec_cells, spec_opt_cell, spec_opt_str, spec_opt_wf};

verus! {

/// A periodic check of a piece of equipment.
#[derive(Debug)]
pub struct Comprobacion {
    pub id: String,
    pub equipo_id: String,
    pub fecha: String,
    pub tipo: String,
    pub resultado: String,
    pub responsable: Option<String>,
    pub observaciones: Option<String>,
    pub created_at: String,
    pub updated_at: String,
}

/// The mathematical value of an equipment-check record.
#[verifier::ext_equal]
pub ghost struct ComprobacionV {
    pub id: Seq<char>,
    pub equipo_id: Seq<char>,
    pub fecha: Seq<char>,
    pub tipo: Seq<char>,
    pub resultado: Seq<char>,
    pub responsable: Option<Seq<char>>,
    pub observaciones: Option<Seq<char>>,
    pub created_at: Seq<char>,
    pub updated_at: Seq<char>,
}

impl View for Comprobacion {
    type V = ComprobacionV;

    open spec fn view(&self) -> ComprobacionV {
        ComprobacionV {
            id: self.id@,
            equipo_id: self.equipo_id@,
            fecha: self.fecha@,
            tipo: self.tipo@,
            resultado: self.resultado@,
            responsable: self.responsable.deep_view(),
            observaciones: self.observaciones.deep_view(),
            created_at: self.created_at@,
            updated_at: self.updated_at@,
        }
    }
}

impl DeepView for Comprobacion {
    type V = ComprobacionV;

    open spec fn deep_view(&self) -> ComprobacionV {
        self@
    }
}

impl Clone for Comprobacion {
    /// A clone carries the same record value.
    fn clone(&self) -> (r: Self)
        ensures
            r@ == self@,
    {
        Comprobacion {
            id: self.id.clone(),
            equipo_id: self.equipo_id.clone(),
            fecha: self.fecha.clone(),
            tipo: self.tipo.clone(),
            resultado: self.resultado.clone(),
            responsable: self.responsable.clone(),
            observaciones: self.observaciones.clone(),
            created_at: self.created_at.clone(),
            updated_at: self.updated_at.clone(),
        }
    }
}

/// Fields a caller supplies to create an equipment check.
#[derive(Debug)]
pub struct CreateComprobacion {
    pub equipo_id: String,
    pub fecha: String,
    pub tipo: String,
    pub resultado: String,
    pub responsable: Option<String>,
    pub observaciones: Option<String>,
}

/// A partial update of an equipment check.
#[derive(Debug)]
pub struct UpdateComprobacion {
    pub fecha: Option<String>,
    pub tipo: Option<String>,
    pub resultado: Option<String>,
    pub responsable: Option<String>,
    pub observaciones: Option<String>,
}

/// The number of spreadsheet columns an equipment-check row must have.
pub const COMPROBACION_COLS: usize = 9;

/// What an equipment-check row decodes to, or `None` when the row is
/// shorter than the required column count.
pub open spec fn spec_decode_comprobacion(row: Seq<Seq<char>>) -> Option<ComprobacionV> {
    if row.len() < COMPROBACION_COLS {
        None
    } else {
        Some(
            ComprobacionV {
                id: row[0],
                equipo_id: row[1],
                fecha: row[2],
                tipo: row[3],
                resultado: row[4],
                responsable: spec_opt_cell(row, 5),
                observaciones: spec_opt_cell(row, 6),
                created_at: row[7],
                updated_at: row[8],
            },
        )
    }
}

/// What an equipment check encodes to: its spreadsheet row.
pub open spec fn spec_encode_comprobacion(c: ComprobacionV) -> Seq<Seq<char>> {
    seq![
        c.id,
        c.equipo_id,
        c.fecha,
        c.tipo,
        c.resultado,
        spec_opt_str(c.responsable),
        spec_opt_str(c.observaciones),
        c.created_at,
        c.updated_at,
    ]
}

/// An equipment-check record is well formed when every optional field is
/// `None` or non-empty.
pub open spec fn wf_comprobacion(c: ComprobacionV) -> bool {
    &&& spec_opt_wf(c.responsable)
    &&& spec_opt_wf(c.observaciones)
}

impl Comprobacion {
    /// Decodes a spreadsheet row; `None` exactly when the row has fewer
    /// than the required number of cells.
    pub fn from_row(row: &[String]) -> (r: Option<Comprobacion>)
        ensures
            match r {
                Some(c) => spec_decode_comprobacion(spec_cells(row@)) == Some(c@),
                None => spec_decode_comprobacion(spec_cells(row@)) is None,
            },
            r is None <==> row@.len() < COMPROBACION_COLS,
    {
        if row.len() < COMPROBACION_COLS {
            return None;
        }
        let c = Comprobacion {
            id: req_cell(row, 0),
            equipo_id: req_cell(row, 1),
            fecha: req_cell(row, 2),
            tipo: req_cell(row, 3),
            resultado: req_cell(row, 4),
            responsable: opt_cell(row, 5),
            observaciones: opt_cell(row, 6),
            created_at: req_cell(row, 7),
            updated_at: req_cell(row, 8),
        };
        proof {
            assert(c@ =~= spec_decode_comprobacion(spec_cells(row@)).unwrap());
        }
        Some(c)
    }

    /// Encodes the equipment check as its spreadsheet row.
    pub fn to_row(&self) -> (r: Vec<String>)
        ensures
            spec_cells(r@) == spec_encode_comprobacion(self@),
            r@.len() == COMPROBACION_COLS,
    {
        let r = vec![
            self.id.clone(),
            self.equipo_id.clone(),
            self.fecha.clone(),
            self.tipo.clone(),
            self.resultado.clone(),
            opt_str(&self.responsable),
            opt_str(&self.observaciones),
            self.created_at.clone(),
            self.updated_at.clone(),
        ];
        proof {
            assert(spec_cells(r@) =~= spec_encode_comprobacion(self@));
        }
        r
    }
}

/// Law: the equipment-check codec round-trips on well-formed records.
pub proof fn lemma_comprobacion_roundtrip(c: ComprobacionV)
    requires
        wf_comprobacion(c),
    ensures
        spec_decode_comprobacion(spec_encode_comprobacion(c)) == Some(c),
{
    let row = spec_encode_comprobacion(c);
    assert(row.len() == COMPROBACION_COLS);
    assert(spec_decode_comprobacion(row).unwrap() =~= c);
}

} // verus!
