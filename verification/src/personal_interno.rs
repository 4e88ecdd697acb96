//! The internal-staff entity and its row codec.

use vstd::prelude::*;
use crate::codec::{
    bool_cell, bool_str, opt_cell, opt_str, req_cell, spec_bool_cell, spec_bool_str, spec_cells,
    spec_opt_cell, spec_opt_str, spec_opt_wf, lemma_bool_roundtrip,
};

verus! {

/// A member of the laboratory's staff.
#[derive(Debug)]
pub struct PersonalInterno {
    pub id: String,
    pub codigo: String,
    pub nombre: String,
    pub apellido: String,
    pub cargo: String,
    pub email: String,
    pub telefono: Option<String>,
    pub activo: bool,
    pub created_at: String,
    pub updated_at: String,
}

/// The mathematical value of a staff record.
#[verifier::ext_equal]
pub ghost struct PersonalInternoV {
    pub id: Seq<char>,
    pub codigo: Seq<char>,
    pub nombre: Seq<char>,
    pub apellido: Seq<char>,
    pub cargo: Seq<char>,
    pub email: Seq<char>,
    pub telefono: Option<Seq<char>>,
    pub activo: bool,
    pub created_at: Seq<char>,
    pub updated_at: Seq<char>,
}

impl View for PersonalInterno {
    type V = PersonalInternoV;

    open spec fn view(&self) -> PersonalInternoV {
        PersonalInternoV {
            id: self.id@,
            codigo: self.codigo@,
            nombre: self.nombre@,
            apellido: self.apellido@,
            cargo: self.cargo@,
            email: self.email@,
            telefono: self.telefono.deep_view(),
            activo: self.activo,
            created_at: self.created_at@,
            updated_at: self.updated_at@,
        }
    }
}

impl DeepView for PersonalInterno {
    type V = PersonalInternoV;

    open spec fn deep_view(&self) -> PersonalInternoV {
        self@
    }
}

impl Clone for PersonalInterno {
    /// A clone carries the same record value.
    fn clone(&self) -> (r: Self)
        ensures
            r@ == self@,
    {
        PersonalInterno {
            id: self.id.clone(),
            codigo: self.codigo.clone(),
            nombre: self.nombre.clone(),
            apellido: self.apellido.clone(),
            cargo: self.cargo.clone(),
            email: self.email.clone(),
            telefono: self.telefono.clone(),
            activo: self.activo,
            created_at: self.created_at.clone(),
            updated_at: self.updated_at.clone(),
        }
    }
}

/// Fields a caller supplies to create a staff member.
#[derive(Debug)]
pub struct CreatePersonalInterno {
    pub nombre: String,
    pub apellido: String,
    pub cargo: String,
    pub email: String,
    pub telefono: Option<String>,
}

/// A partial update of a staff member.
#[derive(Debug)]
pub struct UpdatePersonalInterno {
    pub nombre: Option<String>,
    pub apellido: Option<String>,
    pub cargo: Option<String>,
    pub email: Option<String>,
    pub telefono: Option<String>,
    pub activo: Option<bool>,
}

/// The number of spreadsheet columns a staff row must have.
pub const PERSONAL_INTERNO_COLS: usize = 10;

/// What a staff row decodes to, or `None` when the row is shorter than the
/// required column count.
pub open spec fn spec_decode_personal(row: Seq<Seq<char>>) -> Option<PersonalInternoV> {
    if row.len() < PERSONAL_INTERNO_COLS {
        None
    } else {
        Some(
            PersonalInternoV {
                id: row[0],
                codigo: row[1],
                nombre: row[2],
                apellido: row[3],
                cargo: row[4],
                email: row[5],
                telefono: spec_opt_cell(row, 6),
                activo: spec_bool_cell(row, 7, true),
                created_at: row[8],
                updated_at: row[9],
            },
        )
    }
}

/// What a staff member encodes to: its spreadsheet row.
pub open spec fn spec_encode_personal(p: PersonalInternoV) -> Seq<Seq<char>> {
    seq![
        p.id,
        p.codigo,
        p.nombre,
        p.apellido,
        p.cargo,
        p.email,
        spec_opt_str(p.telefono),
        spec_bool_str(p.activo),
        p.created_at,
        p.updated_at,
    ]
}

/// A staff record is well formed when every optional field is `None` or
/// non-empty.
pub open spec fn wf_personal(p: PersonalInternoV) -> bool {
    spec_opt_wf(p.telefono)
}

impl PersonalInterno {
    /// Decodes a spreadsheet row; `None` exactly when the row has fewer
    /// than the required number of cells.
    pub fn from_row(row: &[String]) -> (r: Option<PersonalInterno>)
        ensures
            match r {
                Some(p) => spec_decode_personal(spec_cells(row@)) == Some(p@),
                None => spec_decode_personal(spec_cells(row@)) is None,
            },
            r is None <==> row@.len() < PERSONAL_INTERNO_COLS,
    {
        if row.len() < PERSONAL_INTERNO_COLS {
            return None;
        }
        let p = PersonalInterno {
            id: req_cell(row, 0),
            codigo: req_cell(row, 1),
            nombre: req_cell(row, 2),
            apellido: req_cell(row, 3),
            cargo: req_cell(row, 4),
            email: req_cell(row, 5),
            telefono: opt_cell(row, 6),
            activo: bool_cell(row, 7, true),
            created_at: req_cell(row, 8),
            updated_at: req_cell(row, 9),
        };
        proof {
            assert(p@ =~= spec_decode_personal(spec_cells(row@)).unwrap());
        }
        Some(p)
    }

    /// Encodes the staff member as its spreadsheet row.
    pub fn to_row(&self) -> (r: Vec<String>)
        ensures
            spec_cells(r@) == spec_encode_personal(self@),
            r@.len() == PERSONAL_INTERNO_COLS,
    {
        let r = vec![
            self.id.clone(),
            self.codigo.clone(),
            self.nombre.clone(),
            self.apellido.clone(),
            self.cargo.clone(),
            self.email.clone(),
            opt_str(&self.telefono),
            bool_str(self.activo),
            self.created_at.clone(),
            self.updated_at.clone(),
        ];
        proof {
            assert(spec_cells(r@) =~= spec_encode_personal(self@));
        }
        r
    }
}

/// Law: the staff codec round-trips on well-formed records.
pub proof fn lemma_personal_roundtrip(p: PersonalInternoV)
    requires
        wf_personal(p),
    ensures
        spec_decode_personal(spec_encode_personal(p)) == Some(p),
{
    lemma_bool_roundtrip(p.activo);
    let row = spec_encode_personal(p);
    assert(row.len() == PERSONAL_INTERNO_COLS);
    assert(spec_decode_personal(row).unwrap() =~= p);
}

} // verus!
