//! The project entity and its row codec.

use vstd::prelude::*;
use crate::codec::{
    opt_cell, opt_str, req_cell, spec_cells, spec_opt_cell, spec_opt_str, spec_opt_wf,
};

verus! {

/// A project that groups drillings and tests for one client.
#[derive(Debug)]
pub struct Proyecto {
    pub id: String,
    pub codigo: String,
    pub nombre: String,
    pub descripcion: String,
    pub fecha_inicio: String,
    pub fecha_fin_estimada: Option<String>,
    pub cliente_id: String,
    pub cliente_nombre: String,
    pub contacto: Option<String>,
    pub estado: String,
    pub fecha_fin_real: Option<String>,
    pub drive_folder_id: Option<String>,
    pub created_at: String,
    pub updated_at: String,
    pub created_by: Option<String>,
}

/// The mathematical value of a project record.
#[verifier::ext_equal]
pub ghost struct ProyectoV {
    pub id: Seq<char>,
    pub codigo: Seq<char>,
    pub nombre: Seq<char>,
    pub descripcion: Seq<char>,
    pub fecha_inicio: Seq<char>,
    pub fecha_fin_estimada: Option<Seq<char>>,
    pub cliente_id: Seq<char>,
    pub cliente_nombre: Seq<char>,
    pub contacto: Option<Seq<char>>,
    pub estado: Seq<char>,
    pub fecha_fin_real: Option<Seq<char>>,
    pub drive_folder_id: Option<Seq<char>>,
    pub created_at: Seq<char>,
    pub updated_at: Seq<char>,
    pub created_by: Option<Seq<char>>,
}

impl View for Proyecto {
    type V = ProyectoV;

    open spec fn view(&self) -> ProyectoV {
        ProyectoV {
            id: self.id@,
            codigo: self.codigo@,
            nombre: self.nombre@,
            descripcion: self.descripcion@,
            fecha_inicio: self.fecha_inicio@,
            fecha_fin_estimada: self.fecha_fin_estimada.deep_view(),
            cliente_id: self.cliente_id@,
            cliente_nombre: self.cliente_nombre@,
            contacto: self.contacto.deep_view(),
            estado: self.estado@,
            fecha_fin_real: self.fecha_fin_real.deep_view(),
            drive_folder_id: self.drive_folder_id.deep_view(),
            created_at: self.created_at@,
            updated_at: self.updated_at@,
            created_by: self.created_by.deep_view(),
        }
    }
}

impl DeepView for Proyecto {
    type V = ProyectoV;

    open spec fn deep_view(&self) -> ProyectoV {
        self@
    }
}

impl Clone for Proyecto {
    /// A clone carries the same record value.
    fn clone(&self) -> (r: Self)
        ensures
            r@ == self@,
    {
        Proyecto {
            id: self.id.clone(),
            codigo: self.codigo.clone(),
            nombre: self.nombre.clone(),
            descripcion: self.descripcion.clone(),
            fecha_inicio: self.fecha_inicio.clone(),
            fecha_fin_estimada: self.fecha_fin_estimada.clone(),
            cliente_id: self.cliente_id.clone(),
            cliente_nombre: self.cliente_nombre.clone(),
            contacto: self.contacto.clone(),
            estado: self.estado.clone(),
            fecha_fin_real: self.fecha_fin_real.clone(),
            drive_folder_id: self.drive_folder_id.clone(),
            created_at: self.created_at.clone(),
            updated_at: self.updated_at.clone(),
            created_by: self.created_by.clone(),
        }
    }
}

/// Fields a caller supplies to create a project.
#[derive(Debug)]
pub struct CreateProyecto {
    pub nombre: String,
    pub descripcion: String,
    pub fecha_inicio: String,
    pub fecha_fin_estimada: Option<String>,
    pub cliente_id: String,
    pub cliente_nombre: String,
    pub contacto: Option<String>,
}

/// A partial update of a project: absent fields keep their current value.
#[derive(Debug)]
pub struct UpdateProyecto {
    pub nombre: Option<String>,
    pub descripcion: Option<String>,
    pub fecha_fin_estimada: Option<String>,
    pub contacto: Option<String>,
    pub estado: Option<String>,
    pub fecha_fin_real: Option<String>,
}

/// The number of spreadsheet columns a project row must have.
pub const PROYECTO_COLS: usize = 15;

/// What a project row decodes to, or `None` when the row is shorter than
/// the required column count.
pub open spec fn spec_decode_proyecto(row: Seq<Seq<char>>) -> Option<ProyectoV> {
    if row.len() < PROYECTO_COLS {
        None
    } else {
        Some(
            ProyectoV {
                id: row[0],
                codigo: row[1],
                nombre: row[2],
                descripcion: row[3],
                fecha_inicio: row[4],
                fecha_fin_estimada: spec_opt_cell(row, 5),
                cliente_id: row[6],
                cliente_nombre: row[7],
                contacto: spec_opt_cell(row, 8),
                estado: row[9],
                fecha_fin_real: spec_opt_cell(row, 10),
                drive_folder_id: spec_opt_cell(row, 11),
                created_at: row[12],
                updated_at: row[13],
                created_by: spec_opt_cell(row, 14),
            },
        )
    }
}

/// What a project encodes to: its spreadsheet row, one cell per column.
pub open spec fn spec_encode_proyecto(p: ProyectoV) -> Seq<Seq<char>> {
    seq![
        p.id,
        p.codigo,
        p.nombre,
        p.descripcion,
        p.fecha_inicio,
        spec_opt_str(p.fecha_fin_estimada),
        p.cliente_id,
        p.cliente_nombre,
        spec_opt_str(p.contacto),
        p.estado,
        spec_opt_str(p.fecha_fin_real),
        spec_opt_str(p.drive_folder_id),
        p.created_at,
        p.updated_at,
        spec_opt_str(p.created_by),
    ]
}

/// A project record is well formed when every optional field is `None` or
/// non-empty.
pub open spec fn wf_proyecto(p: ProyectoV) -> bool {
    &&& spec_opt_wf(p.fecha_fin_estimada)
    &&& spec_opt_wf(p.contacto)
    &&& spec_opt_wf(p.fecha_fin_real)
    &&& spec_opt_wf(p.drive_folder_id)
    &&& spec_opt_wf(p.created_by)
}

impl Proyecto {
    /// Decodes a spreadsheet row; `None` exactly when the row has fewer
    /// than the required number of cells.
    pub fn from_row(row: &[String]) -> (r: Option<Proyecto>)
        ensures
            match r {
                Some(p) => spec_decode_proyecto(spec_cells(row@)) == Some(p@),
                None => spec_decode_proyecto(spec_cells(row@)) is None,
            },
            r is None <==> row@.len() < PROYECTO_COLS,
    {
        if row.len() < PROYECTO_COLS {
            return None;
        }
        let p = Proyecto {
            id: req_cell(row, 0),
            codigo: req_cell(row, 1),
            nombre: req_cell(row, 2),
            descripcion: req_cell(row, 3),
            fecha_inicio: req_cell(row, 4),
            fecha_fin_estimada: opt_cell(row, 5),
            cliente_id: req_cell(row, 6),
            cliente_nombre: req_cell(row, 7),
            contacto: opt_cell(row, 8),
            estado: req_cell(row, 9),
            fecha_fin_real: opt_cell(row, 10),
            drive_folder_id: opt_cell(row, 11),
            created_at: req_cell(row, 12),
            updated_at: req_cell(row, 13),
            created_by: opt_cell(row, 14),
        };
        proof {
            assert(p@ =~= spec_decode_proyecto(spec_cells(row@)).unwrap());
        }
        Some(p)
    }

    /// Encodes the project as its spreadsheet row.
    pub fn to_row(&self) -> (r: Vec<String>)
        ensures
            spec_cells(r@) == spec_encode_proyecto(self@),
            r@.len() == PROYECTO_COLS,
    {
        let r = vec![
            self.id.clone(),
            self.codigo.clone(),
            self.nombre.clone(),
            self.descripcion.clone(),
            self.fecha_inicio.clone(),
            opt_str(&self.fecha_fin_estimada),
            self.cliente_id.clone(),
            self.cliente_nombre.clone(),
            opt_str(&self.contacto),
            self.estado.clone(),
            opt_str(&self.fecha_fin_real),
            opt_str(&self.drive_folder_id),
            self.created_at.clone(),
            self.updated_at.clone(),
            opt_str(&self.created_by),
        ];
        proof {
            assert(spec_cells(r@) =~= spec_encode_proyecto(self@));
        }
        r
    }
}

/// Law: the project codec round-trips — decoding an encoded well-formed
/// project gives the project back.
pub proof fn lemma_proyecto_roundtrip(p: ProyectoV)
    requires
        wf_proyecto(p),
    ensures
        spec_decode_proyecto(spec_encode_proyecto(p)) == Some(p),
{
    let row = spec_encode_proyecto(p);
    assert(row.len() == PROYECTO_COLS);
    assert(spec_decode_proyecto(row).unwrap() =~= p);
}

} // verus!
