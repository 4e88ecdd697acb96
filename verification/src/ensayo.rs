//! The test-record entity (ensayo) and its row codec.
//!
//! A test record carries a workflow state serialized as its label. A
//! malformed persisted label decodes to the machine's initial state rather
//! than aborting the row; only the direct parse boundary fails hard.

use vstd::prelude::*;
use crate::codec::{
    bool_cell, bool_str, opt_cell, opt_str, req_cell, spec_bool_cell, spec_bool_str, spec_cells,
    spec_opt_cell, spec_opt_str, spec_opt_wf, lemma_bool_roundtrip,
};
use crate::text::{
    join_commas, spec_clean_piece, spec_join_commas, spec_split_trimmed, split_trimmed,
    lemma_join_split_roundtrip,
};
use crate::workflow::{parse_state, spec_parse_state, WorkflowState, lemma_label_parses};

verus! {

/// A laboratory test request.
#[derive(Debug)]
pub struct Ensayo {
    pub id: String,
    pub codigo: String,
    pub tipo: String,
    pub perforacion_id: String,
    pub proyecto_id: String,
    pub muestra: String,
    pub muestra_id: Option<String>,
    pub norma: String,
    pub workflow_state: WorkflowState,
    pub fecha_solicitud: String,
    pub fecha_programacion: Option<String>,
    pub fecha_ejecucion: Option<String>,
    pub fecha_reporte: Option<String>,
    pub fecha_entrega: Option<String>,
    pub tecnico_id: Option<String>,
    pub tecnico_nombre: Option<String>,
    pub sheet_id: Option<String>,
    pub sheet_url: Option<String>,
    pub equipos_utilizados: Vec<String>,
    pub observaciones: Option<String>,
    pub urgente: bool,
    pub pdf_drive_id: Option<String>,
    pub pdf_url: Option<String>,
    pub pdf_generated_at: Option<String>,
    pub perforacion_folder_id: Option<String>,
    pub created_at: String,
    pub updated_at: String,
}

/// The mathematical value of a test record.
#[verifier::ext_equal]
pub ghost struct EnsayoV {
    pub id: Seq<char>,
    pub codigo: Seq<char>,
    pub tipo: Seq<char>,
    pub perforacion_id: Seq<char>,
    pub proyecto_id: Seq<char>,
    pub muestra: Seq<char>,
    pub muestra_id: Option<Seq<char>>,
    pub norma: Seq<char>,
    pub workflow_state: WorkflowState,
    pub fecha_solicitud: Seq<char>,
    pub fecha_programacion: Option<Seq<char>>,
    pub fecha_ejecucion: Option<Seq<char>>,
    pub fecha_reporte: Option<Seq<char>>,
    pub fecha_entrega: Option<Seq<char>>,
    pub tecnico_id: Option<Seq<char>>,
    pub tecnico_nombre: Option<Seq<char>>,
    pub sheet_id: Option<Seq<char>>,
    pub sheet_url: Option<Seq<char>>,
    pub equipos_utilizados: Seq<Seq<char>>,
    pub observaciones: Option<Seq<char>>,
    pub urgente: bool,
    pub pdf_drive_id: Option<Seq<char>>,
    pub pdf_url: Option<Seq<char>>,
    pub pdf_generated_at: Option<Seq<char>>,
    pub perforacion_folder_id: Option<Seq<char>>,
    pub created_at: Seq<char>,
    pub updated_at: Seq<char>,
}

impl View for Ensayo {
    type V = EnsayoV;

    open spec fn view(&self) -> EnsayoV {
        EnsayoV {
            id: self.id@,
            codigo: self.codigo@,
            tipo: self.tipo@,
            perforacion_id: self.perforacion_id@,
            proyecto_id: self.proyecto_id@,
            muestra: self.muestra@,
            muestra_id: self.muestra_id.deep_view(),
            norma: self.norma@,
            workflow_state: self.workflow_state,
            fecha_solicitud: self.fecha_solicitud@,
            fecha_programacion: self.fecha_programacion.deep_view(),
            fecha_ejecucion: self.fecha_ejecucion.deep_view(),
            fecha_reporte: self.fecha_reporte.deep_view(),
            fecha_entrega: self.fecha_entrega.deep_view(),
            tecnico_id: self.tecnico_id.deep_view(),
            tecnico_nombre: self.tecnico_nombre.deep_view(),
            sheet_id: self.sheet_id.deep_view(),
            sheet_url: self.sheet_url.deep_view(),
            equipos_utilizados: self.equipos_utilizados.deep_view(),
            observaciones: self.observaciones.deep_view(),
            urgente: self.urgente,
            pdf_drive_id: self.pdf_drive_id.deep_view(),
            pdf_url: self.pdf_url.deep_view(),
            pdf_generated_at: self.pdf_generated_at.deep_view(),
            perforacion_folder_id: self.perforacion_folder_id.deep_view(),
            created_at: self.created_at@,
            updated_at: self.updated_at@,
        }
    }
}

impl DeepView for Ensayo {
    type V = EnsayoV;

    open spec fn deep_view(&self) -> EnsayoV {
        self@
    }
}

impl Clone for Ensayo {
    /// A clone carries the same record value.
    fn clone(&self) -> (r: Self)
        ensures
            r@ == self@,
    {
        let equipos = self.equipos_utilizados.clone();
        proof {
            assert(equipos.deep_view() =~= self.equipos_utilizados.deep_view());
        }
        let r = Ensayo {
            id: self.id.clone(),
            codigo: self.codigo.clone(),
            tipo: self.tipo.clone(),
            perforacion_id: self.perforacion_id.clone(),
            proyecto_id: self.proyecto_id.clone(),
            muestra: self.muestra.clone(),
            muestra_id: self.muestra_id.clone(),
            norma: self.norma.clone(),
            workflow_state: self.workflow_state,
            fecha_solicitud: self.fecha_solicitud.clone(),
            fecha_programacion: self.fecha_programacion.clone(),
            fecha_ejecucion: self.fecha_ejecucion.clone(),
            fecha_reporte: self.fecha_reporte.clone(),
            fecha_entrega: self.fecha_entrega.clone(),
            tecnico_id: self.tecnico_id.clone(),
            tecnico_nombre: self.tecnico_nombre.clone(),
            sheet_id: self.sheet_id.clone(),
            sheet_url: self.sheet_url.clone(),
            equipos_utilizados: equipos,
            observaciones: self.observaciones.clone(),
            urgente: self.urgente,
            pdf_drive_id: self.pdf_drive_id.clone(),
            pdf_url: self.pdf_url.clone(),
            pdf_generated_at: self.pdf_generated_at.clone(),
            perforacion_folder_id: self.perforacion_folder_id.clone(),
            created_at: self.created_at.clone(),
            updated_at: self.updated_at.clone(),
        };
        proof {
            assert(r@ =~= self@);
        }
        r
    }
}

/// Fields a caller supplies to create a test record.
#[derive(Debug)]
pub struct CreateEnsayo {
    pub tipo: String,
    pub perforacion_id: String,
    pub proyecto_id: String,
    pub muestra: String,
    pub muestra_id: Option<String>,
    pub norma: String,
    pub fecha_solicitud: String,
    pub urgente: Option<bool>,
    pub observaciones: Option<String>,
}

/// A partial update of a test record: absent fields keep their current
/// value.
#[derive(Debug)]
pub struct UpdateEnsayo {
    pub workflow_state: Option<WorkflowState>,
    pub fecha_programacion: Option<String>,
    pub fecha_ejecucion: Option<String>,
    pub fecha_reporte: Option<String>,
    pub fecha_entrega: Option<String>,
    pub tecnico_id: Option<String>,
    pub tecnico_nombre: Option<String>,
    pub observaciones: Option<String>,
}

/// A request to change only the workflow state of a test record.
#[derive(Debug)]
pub struct UpdateEnsayoStatus {
    pub workflow_state: WorkflowState,
}

/// The number of spreadsheet columns a test-record row must have.
pub const ENSAYO_COLS: usize = 27;

/// What the workflow-state cell decodes to: the parsed state, or the
/// initial state when the label is unrecognized.
pub open spec fn spec_state_cell(s: Seq<char>) -> WorkflowState {
    match spec_parse_state(s) {
        Some(st) => st,
        None => WorkflowState::E1,
    }
}

/// What a test-record row decodes to, or `None` when the row is shorter
/// than the required column count.
pub open spec fn spec_decode_ensayo(row: Seq<Seq<char>>) -> Option<EnsayoV> {
    if row.len() < ENSAYO_COLS {
        None
    } else {
        Some(
            EnsayoV {
                id: row[0],
                codigo: row[1],
                tipo: row[2],
                perforacion_id: row[3],
                proyecto_id: row[4],
                muestra: row[5],
                muestra_id: spec_opt_cell(row, 6),
                norma: row[7],
                workflow_state: spec_state_cell(row[8]),
                fecha_solicitud: row[9],
                fecha_programacion: spec_opt_cell(row, 10),
                fecha_ejecucion: spec_opt_cell(row, 11),
                fecha_reporte: spec_opt_cell(row, 12),
                fecha_entrega: spec_opt_cell(row, 13),
                tecnico_id: spec_opt_cell(row, 14),
                tecnico_nombre: spec_opt_cell(row, 15),
                sheet_id: spec_opt_cell(row, 16),
                sheet_url: spec_opt_cell(row, 17),
                equipos_utilizados: spec_split_trimmed(row[18]),
                observaciones: spec_opt_cell(row, 19),
                urgente: spec_bool_cell(row, 20, false),
                pdf_drive_id: spec_opt_cell(row, 21),
                pdf_url: spec_opt_cell(row, 22),
                pdf_generated_at: spec_opt_cell(row, 23),
                perforacion_folder_id: spec_opt_cell(row, 24),
                created_at: row[25],
                updated_at: row[26],
            },
        )
    }
}

/// What a test record encodes to: its spreadsheet row, one cell per column,
/// with the state as its label and the equipment list joined by commas.
pub open spec fn spec_encode_ensayo(e: EnsayoV) -> Seq<Seq<char>> {
    seq![
        e.id,
        e.codigo,
        e.tipo,
        e.perforacion_id,
        e.proyecto_id,
        e.muestra,
        spec_opt_str(e.muestra_id),
        e.norma,
        e.workflow_state.spec_label(),
        e.fecha_solicitud,
        spec_opt_str(e.fecha_programacion),
        spec_opt_str(e.fecha_ejecucion),
        spec_opt_str(e.fecha_reporte),
        spec_opt_str(e.fecha_entrega),
        spec_opt_str(e.tecnico_id),
        spec_opt_str(e.tecnico_nombre),
        spec_opt_str(e.sheet_id),
        spec_opt_str(e.sheet_url),
        spec_join_commas(e.equipos_utilizados),
        spec_opt_str(e.observaciones),
        spec_bool_str(e.urgente),
        spec_opt_str(e.pdf_drive_id),
        spec_opt_str(e.pdf_url),
        spec_opt_str(e.pdf_generated_at),
        spec_opt_str(e.perforacion_folder_id),
        e.created_at,
        e.updated_at,
    ]
}

/// A test record is well formed when every optional field is `None` or
/// non-empty, and the equipment list is non-empty and holds only pieces
/// that survive the comma codec (no commas, no whitespace at the ends).
pub open spec fn wf_ensayo(e: EnsayoV) -> bool {
    &&& spec_opt_wf(e.muestra_id)
    &&& spec_opt_wf(e.fecha_programacion)
    &&& spec_opt_wf(e.fecha_ejecucion)
    &&& spec_opt_wf(e.fecha_reporte)
    &&& spec_opt_wf(e.fecha_entrega)
    &&& spec_opt_wf(e.tecnico_id)
    &&& spec_opt_wf(e.tecnico_nombre)
    &&& spec_opt_wf(e.sheet_id)
    &&& spec_opt_wf(e.sheet_url)
    &&& spec_opt_wf(e.observaciones)
    &&& spec_opt_wf(e.pdf_drive_id)
    &&& spec_opt_wf(e.pdf_url)
    &&& spec_opt_wf(e.pdf_generated_at)
    &&& spec_opt_wf(e.perforacion_folder_id)
    &&& e.equipos_utilizados.len() >= 1
    &&& forall|k: int| 0 <= k < e.equipos_utilizados.len() ==> spec_clean_piece(
        #[trigger] e.equipos_utilizados[k],
    )
}

impl Ensayo {
    /// Decodes a spreadsheet row; `None` exactly when the row has fewer
    /// than the required number of cells. An unrecognized workflow label
    /// decodes to the initial state instead of failing the row.
    pub fn from_row(row: &[String]) -> (r: Option<Ensayo>)
        ensures
            match r {
                Some(e) => spec_decode_ensayo(spec_cells(row@)) == Some(e@),
                None => spec_decode_ensayo(spec_cells(row@)) is None,
            },
            r is None <==> row@.len() < ENSAYO_COLS,
    {
        if row.len() < ENSAYO_COLS {
            return None;
        }
        let workflow_state = match parse_state(row[8].as_str()) {
            Ok(st) => st,
            Err(_) => WorkflowState::E1,
        };
        let e = Ensayo {
            id: req_cell(row, 0),
            codigo: req_cell(row, 1),
            tipo: req_cell(row, 2),
            perforacion_id: req_cell(row, 3),
            proyecto_id: req_cell(row, 4),
            muestra: req_cell(row, 5),
            muestra_id: opt_cell(row, 6),
            norma: req_cell(row, 7),
            workflow_state,
            fecha_solicitud: req_cell(row, 9),
            fecha_programacion: opt_cell(row, 10),
            fecha_ejecucion: opt_cell(row, 11),
            fecha_reporte: opt_cell(row, 12),
            fecha_entrega: opt_cell(row, 13),
            tecnico_id: opt_cell(row, 14),
            tecnico_nombre: opt_cell(row, 15),
            sheet_id: opt_cell(row, 16),
            sheet_url: opt_cell(row, 17),
            equipos_utilizados: split_trimmed(row[18].as_str()),
            observaciones: opt_cell(row, 19),
            urgente: bool_cell(row, 20, false),
            pdf_drive_id: opt_cell(row, 21),
            pdf_url: opt_cell(row, 22),
            pdf_generated_at: opt_cell(row, 23),
            perforacion_folder_id: opt_cell(row, 24),
            created_at: req_cell(row, 25),
            updated_at: req_cell(row, 26),
        };
        proof {
            assert(spec_cells(row@)[8] == row@[8]@);
            assert(spec_cells(row@)[18] == row@[18]@);
            assert(e@ =~= spec_decode_ensayo(spec_cells(row@)).unwrap());
        }
        Some(e)
    }

    /// Encodes the test record as its spreadsheet row.
    pub fn to_row(&self) -> (r: Vec<String>)
        ensures
            spec_cells(r@) == spec_encode_ensayo(self@),
            r@.len() == ENSAYO_COLS,
    {
        let r = vec![
            self.id.clone(),
            self.codigo.clone(),
            self.tipo.clone(),
            self.perforacion_id.clone(),
            self.proyecto_id.clone(),
            self.muestra.clone(),
            opt_str(&self.muestra_id),
            self.norma.clone(),
            self.workflow_state.label().to_owned(),
            self.fecha_solicitud.clone(),
            opt_str(&self.fecha_programacion),
            opt_str(&self.fecha_ejecucion),
            opt_str(&self.fecha_reporte),
            opt_str(&self.fecha_entrega),
            opt_str(&self.tecnico_id),
            opt_str(&self.tecnico_nombre),
            opt_str(&self.sheet_id),
            opt_str(&self.sheet_url),
            join_commas(&self.equipos_utilizados),
            opt_str(&self.observaciones),
            bool_str(self.urgente),
            opt_str(&self.pdf_drive_id),
            opt_str(&self.pdf_url),
            opt_str(&self.pdf_generated_at),
            opt_str(&self.perforacion_folder_id),
            self.created_at.clone(),
            self.updated_at.clone(),
        ];
        proof {
            assert(spec_cells(r@) =~= spec_encode_ensayo(self@));
        }
        r
    }

    /// The result of overlaying a partial update: supplied fields replace
    /// the current ones, absent fields keep them.
    pub open spec fn spec_apply_update(e: EnsayoV, u: &UpdateEnsayo) -> EnsayoV {
        EnsayoV {
            workflow_state: match u.workflow_state {
                Some(st) => st,
                None => e.workflow_state,
            },
            fecha_programacion: match u.fecha_programacion {
                Some(ref v) => Some(v@),
                None => e.fecha_programacion,
            },
            fecha_ejecucion: match u.fecha_ejecucion {
                Some(ref v) => Some(v@),
                None => e.fecha_ejecucion,
            },
            fecha_reporte: match u.fecha_reporte {
                Some(ref v) => Some(v@),
                None => e.fecha_reporte,
            },
            fecha_entrega: match u.fecha_entrega {
                Some(ref v) => Some(v@),
                None => e.fecha_entrega,
            },
            tecnico_id: match u.tecnico_id { Some(ref v) => Some(v@), None => e.tecnico_id },
            tecnico_nombre: match u.tecnico_nombre {
                Some(ref v) => Some(v@),
                None => e.tecnico_nombre,
            },
            observaciones: match u.observaciones {
                Some(ref v) => Some(v@),
                None => e.observaciones,
            },
            ..e
        }
    }

    /// Overlays a partial update onto this test record, leaving identity,
    /// document and audit fields untouched.
    pub fn apply_update(&mut self, u: UpdateEnsayo)
        ensures
            final(self)@ == Self::spec_apply_update(old(self)@, &u),
    {
        if let Some(st) = u.workflow_state {
            self.workflow_state = st;
        }
        if let Some(v) = u.fecha_programacion {
            self.fecha_programacion = Some(v);
        }
        if let Some(v) = u.fecha_ejecucion {
            self.fecha_ejecucion = Some(v);
        }
        if let Some(v) = u.fecha_reporte {
            self.fecha_reporte = Some(v);
        }
        if let Some(v) = u.fecha_entrega {
            self.fecha_entrega = Some(v);
        }
        if let Some(v) = u.tecnico_id {
            self.tecnico_id = Some(v);
        }
        if let Some(v) = u.tecnico_nombre {
            self.tecnico_nombre = Some(v);
        }
        if let Some(v) = u.observaciones {
            self.observaciones = Some(v);
        }
        proof {
            assert(self@ =~= Self::spec_apply_update(old(self)@, &u));
        }
    }
}

/// Law: the test-record codec round-trips — decoding an encoded
/// well-formed record gives the record back, workflow state and equipment
/// list included.
pub proof fn lemma_ensayo_roundtrip(e: EnsayoV)
    requires
        wf_ensayo(e),
    ensures
        spec_decode_ensayo(spec_encode_ensayo(e)) == Some(e),
{
    lemma_bool_roundtrip(e.urgente);
    lemma_label_parses(e.workflow_state);
    lemma_join_split_roundtrip(e.equipos_utilizados);
    let row = spec_encode_ensayo(e);
    assert(row.len() == ENSAYO_COLS);
    assert(row[8] == e.workflow_state.spec_label());
    assert(spec_state_cell(row[8]) == e.workflow_state);
    assert(row[18] == spec_join_commas(e.equipos_utilizados));
    assert(spec_split_trimmed(row[18]) == e.equipos_utilizados);
    assert(spec_decode_ensayo(row).unwrap() =~= e);
}

} // verus!
