//! The client entity and its row codec.

use vstd::prelude::*;
use crate::codec::{
    bool_cell, bool_str, opt_cell, opt_str, req_cell, spec_bool_cell, spec_bool_str, spec_cells,
    spec_opt_cell, spec_opt_str, spec_opt_wf, lemma_bool_roundtrip,
};

verus! {

/// A client of the laboratory.
#[derive(Debug)]
pub struct Cliente {
    pub id: String,
    pub codigo: String,
    pub nombre: String,
    pub rut: Option<String>,
    pub direccion: Option<String>,
    pub ciudad: Option<String>,
    pub telefono: Option<String>,
    pub email: Option<String>,
    pub contacto_nombre: Option<String>,
    pub contacto_cargo: Option<String>,
    pub contacto_email: Option<String>,
    pub contacto_telefono: Option<String>,
    pub activo: bool,
    pub drive_folder_id: Option<String>,
    pub created_at: String,
    pub updated_at: String,
}

/// The mathematical value of a client record.
#[verifier::ext_equal]
pub ghost struct ClienteV {
    pub id: Seq<char>,
    pub codigo: Seq<char>,
    pub nombre: Seq<char>,
    pub rut: Option<Seq<char>>,
    pub direccion: Option<Seq<char>>,
    pub ciudad: Option<Seq<char>>,
    pub telefono: Option<Seq<char>>,
    pub email: Option<Seq<char>>,
    pub contacto_nombre: Option<Seq<char>>,
    pub contacto_cargo: Option<Seq<char>>,
    pub contacto_email: Option<Seq<char>>,
    pub contacto_telefono: Option<Seq<char>>,
    pub activo: bool,
    pub drive_folder_id: Option<Seq<char>>,
    pub created_at: Seq<char>,
    pub updated_at: Seq<char>,
}

impl View for Cliente {
    type V = ClienteV;

    open spec fn view(&self) -> ClienteV {
        ClienteV {
            id: self.id@,
            codigo: self.codigo@,
            nombre: self.nombre@,
            rut: self.rut.deep_view(),
            direccion: self.direccion.deep_view(),
            ciudad: self.ciudad.deep_view(),
            telefono: self.telefono.deep_view(),
            email: self.email.deep_view(),
            contacto_nombre: self.contacto_nombre.deep_view(),
            contacto_cargo: self.contacto_cargo.deep_view(),
            contacto_email: self.contacto_email.deep_view(),
            contacto_telefono: self.contacto_telefono.deep_view(),
            activo: self.activo,
            drive_folder_id: self.drive_folder_id.deep_view(),
            created_at: self.created_at@,
            updated_at: self.updated_at@,
        }
    }
}

impl DeepView for Cliente {
    type V = ClienteV;

    open spec fn deep_view(&self) -> ClienteV {
        self@
    }
}

impl Clone for Cliente {
    /// A clone carries the same record value.
    fn clone(&self) -> (r: Self)
        ensures
            r@ == self@,
    {
        Cliente {
            id: self.id.clone(),
            codigo: self.codigo.clone(),
            nombre: self.nombre.clone(),
            rut: self.rut.clone(),
            direccion: self.direccion.clone(),
            ciudad: self.ciudad.clone(),
            telefono: self.telefono.clone(),
            email: self.email.clone(),
            contacto_nombre: self.contacto_nombre.clone(),
            contacto_cargo: self.contacto_cargo.clone(),
            contacto_email: self.contacto_email.clone(),
            contacto_telefono: self.contacto_telefono.clone(),
            activo: self.activo,
            drive_folder_id: self.drive_folder_id.clone(),
            created_at: self.created_at.clone(),
            updated_at: self.updated_at.clone(),
        }
    }
}

/// Fields a caller supplies to create a client.
#[derive(Debug)]
pub struct CreateCliente {
    pub nombre: String,
    pub rut: Option<String>,
    pub direccion: Option<String>,
    pub ciudad: Option<String>,
    pub telefono: Option<String>,
    pub email: Option<String>,
    pub contacto_nombre: Option<String>,
}

/// A partial update of a client: absent fields keep their current value.
#[derive(Debug)]
pub struct UpdateCliente {
    pub nombre: Option<String>,
    pub rut: Option<String>,
    pub direccion: Option<String>,
    pub ciudad: Option<String>,
    pub telefono: Option<String>,
    pub email: Option<String>,
    pub contacto_nombre: Option<String>,
    pub contacto_cargo: Option<String>,
    pub contacto_email: Option<String>,
    pub contacto_telefono: Option<String>,
    pub activo: Option<bool>,
}

/// The number of spreadsheet columns a client row must have.
pub const CLIENTE_COLS: usize = 16;

/// What a client row decodes to, or `None` when the row is shorter than the
/// required column count.
pub open spec fn spec_decode_cliente(row: Seq<Seq<char>>) -> Option<ClienteV> {
    if row.len() < CLIENTE_COLS {
        None
    } else {
        Some(
            ClienteV {
                id: row[0],
                codigo: row[1],
                nombre: row[2],
                rut: spec_opt_cell(row, 3),
                direccion: spec_opt_cell(row, 4),
                ciudad: spec_opt_cell(row, 5),
                telefono: spec_opt_cell(row, 6),
                email: spec_opt_cell(row, 7),
                contacto_nombre: spec_opt_cell(row, 8),
                contacto_cargo: spec_opt_cell(row, 9),
                contacto_email: spec_opt_cell(row, 10),
                contacto_telefono: spec_opt_cell(row, 11),
                activo: spec_bool_cell(row, 12, true),
                drive_folder_id: spec_opt_cell(row, 13),
                created_at: row[14],
                updated_at: row[15],
            },
        )
    }
}

/// What a client encodes to: its spreadsheet row, one cell per column.
pub open spec fn spec_encode_cliente(c: ClienteV) -> Seq<Seq<char>> {
    seq![
        c.id,
        c.codigo,
        c.nombre,
        spec_opt_str(c.rut),
        spec_opt_str(c.direccion),
        spec_opt_str(c.ciudad),
        spec_opt_str(c.telefono),
        spec_opt_str(c.email),
        spec_opt_str(c.contacto_nombre),
        spec_opt_str(c.contacto_cargo),
        spec_opt_str(c.contacto_email),
        spec_opt_str(c.contacto_telefono),
        spec_bool_str(c.activo),
        spec_opt_str(c.drive_folder_id),
        c.created_at,
        c.updated_at,
    ]
}

/// A client record is well formed when every optional field is `None` or
/// non-empty.
pub open spec fn wf_cliente(c: ClienteV) -> bool {
    &&& spec_opt_wf(c.rut)
    &&& spec_opt_wf(c.direccion)
    &&& spec_opt_wf(c.ciudad)
    &&& spec_opt_wf(c.telefono)
    &&& spec_opt_wf(c.email)
    &&& spec_opt_wf(c.contacto_nombre)
    &&& spec_opt_wf(c.contacto_cargo)
    &&& spec_opt_wf(c.contacto_email)
    &&& spec_opt_wf(c.contacto_telefono)
    &&& spec_opt_wf(c.drive_folder_id)
}

impl Cliente {
    /// Decodes a spreadsheet row; `None` exactly when the row has fewer
    /// than the required number of cells.
    pub fn from_row(row: &[String]) -> (r: Option<Cliente>)
        ensures
            match r {
                Some(c) => spec_decode_cliente(spec_cells(row@)) == Some(c@),
                None => spec_decode_cliente(spec_cells(row@)) is None,
            },
            r is None <==> row@.len() < CLIENTE_COLS,
    {
        if row.len() < CLIENTE_COLS {
            return None;
        }
        let c = Cliente {
            id: req_cell(row, 0),
            codigo: req_cell(row, 1),
            nombre: req_cell(row, 2),
            rut: opt_cell(row, 3),
            direccion: opt_cell(row, 4),
            ciudad: opt_cell(row, 5),
            telefono: opt_cell(row, 6),
            email: opt_cell(row, 7),
            contacto_nombre: opt_cell(row, 8),
            contacto_cargo: opt_cell(row, 9),
            contacto_email: opt_cell(row, 10),
            contacto_telefono: opt_cell(row, 11),
            activo: bool_cell(row, 12, true),
            drive_folder_id: opt_cell(row, 13),
            created_at: req_cell(row, 14),
            updated_at: req_cell(row, 15),
        };
        proof {
            assert(c@ =~= spec_decode_cliente(spec_cells(row@)).unwrap());
        }
        Some(c)
    }

    /// Encodes the client as its spreadsheet row.
    pub fn to_row(&self) -> (r: Vec<String>)
        ensures
            spec_cells(r@) == spec_encode_cliente(self@),
            r@.len() == CLIENTE_COLS,
    {
        let r = vec![
            self.id.clone(),
            self.codigo.clone(),
            self.nombre.clone(),
            opt_str(&self.rut),
            opt_str(&self.direccion),
            opt_str(&self.ciudad),
            opt_str(&self.telefono),
            opt_str(&self.email),
            opt_str(&self.contacto_nombre),
            opt_str(&self.contacto_cargo),
            opt_str(&self.contacto_email),
            opt_str(&self.contacto_telefono),
            bool_str(self.activo),
            opt_str(&self.drive_folder_id),
            self.created_at.clone(),
            self.updated_at.clone(),
        ];
        proof {
            assert(spec_cells(r@) =~= spec_encode_cliente(self@));
        }
        r
    }

    /// The result of overlaying a partial update: supplied fields replace
    /// the current ones, absent fields keep them.
    pub open spec fn spec_apply_update(c: ClienteV, u: &UpdateCliente) -> ClienteV {
        ClienteV {
            nombre: match u.nombre { Some(ref v) => v@, None => c.nombre },
            rut: match u.rut { Some(ref v) => Some(v@), None => c.rut },
            direccion: match u.direccion { Some(ref v) => Some(v@), None => c.direccion },
            ciudad: match u.ciudad { Some(ref v) => Some(v@), None => c.ciudad },
            telefono: match u.telefono { Some(ref v) => Some(v@), None => c.telefono },
            email: match u.email { Some(ref v) => Some(v@), None => c.email },
            contacto_nombre: match u.contacto_nombre {
                Some(ref v) => Some(v@),
                None => c.contacto_nombre,
            },
            contacto_cargo: match u.contacto_cargo {
                Some(ref v) => Some(v@),
                None => c.contacto_cargo,
            },
            contacto_email: match u.contacto_email {
                Some(ref v) => Some(v@),
                None => c.contacto_email,
            },
            contacto_telefono: match u.contacto_telefono {
                Some(ref v) => Some(v@),
                None => c.contacto_telefono,
            },
            activo: match u.activo { Some(v) => v, None => c.activo },
            ..c
        }
    }

    /// Overlays a partial update onto this client, leaving identity and
    /// audit fields untouched.
    pub fn apply_update(&mut self, u: UpdateCliente)
        ensures
            final(self)@ == Self::spec_apply_update(old(self)@, &u),
    {
        if let Some(nombre) = u.nombre {
            self.nombre = nombre;
        }
        if let Some(rut) = u.rut {
            self.rut = Some(rut);
        }
        if let Some(direccion) = u.direccion {
            self.direccion = Some(direccion);
        }
        if let Some(ciudad) = u.ciudad {
            self.ciudad = Some(ciudad);
        }
        if let Some(telefono) = u.telefono {
            self.telefono = Some(telefono);
        }
        if let Some(email) = u.email {
            self.email = Some(email);
        }
        if let Some(contacto_nombre) = u.contacto_nombre {
            self.contacto_nombre = Some(contacto_nombre);
        }
        if let Some(contacto_cargo) = u.contacto_cargo {
            self.contacto_cargo = Some(contacto_cargo);
        }
        if let Some(contacto_email) = u.contacto_email {
            self.contacto_email = Some(contacto_email);
        }
        if let Some(contacto_telefono) = u.contacto_telefono {
            self.contacto_telefono = Some(contacto_telefono);
        }
        if let Some(activo) = u.activo {
            self.activo = activo;
        }
        proof {
            assert(self@ =~= Self::spec_apply_update(old(self)@, &u));
        }
    }
}

/// Law: the client codec round-trips — decoding an encoded well-formed
/// client gives the client back.
pub proof fn lemma_cliente_roundtrip(c: ClienteV)
    requires
        wf_cliente(c),
    ensures
        spec_decode_cliente(spec_encode_cliente(c)) == Some(c),
{
    lemma_bool_roundtrip(c.activo);
    let row = spec_encode_cliente(c);
    assert(row.len() == CLIENTE_COLS);
    assert(spec_decode_cliente(row).unwrap() =~= c);
}

} // verus!
