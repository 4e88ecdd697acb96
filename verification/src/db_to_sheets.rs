//! Incremental propagation from the relational store to the spreadsheet,
//! and the full-refresh recovery mode.
//!
//! The incremental pass selects only database-origin records written after
//! the watermark — the provenance tag is the sole eligibility signal, so
//! spreadsheet edits are never echoed back — and update-or-appends each one
//! by id. The full-refresh mode overwrites a sheet's whole body with the
//! store's current contents, bypassing the provenance filter.

use vstd::prelude::*;
use crate::cliente::{spec_encode_cliente, ClienteV};
use crate::codec::spec_cells;
use crate::ensayo::{spec_encode_ensayo, EnsayoV};
use crate::ensayo_store::{spec_ensayo_modified_since, EnsayoEntryV, EnsayoTable};
use crate::proyecto::{spec_encode_proyecto, ProyectoV};
use crate::proyecto_store::{spec_proyecto_modified_since, ProyectoEntryV, ProyectoTable};
use crate::rows::{lemma_row_index_props, spec_row_index, RowTable, SheetBook};
use crate::store::{spec_cliente_modified_since, ClienteEntryV, ClienteTable, Database};
use crate::sync::{FullSyncSummary, SyncResult};

verus! {

/// One outward write: overwrite the first row with this record's id, or
/// append the encoded row when the sheet has none.
pub open spec fn spec_push_cliente(sheet: Seq<Seq<Seq<char>>>, c: ClienteV) -> Seq<
    Seq<Seq<char>>,
> {
    let row = spec_encode_cliente(c);
    let i = spec_row_index(sheet, c.id);
    if i >= 0 {
        sheet.update(i, row)
    } else {
        sheet.push(row)
    }
}

/// The sheet after an incremental pass pushes these records, in order.
pub open spec fn spec_push_clientes(sel: Seq<ClienteV>, sheet: Seq<Seq<Seq<char>>>) -> Seq<
    Seq<Seq<char>>,
>
    decreases sel.len(),
{
    if sel.len() == 0 {
        sheet
    } else {
        spec_push_clientes(sel.skip(1), spec_push_cliente(sheet, sel[0]))
    }
}

/// How many of the pushed records found an existing row to overwrite.
pub open spec fn spec_pushed_cliente_updates(sel: Seq<ClienteV>, sheet: Seq<Seq<Seq<char>>>) -> int
    decreases sel.len(),
{
    if sel.len() == 0 {
        0
    } else {
        (if spec_row_index(sheet, sel[0].id) >= 0 {
            1int
        } else {
            0int
        }) + spec_pushed_cliente_updates(sel.skip(1), spec_push_cliente(sheet, sel[0]))
    }
}

/// Update-or-append counts split the pushed records.
proof fn lemma_pushed_cliente_updates_bounds(sel: Seq<ClienteV>, sheet: Seq<Seq<Seq<char>>>)
    ensures
        0 <= spec_pushed_cliente_updates(sel, sheet) <= sel.len(),
    decreases sel.len(),
{
    if sel.len() > 0 {
        lemma_pushed_cliente_updates_bounds(sel.skip(1), spec_push_cliente(sheet, sel[0]));
    }
}

/// One incremental outward pass for clients: pushes every database-origin
/// client written after the watermark, overwriting its sheet row by id or
/// appending one; every pushed record is counted, as an update or an
/// insert. In-memory sheet writes cannot fail, so the result carries no
/// errors.
pub fn sync_clientes_since(
    db: &ClienteTable,
    sheet: &mut RowTable,
    since: i64,
    now_ms: i64,
) -> (r: SyncResult)
    ensures
        final(sheet)@ == spec_push_clientes(
            spec_cliente_modified_since(db@, since as int),
            old(sheet)@,
        ),
        r.entity_type@ == "clientes"@,
        r.total_processed == spec_cliente_modified_since(db@, since as int).len(),
        r.updated == spec_pushed_cliente_updates(
            spec_cliente_modified_since(db@, since as int),
            old(sheet)@,
        ),
        r.inserted + r.updated == r.total_processed,
        r.errors@.len() == 0,
        r.started_at == now_ms,
        r.completed_at == now_ms,
{
    let mut result = SyncResult::new("clientes", now_ms);
    let selected = db.find_modified_since(since);
    let ghost sel = spec_cliente_modified_since(db@, since as int);
    let n = selected.len();
    let mut k: usize = 0;
    proof {
        assert(sel.skip(0) =~= sel);
        lemma_pushed_cliente_updates_bounds(sel, old(sheet)@);
    }
    while k < n
        invariant
            k <= n,
            n == selected@.len(),
            sel == selected.deep_view(),
            sel.len() == n,
            spec_push_clientes(sel, old(sheet)@) == spec_push_clientes(
                sel.skip(k as int),
                sheet@,
            ),
            result.updated + spec_pushed_cliente_updates(sel.skip(k as int), sheet@)
                == spec_pushed_cliente_updates(sel, old(sheet)@),
            result.total_processed == k,
            result.inserted + result.updated == k,
            result.entity_type@ == "clientes"@,
            result.errors@.len() == 0,
            result.started_at == now_ms,
            result.completed_at == now_ms,
            result.duration_ms == 0,
        decreases n - k,
    {
        proof {
            assert(sel.skip(k as int).skip(1) =~= sel.skip(k + 1));
            assert(sel.skip(k as int)[0] == sel[k as int]);
            assert(selected@[k as int]@ == sel[k as int]);
            lemma_pushed_cliente_updates_bounds(sel.skip(k + 1), spec_push_cliente(sheet@, sel[k as int]));
            lemma_row_index_props(sheet@, sel[k as int].id);
        }
        result.count_processed();
        let row = selected[k].to_row();
        proof {
            assert(row.deep_view() =~= spec_cells(row@));
        }
        if sheet.update_by_id(selected[k].id.as_str(), row) {
            result.count_updated();
        } else {
            let row_for_append = selected[k].to_row();
            proof {
                assert(row_for_append.deep_view() =~= spec_cells(row_for_append@));
            }
            sheet.append(row_for_append);
            result.count_inserted();
        }
        k = k + 1;
    }
    proof {
        assert(sel.skip(n as int) =~= Seq::<ClienteV>::empty());
    }
    result.finalize(now_ms);
    result
}

/// The whole-sheet image of the client table: one encoded row per stored
/// client, in table order.
pub open spec fn spec_all_cliente_rows(db: Seq<ClienteEntryV>) -> Seq<Seq<Seq<char>>> {
    Seq::new(db.len(), |i: int| spec_encode_cliente(db[i].rec))
}

/// Full-refresh outward pass for clients: overwrites the sheet body with
/// the current table contents, bypassing the provenance filter — the
/// recovery mode that re-seeds a sheet from scratch.
pub fn sync_all_clientes(db: &ClienteTable, sheet: &mut RowTable, now_ms: i64) -> (r: SyncResult)
    ensures
        final(sheet)@ == spec_all_cliente_rows(db@),
        r.entity_type@ == "clientes"@,
        r.total_processed == db@.len(),
        r.inserted == db@.len(),
        r.updated == 0,
        r.errors@.len() == 0,
        r.started_at == now_ms,
        r.completed_at == now_ms,
{
    let mut result = SyncResult::new("clientes", now_ms);
    let mut rows: Vec<Vec<String>> = Vec::new();
    let n = db.len();
    let mut k: usize = 0;
    while k < n
        invariant
            k <= n,
            n == db@.len(),
            rows@.len() == k,
            forall|i: int| 0 <= i < k ==> (#[trigger] rows@[i]).deep_view()
                == spec_encode_cliente(db@[i].rec),
            result.total_processed == k,
            result.inserted == k,
            result.updated == 0,
            result.entity_type@ == "clientes"@,
            result.errors@.len() == 0,
            result.started_at == now_ms,
            result.completed_at == now_ms,
            result.duration_ms == 0,
        decreases n - k,
    {
        let row = db.entry(k).rec.to_row();
        proof {
            assert(row.deep_view() =~= spec_cells(row@));
        }
        rows.push(row);
        result.count_processed();
        result.count_inserted();
        k = k + 1;
    }
    proof {
        assert(rows.deep_view() =~= spec_all_cliente_rows(db@));
    }
    sheet.replace_all(rows);
    result.finalize(now_ms);
    result
}

/// One outward write: overwrite the first row with this record's id, or
/// append the encoded row when the sheet has none.
pub open spec fn spec_push_proyecto(sheet: Seq<Seq<Seq<char>>>, c: ProyectoV) -> Seq<
    Seq<Seq<char>>,
> {
    let row = spec_encode_proyecto(c);
    let i = spec_row_index(sheet, c.id);
    if i >= 0 {
        sheet.update(i, row)
    } else {
        sheet.push(row)
    }
}

/// The sheet after an incremental pass pushes these records, in order.
pub open spec fn spec_push_proyectos(sel: Seq<ProyectoV>, sheet: Seq<Seq<Seq<char>>>) -> Seq<
    Seq<Seq<char>>,
>
    decreases sel.len(),
{
    if sel.len() == 0 {
        sheet
    } else {
        spec_push_proyectos(sel.skip(1), spec_push_proyecto(sheet, sel[0]))
    }
}

/// How many of the pushed records found an existing row to overwrite.
pub open spec fn spec_pushed_proyecto_updates(sel: Seq<ProyectoV>, sheet: Seq<Seq<Seq<char>>>) -> int
    decreases sel.len(),
{
    if sel.len() == 0 {
        0
    } else {
        (if spec_row_index(sheet, sel[0].id) >= 0 {
            1int
        } else {
            0int
        }) + spec_pushed_proyecto_updates(sel.skip(1), spec_push_proyecto(sheet, sel[0]))
    }
}

/// Update-or-append counts split the pushed records.
proof fn lemma_pushed_proyecto_updates_bounds(sel: Seq<ProyectoV>, sheet: Seq<Seq<Seq<char>>>)
    ensures
        0 <= spec_pushed_proyecto_updates(sel, sheet) <= sel.len(),
    decreases sel.len(),
{
    if sel.len() > 0 {
        lemma_pushed_proyecto_updates_bounds(sel.skip(1), spec_push_proyecto(sheet, sel[0]));
    }
}

/// One incremental outward pass for projects: pushes every database-origin
/// project written after the watermark, overwriting its sheet row by id or
/// appending one; every pushed record is counted, as an update or an
/// insert. In-memory sheet writes cannot fail, so the result carries no
/// errors.
pub fn sync_proyectos_since(
    db: &ProyectoTable,
    sheet: &mut RowTable,
    since: i64,
    now_ms: i64,
) -> (r: SyncResult)
    ensures
        final(sheet)@ == spec_push_proyectos(
            spec_proyecto_modified_since(db@, since as int),
            old(sheet)@,
        ),
        r.entity_type@ == "proyectos"@,
        r.total_processed == spec_proyecto_modified_since(db@, since as int).len(),
        r.updated == spec_pushed_proyecto_updates(
            spec_proyecto_modified_since(db@, since as int),
            old(sheet)@,
        ),
        r.inserted + r.updated == r.total_processed,
        r.errors@.len() == 0,
        r.started_at == now_ms,
        r.completed_at == now_ms,
{
    let mut result = SyncResult::new("proyectos", now_ms);
    let selected = db.find_modified_since(since);
    let ghost sel = spec_proyecto_modified_since(db@, since as int);
    let n = selected.len();
    let mut k: usize = 0;
    proof {
        assert(sel.skip(0) =~= sel);
        lemma_pushed_proyecto_updates_bounds(sel, old(sheet)@);
    }
    while k < n
        invariant
            k <= n,
            n == selected@.len(),
            sel == selected.deep_view(),
            sel.len() == n,
            spec_push_proyectos(sel, old(sheet)@) == spec_push_proyectos(
                sel.skip(k as int),
                sheet@,
            ),
            result.updated + spec_pushed_proyecto_updates(sel.skip(k as int), sheet@)
                == spec_pushed_proyecto_updates(sel, old(sheet)@),
            result.total_processed == k,
            result.inserted + result.updated == k,
            result.entity_type@ == "proyectos"@,
            result.errors@.len() == 0,
            result.started_at == now_ms,
            result.completed_at == now_ms,
            result.duration_ms == 0,
        decreases n - k,
    {
        proof {
            assert(sel.skip(k as int).skip(1) =~= sel.skip(k + 1));
            assert(sel.skip(k as int)[0] == sel[k as int]);
            assert(selected@[k as int]@ == sel[k as int]);
            lemma_pushed_proyecto_updates_bounds(sel.skip(k + 1), spec_push_proyecto(sheet@, sel[k as int]));
            lemma_row_index_props(sheet@, sel[k as int].id);
        }
        result.count_processed();
        let row = selected[k].to_row();
        proof {
            assert(row.deep_view() =~= spec_cells(row@));
        }
        if sheet.update_by_id(selected[k].id.as_str(), row) {
            result.count_updated();
        } else {
            let row_for_append = selected[k].to_row();
            proof {
                assert(row_for_append.deep_view() =~= spec_cells(row_for_append@));
            }
            sheet.append(row_for_append);
            result.count_inserted();
        }
        k = k + 1;
    }
    proof {
        assert(sel.skip(n as int) =~= Seq::<ProyectoV>::empty());
    }
    result.finalize(now_ms);
    result
}

/// The whole-sheet image of the project table: one encoded row per stored
/// client, in table order.
pub open spec fn spec_all_proyecto_rows(db: Seq<ProyectoEntryV>) -> Seq<Seq<Seq<char>>> {
    Seq::new(db.len(), |i: int| spec_encode_proyecto(db[i].rec))
}

/// Full-refresh outward pass for projects: overwrites the sheet body with
/// the current table contents, bypassing the provenance filter — the
/// recovery mode that re-seeds a sheet from scratch.
pub fn sync_all_proyectos(db: &ProyectoTable, sheet: &mut RowTable, now_ms: i64) -> (r: SyncResult)
    ensures
        final(sheet)@ == spec_all_proyecto_rows(db@),
        r.entity_type@ == "proyectos"@,
        r.total_processed == db@.len(),
        r.inserted == db@.len(),
        r.updated == 0,
        r.errors@.len() == 0,
        r.started_at == now_ms,
        r.completed_at == now_ms,
{
    let mut result = SyncResult::new("proyectos", now_ms);
    let mut rows: Vec<Vec<String>> = Vec::new();
    let n = db.len();
    let mut k: usize = 0;
    while k < n
        invariant
            k <= n,
            n == db@.len(),
            rows@.len() == k,
            forall|i: int| 0 <= i < k ==> (#[trigger] rows@[i]).deep_view()
                == spec_encode_proyecto(db@[i].rec),
            result.total_processed == k,
            result.inserted == k,
            result.updated == 0,
            result.entity_type@ == "proyectos"@,
            result.errors@.len() == 0,
            result.started_at == now_ms,
            result.completed_at == now_ms,
            result.duration_ms == 0,
        decreases n - k,
    {
        let row = db.entry(k).rec.to_row();
        proof {
            assert(row.deep_view() =~= spec_cells(row@));
        }
        rows.push(row);
        result.count_processed();
        result.count_inserted();
        k = k + 1;
    }
    proof {
        assert(rows.deep_view() =~= spec_all_proyecto_rows(db@));
    }
    sheet.replace_all(rows);
    result.finalize(now_ms);
    result
}

/// One outward write: overwrite the first row with this record's id, or
/// append the encoded row when the sheet has none.
pub open spec fn spec_push_ensayo(sheet: Seq<Seq<Seq<char>>>, c: EnsayoV) -> Seq<
    Seq<Seq<char>>,
> {
    let row = spec_encode_ensayo(c);
    let i = spec_row_index(sheet, c.id);
    if i >= 0 {
        sheet.update(i, row)
    } else {
        sheet.push(row)
    }
}

/// The sheet after an incremental pass pushes these records, in order.
pub open spec fn spec_push_ensayos(sel: Seq<EnsayoV>, sheet: Seq<Seq<Seq<char>>>) -> Seq<
    Seq<Seq<char>>,
>
    decreases sel.len(),
{
    if sel.len() == 0 {
        sheet
    } else {
        spec_push_ensayos(sel.skip(1), spec_push_ensayo(sheet, sel[0]))
    }
}

/// How many of the pushed records found an existing row to overwrite.
pub open spec fn spec_pushed_ensayo_updates(sel: Seq<EnsayoV>, sheet: Seq<Seq<Seq<char>>>) -> int
    decreases sel.len(),
{
    if sel.len() == 0 {
        0
    } else {
        (if spec_row_index(sheet, sel[0].id) >= 0 {
            1int
        } else {
            0int
        }) + spec_pushed_ensayo_updates(sel.skip(1), spec_push_ensayo(sheet, sel[0]))
    }
}

/// Update-or-append counts split the pushed records.
proof fn lemma_pushed_ensayo_updates_bounds(sel: Seq<EnsayoV>, sheet: Seq<Seq<Seq<char>>>)
    ensures
        0 <= spec_pushed_ensayo_updates(sel, sheet) <= sel.len(),
    decreases sel.len(),
{
    if sel.len() > 0 {
        lemma_pushed_ensayo_updates_bounds(sel.skip(1), spec_push_ensayo(sheet, sel[0]));
    }
}

/// One incremental outward pass for test records: pushes every database-origin
/// test record written after the watermark, overwriting its sheet row by id or
/// appending one; every pushed record is counted, as an update or an
/// insert. In-memory sheet writes cannot fail, so the result carries no
/// errors.
pub fn sync_ensayos_since(
    db: &EnsayoTable,
    sheet: &mut RowTable,
    since: i64,
    now_ms: i64,
) -> (r: SyncResult)
    ensures
        final(sheet)@ == spec_push_ensayos(
            spec_ensayo_modified_since(db@, since as int),
            old(sheet)@,
        ),
        r.entity_type@ == "ensayos"@,
        r.total_processed == spec_ensayo_modified_since(db@, since as int).len(),
        r.updated == spec_pushed_ensayo_updates(
            spec_ensayo_modified_since(db@, since as int),
            old(sheet)@,
        ),
        r.inserted + r.updated == r.total_processed,
        r.errors@.len() == 0,
        r.started_at == now_ms,
        r.completed_at == now_ms,
{
    let mut result = SyncResult::new("ensayos", now_ms);
    let selected = db.find_modified_since(since);
    let ghost sel = spec_ensayo_modified_since(db@, since as int);
    let n = selected.len();
    let mut k: usize = 0;
    proof {
        assert(sel.skip(0) =~= sel);
        lemma_pushed_ensayo_updates_bounds(sel, old(sheet)@);
    }
    while k < n
        invariant
            k <= n,
            n == selected@.len(),
            sel == selected.deep_view(),
            sel.len() == n,
            spec_push_ensayos(sel, old(sheet)@) == spec_push_ensayos(
                sel.skip(k as int),
                sheet@,
            ),
            result.updated + spec_pushed_ensayo_updates(sel.skip(k as int), sheet@)
                == spec_pushed_ensayo_updates(sel, old(sheet)@),
            result.total_processed == k,
            result.inserted + result.updated == k,
            result.entity_type@ == "ensayos"@,
            result.errors@.len() == 0,
            result.started_at == now_ms,
            result.completed_at == now_ms,
            result.duration_ms == 0,
        decreases n - k,
    {
        proof {
            assert(sel.skip(k as int).skip(1) =~= sel.skip(k + 1));
            assert(sel.skip(k as int)[0] == sel[k as int]);
            assert(selected@[k as int]@ == sel[k as int]);
            lemma_pushed_ensayo_updates_bounds(sel.skip(k + 1), spec_push_ensayo(sheet@, sel[k as int]));
            lemma_row_index_props(sheet@, sel[k as int].id);
        }
        result.count_processed();
        let row = selected[k].to_row();
        proof {
            assert(row.deep_view() =~= spec_cells(row@));
        }
        if sheet.update_by_id(selected[k].id.as_str(), row) {
            result.count_updated();
        } else {
            let row_for_append = selected[k].to_row();
            proof {
                assert(row_for_append.deep_view() =~= spec_cells(row_for_append@));
            }
            sheet.append(row_for_append);
            result.count_inserted();
        }
        k = k + 1;
    }
    proof {
        assert(sel.skip(n as int) =~= Seq::<EnsayoV>::empty());
    }
    result.finalize(now_ms);
    result
}

/// The whole-sheet image of the test-record table: one encoded row per stored
/// client, in table order.
pub open spec fn spec_all_ensayo_rows(db: Seq<EnsayoEntryV>) -> Seq<Seq<Seq<char>>> {
    Seq::new(db.len(), |i: int| spec_encode_ensayo(db[i].rec))
}

/// Full-refresh outward pass for test records: overwrites the sheet body with
/// the current table contents, bypassing the provenance filter — the
/// recovery mode that re-seeds a sheet from scratch.
pub fn sync_all_ensayos(db: &EnsayoTable, sheet: &mut RowTable, now_ms: i64) -> (r: SyncResult)
    ensures
        final(sheet)@ == spec_all_ensayo_rows(db@),
        r.entity_type@ == "ensayos"@,
        r.total_processed == db@.len(),
        r.inserted == db@.len(),
        r.updated == 0,
        r.errors@.len() == 0,
        r.started_at == now_ms,
        r.completed_at == now_ms,
{
    let mut result = SyncResult::new("ensayos", now_ms);
    let mut rows: Vec<Vec<String>> = Vec::new();
    let n = db.len();
    let mut k: usize = 0;
    while k < n
        invariant
            k <= n,
            n == db@.len(),
            rows@.len() == k,
            forall|i: int| 0 <= i < k ==> (#[trigger] rows@[i]).deep_view()
                == spec_encode_ensayo(db@[i].rec),
            result.total_processed == k,
            result.inserted == k,
            result.updated == 0,
            result.entity_type@ == "ensayos"@,
            result.errors@.len() == 0,
            result.started_at == now_ms,
            result.completed_at == now_ms,
            result.duration_ms == 0,
        decreases n - k,
    {
        let row = db.entry(k).rec.to_row();
        proof {
            assert(row.deep_view() =~= spec_cells(row@));
        }
        rows.push(row);
        result.count_processed();
        result.count_inserted();
        k = k + 1;
    }
    proof {
        assert(rows.deep_view() =~= spec_all_ensayo_rows(db@));
    }
    sheet.replace_all(rows);
    result.finalize(now_ms);
    result
}

/// Incremental outward run: for every entity kind, pushes the
/// database-origin records written after the watermark out to its sheet.
pub fn sync_changes_since(db: &Database, book: &mut SheetBook, since: i64, now_ms: i64) -> (r:
    FullSyncSummary)
    ensures
        final(book).clientes@ == spec_push_clientes(
            spec_cliente_modified_since(db.clientes@, since as int),
            old(book).clientes@,
        ),
        final(book).proyectos@ == spec_push_proyectos(
            spec_proyecto_modified_since(db.proyectos@, since as int),
            old(book).proyectos@,
        ),
        final(book).ensayos@ == spec_push_ensayos(
            spec_ensayo_modified_since(db.ensayos@, since as int),
            old(book).ensayos@,
        ),
        r.direction@ == "db_to_sheets"@,
        r.results@.len() == 3,
        r.results@[0].entity_type@ == "clientes"@,
        r.results@[1].entity_type@ == "proyectos"@,
        r.results@[2].entity_type@ == "ensayos"@,
        r.results@[0].total_processed == spec_cliente_modified_since(
            db.clientes@,
            since as int,
        ).len(),
        r.results@[1].total_processed == spec_proyecto_modified_since(
            db.proyectos@,
            since as int,
        ).len(),
        r.results@[2].total_processed == spec_ensayo_modified_since(
            db.ensayos@,
            since as int,
        ).len(),
        crate::sync::spec_all_success(r.results@),
        r.started_at == now_ms,
        r.completed_at == now_ms,
{
    let mut summary = FullSyncSummary::new("db_to_sheets", now_ms);
    let clientes_result = sync_clientes_since(&db.clientes, &mut book.clientes, since, now_ms);
    summary.add_result(clientes_result);
    let proyectos_result = sync_proyectos_since(&db.proyectos, &mut book.proyectos, since, now_ms);
    summary.add_result(proyectos_result);
    let ensayos_result = sync_ensayos_since(&db.ensayos, &mut book.ensayos, since, now_ms);
    summary.add_result(ensayos_result);
    summary.finalize(now_ms);
    summary
}

/// Full outward refresh, the recovery mode: overwrites every sheet body
/// with the store's current contents, bypassing the provenance filter.
pub fn sync_all(db: &Database, book: &mut SheetBook, now_ms: i64) -> (r: FullSyncSummary)
    ensures
        final(book).clientes@ == spec_all_cliente_rows(db.clientes@),
        final(book).proyectos@ == spec_all_proyecto_rows(db.proyectos@),
        final(book).ensayos@ == spec_all_ensayo_rows(db.ensayos@),
        r.direction@ == "db_to_sheets_full"@,
        r.results@.len() == 3,
        r.results@[0].entity_type@ == "clientes"@,
        r.results@[1].entity_type@ == "proyectos"@,
        r.results@[2].entity_type@ == "ensayos"@,
        r.results@[0].total_processed == db.clientes@.len(),
        r.results@[1].total_processed == db.proyectos@.len(),
        r.results@[2].total_processed == db.ensayos@.len(),
        crate::sync::spec_all_success(r.results@),
        r.started_at == now_ms,
        r.completed_at == now_ms,
{
    let mut summary = FullSyncSummary::new("db_to_sheets_full", now_ms);
    let clientes_result = sync_all_clientes(&db.clientes, &mut book.clientes, now_ms);
    summary.add_result(clientes_result);
    let proyectos_result = sync_all_proyectos(&db.proyectos, &mut book.proyectos, now_ms);
    summary.add_result(proyectos_result);
    let ensayos_result = sync_all_ensayos(&db.ensayos, &mut book.ensayos, now_ms);
    summary.add_result(ensayos_result);
    summary.finalize(now_ms);
    summary
}

} // verus!
