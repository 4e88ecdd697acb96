//! Full-refresh reconciliation from the spreadsheet into the relational
//! store.
//!
//! For each entity kind, every body row of the corresponding sheet is
//! decoded and upserted with spreadsheet provenance. Rows that fail to
//! decode are skipped silently: a malformed row is not a sync error. Entity
//! kinds run in dependency order, referenced kinds before referencing ones.

use vstd::prelude::*;
use crate::cliente::{spec_decode_cliente, Cliente, ClienteV};
use crate::codec::spec_cells;
use crate::store::{
    cliente_entry_of, has_cliente_id, lemma_cliente_upsert_frame, lemma_cliente_upsert_own,
    spec_cliente_insert, spec_cliente_merge, spec_cliente_upsert, spec_strip_synced,
    unique_cliente_ids, ClienteEntryV, ClienteTable,
};
use crate::proyecto::{spec_decode_proyecto, Proyecto, ProyectoV};
use crate::proyecto_store::{
    proyecto_entry_of, has_proyecto_id, lemma_proyecto_upsert_frame, lemma_proyecto_upsert_own,
    spec_proyecto_insert, spec_proyecto_merge, spec_proyecto_upsert,
    spec_strip_synced as spec_strip_synced_proyecto, unique_proyecto_ids, ProyectoEntryV,
    ProyectoTable,
};
use crate::ensayo::{spec_decode_ensayo, Ensayo, EnsayoV};
use crate::ensayo_store::{
    ensayo_entry_of, has_ensayo_id, lemma_ensayo_upsert_frame, lemma_ensayo_upsert_own,
    spec_ensayo_insert, spec_ensayo_merge, spec_ensayo_upsert,
    spec_strip_synced as spec_strip_synced_ensayo, unique_ensayo_ids, EnsayoEntryV, EnsayoTable,
};
use crate::rows::SheetBook;
use crate::store::Database;
use crate::sync::{FullSyncSummary, SyncResult};

verus! {

/// The store after one inward pass over a sheet's rows: each decodable row
/// upserted in order, undecodable rows skipped.
pub open spec fn spec_sync_clientes_db(
    rows: Seq<Seq<Seq<char>>>,
    db: Seq<ClienteEntryV>,
    now: int,
) -> Seq<ClienteEntryV>
    decreases rows.len(),
{
    if rows.len() == 0 {
        db
    } else {
        let db1 = match spec_decode_cliente(rows[0]) {
            Some(c) => spec_cliente_upsert(db, c, now),
            None => db,
        };
        spec_sync_clientes_db(rows.skip(1), db1, now)
    }
}

/// How many of the rows decode: the number a pass processes.
pub open spec fn spec_decoded_clientes(rows: Seq<Seq<Seq<char>>>) -> int
    decreases rows.len(),
{
    if rows.len() == 0 {
        0
    } else {
        (if spec_decode_cliente(rows[0]) is Some {
            1int
        } else {
            0int
        }) + spec_decoded_clientes(rows.skip(1))
    }
}

/// The processed count never exceeds the number of rows.
proof fn lemma_decoded_clientes_bounds(rows: Seq<Seq<Seq<char>>>)
    ensures
        0 <= spec_decoded_clientes(rows) <= rows.len(),
    decreases rows.len(),
{
    if rows.len() > 0 {
        lemma_decoded_clientes_bounds(rows.skip(1));
    }
}

/// One inward pass over the client sheet: decodes every row and upserts
/// each decoded client with spreadsheet provenance. Malformed rows are
/// skipped and not counted; in-memory upserts cannot fail, so the result
/// carries no errors and counts every decoded row as processed and
/// inserted.
pub fn sync_clientes(rows: &Vec<Vec<String>>, db: &mut ClienteTable, now_ms: i64) -> (r:
    SyncResult)
    requires
        old(db).wf(),
    ensures
        final(db)@ == spec_sync_clientes_db(rows.deep_view(), old(db)@, now_ms as int),
        final(db).wf(),
        r.entity_type@ == "clientes"@,
        r.total_processed == spec_decoded_clientes(rows.deep_view()),
        r.inserted == r.total_processed,
        r.updated == 0,
        r.errors@.len() == 0,
        r.started_at == now_ms,
        r.completed_at == now_ms,
{
    let mut result = SyncResult::new("clientes", now_ms);
    let n = rows.len();
    let mut k: usize = 0;
    proof {
        assert(rows.deep_view().skip(0) =~= rows.deep_view());
        lemma_decoded_clientes_bounds(rows.deep_view());
    }
    while k < n
        invariant
            k <= n,
            n == rows@.len(),
            rows.deep_view().len() == n,
            db.wf(),
            spec_sync_clientes_db(rows.deep_view(), old(db)@, now_ms as int)
                == spec_sync_clientes_db(rows.deep_view().skip(k as int), db@, now_ms as int),
            result.total_processed + spec_decoded_clientes(rows.deep_view().skip(k as int))
                == spec_decoded_clientes(rows.deep_view()),
            result.total_processed <= k,
            result.entity_type@ == "clientes"@,
            result.inserted == result.total_processed,
            result.updated == 0,
            result.errors@.len() == 0,
            result.started_at == now_ms,
            result.completed_at == now_ms,
            result.duration_ms == 0,
        decreases n - k,
    {
        proof {
            assert(rows.deep_view().skip(k as int).skip(1) =~= rows.deep_view().skip(k + 1));
            assert(rows.deep_view().skip(k as int)[0] == rows.deep_view()[k as int]);
            assert(spec_cells(rows@[k as int]@) =~= rows.deep_view()[k as int]);
            lemma_decoded_clientes_bounds(rows.deep_view().skip(k + 1));
        }
        match Cliente::from_row(rows[k].as_slice()) {
            Some(c) => {
                result.count_processed();
                db.upsert_from_sheets(c, now_ms);
                result.count_inserted();
            },
            None => {},
        }
        k = k + 1;
    }
    proof {
        assert(rows.deep_view().skip(n as int) =~= Seq::<Seq<Seq<char>>>::empty());
    }
    result.finalize(now_ms);
    result
}

/// Whether the rows that decode carry pairwise distinct ids — a sheet
/// keyed by the id in its first column carries each id once.
pub open spec fn spec_distinct_decoded_clientes(rows: Seq<Seq<Seq<char>>>) -> bool {
    forall|i: int, j: int|
        0 <= i < j < rows.len() && #[trigger] spec_decode_cliente(rows[i]) is Some
            && #[trigger] spec_decode_cliente(rows[j]) is Some ==> spec_decode_cliente(
            rows[i],
        ).unwrap().id != spec_decode_cliente(rows[j]).unwrap().id
}

/// An inward pass keeps ids unique.
proof fn lemma_sync_clientes_unique(rows: Seq<Seq<Seq<char>>>, db: Seq<ClienteEntryV>, n: int)
    requires
        unique_cliente_ids(db),
    ensures
        unique_cliente_ids(spec_sync_clientes_db(rows, db, n)),
    decreases rows.len(),
{
    if rows.len() > 0 {
        match spec_decode_cliente(rows[0]) {
            Some(c) => {
                lemma_cliente_upsert_own(db, c, n);
                lemma_sync_clientes_unique(rows.skip(1), spec_cliente_upsert(db, c, n), n);
            },
            None => {
                lemma_sync_clientes_unique(rows.skip(1), db, n);
            },
        }
    }
}

/// An inward pass leaves every id its rows never decode to untouched.
proof fn lemma_sync_clientes_frame(
    rows: Seq<Seq<Seq<char>>>,
    db: Seq<ClienteEntryV>,
    n: int,
    id: Seq<char>,
)
    requires
        unique_cliente_ids(db),
        forall|k: int|
            0 <= k < rows.len() && #[trigger] spec_decode_cliente(rows[k]) is Some
                ==> spec_decode_cliente(rows[k]).unwrap().id != id,
    ensures
        has_cliente_id(spec_sync_clientes_db(rows, db, n), id) == has_cliente_id(db, id),
        has_cliente_id(db, id) ==> cliente_entry_of(spec_sync_clientes_db(rows, db, n), id)
            == cliente_entry_of(db, id),
    decreases rows.len(),
{
    if rows.len() > 0 {
        assert(forall|k: int|
            0 <= k < rows.skip(1).len() ==> rows.skip(1)[k] == rows[k + 1]);
        match spec_decode_cliente(rows[0]) {
            Some(c) => {
                assert(c.id != id);
                lemma_cliente_upsert_own(db, c, n);
                lemma_cliente_upsert_frame(db, c, n, id);
                lemma_sync_clientes_frame(rows.skip(1), spec_cliente_upsert(db, c, n), n, id);
            },
            None => {
                lemma_sync_clientes_frame(rows.skip(1), db, n, id);
            },
        }
    }
}

/// Upserting into two tables that differ only in their sync touches gives
/// tables that differ only in their sync touches.
proof fn lemma_cliente_upsert_congruent(
    x: Seq<ClienteEntryV>,
    y: Seq<ClienteEntryV>,
    c: ClienteV,
    n: int,
)
    requires
        unique_cliente_ids(x),
        unique_cliente_ids(y),
        spec_strip_synced(x) == spec_strip_synced(y),
    ensures
        spec_strip_synced(spec_cliente_upsert(x, c, n)) == spec_strip_synced(
            spec_cliente_upsert(y, c, n),
        ),
{
    assert(spec_strip_synced(x).len() == x.len());
    assert(spec_strip_synced(y).len() == y.len());
    assert(x.len() == y.len());
    assert(forall|i: int| 0 <= i < x.len() ==> spec_strip_synced(x)[i] == spec_strip_synced(y)[i]);
    assert forall|i: int| 0 <= i < x.len() implies x[i].rec == y[i].rec
        && x[i].updated_at_ms == y[i].updated_at_ms && x[i].sync_source == y[i].sync_source by {
        assert(spec_strip_synced(x)[i] == spec_strip_synced(y)[i]);
    }
    if has_cliente_id(x, c.id) {
        let i = choose|i: int| 0 <= i < x.len() && x[i].rec.id == c.id;
        assert(y[i].rec.id == c.id);
        assert(has_cliente_id(y, c.id));
        let j = choose|i: int| 0 <= i < y.len() && y[i].rec.id == c.id;
        assert(x[j].rec.id == c.id);
        assert(j == i);
        assert(spec_strip_synced(spec_cliente_upsert(x, c, n)) =~= spec_strip_synced(
            spec_cliente_upsert(y, c, n),
        ));
    } else {
        assert(!has_cliente_id(y, c.id)) by {
            if has_cliente_id(y, c.id) {
                let j = choose|i: int| 0 <= i < y.len() && y[i].rec.id == c.id;
                assert(x[j].rec.id == c.id);
            }
        }
        assert(spec_strip_synced(spec_cliente_upsert(x, c, n)) =~= spec_strip_synced(
            spec_cliente_upsert(y, c, n),
        ));
    }
}

/// A whole inward pass is congruent over tables that differ only in their
/// sync touches.
proof fn lemma_sync_clientes_congruent(
    rows: Seq<Seq<Seq<char>>>,
    x: Seq<ClienteEntryV>,
    y: Seq<ClienteEntryV>,
    n: int,
)
    requires
        unique_cliente_ids(x),
        unique_cliente_ids(y),
        spec_strip_synced(x) == spec_strip_synced(y),
    ensures
        spec_strip_synced(spec_sync_clientes_db(rows, x, n)) == spec_strip_synced(
            spec_sync_clientes_db(rows, y, n),
        ),
    decreases rows.len(),
{
    if rows.len() > 0 {
        match spec_decode_cliente(rows[0]) {
            Some(c) => {
                lemma_cliente_upsert_congruent(x, y, c, n);
                lemma_cliente_upsert_own(x, c, n);
                lemma_cliente_upsert_own(y, c, n);
                lemma_sync_clientes_congruent(
                    rows.skip(1),
                    spec_cliente_upsert(x, c, n),
                    spec_cliente_upsert(y, c, n),
                    n,
                );
            },
            None => {
                lemma_sync_clientes_congruent(rows.skip(1), x, y, n);
            },
        }
    }
}

/// Law: the inward full refresh is idempotent — running the pass twice
/// over the same sheet leaves the same database state as running it once;
/// only the sync touches advance. Stated for sheets that carry each id at
/// most once, as a sheet keyed by its first column does.
pub proof fn lemma_sync_clientes_idempotent(
    rows: Seq<Seq<Seq<char>>>,
    db: Seq<ClienteEntryV>,
    n1: int,
    n2: int,
)
    requires
        unique_cliente_ids(db),
        spec_distinct_decoded_clientes(rows),
    ensures
        spec_strip_synced(
            spec_sync_clientes_db(rows, spec_sync_clientes_db(rows, db, n1), n2),
        ) == spec_strip_synced(spec_sync_clientes_db(rows, db, n1)),
    decreases rows.len(),
{
    if rows.len() > 0 {
        let rest = rows.skip(1);
        assert(forall|k: int| 0 <= k < rest.len() ==> rest[k] == rows[k + 1]);
        assert(spec_distinct_decoded_clientes(rest)) by {
            assert forall|i: int, j: int|
                0 <= i < j < rest.len() && #[trigger] spec_decode_cliente(rest[i]) is Some
                    && #[trigger] spec_decode_cliente(rest[j]) is Some implies spec_decode_cliente(
                rest[i],
            ).unwrap().id != spec_decode_cliente(rest[j]).unwrap().id by {
                assert(rest[i] == rows[i + 1] && rest[j] == rows[j + 1]);
            }
        }
        match spec_decode_cliente(rows[0]) {
            None => {
                lemma_sync_clientes_idempotent(rest, db, n1, n2);
            },
            Some(c) => {
                let u1 = spec_cliente_upsert(db, c, n1);
                let f = spec_sync_clientes_db(rest, u1, n1);
                assert(f == spec_sync_clientes_db(rows, db, n1));
                lemma_cliente_upsert_own(db, c, n1);
                lemma_sync_clientes_unique(rest, u1, n1);
                // rows after the first never decode to c's id
                assert(forall|k: int|
                    0 <= k < rest.len() && #[trigger] spec_decode_cliente(rest[k]) is Some
                        ==> spec_decode_cliente(rest[k]).unwrap().id != c.id);
                lemma_sync_clientes_frame(rest, u1, n1, c.id);
                assert(has_cliente_id(f, c.id));
                let e1 = cliente_entry_of(f, c.id);
                assert(e1 == cliente_entry_of(u1, c.id));
                // upserting c again only refreshes the sync touch
                let u2 = spec_cliente_upsert(f, c, n2);
                lemma_cliente_upsert_own(f, c, n2);
                assert(spec_strip_synced(u2) == spec_strip_synced(f)) by {
                    let i = choose|i: int| 0 <= i < f.len() && f[i].rec.id == c.id;
                    assert(f[i] == e1);
                    assert(u2 == f.update(i, spec_cliente_merge(f[i], c, n2)));
                    if has_cliente_id(db, c.id) {
                        assert(e1 == spec_cliente_merge(cliente_entry_of(db, c.id), c, n1));
                    } else {
                        assert(e1 == spec_cliente_insert(c, n1));
                    }
                    assert(spec_cliente_merge(e1, c, n2).rec =~= e1.rec);
                    assert(spec_strip_synced(u2) =~= spec_strip_synced(f));
                }
                lemma_sync_clientes_congruent(rest, u2, f, n2);
                lemma_sync_clientes_idempotent(rest, u1, n1, n2);
                assert(spec_sync_clientes_db(rows, f, n2) == spec_sync_clientes_db(rest, u2, n2));
            },
        }
    }
}

/// The store after one inward pass over a sheet's rows: each decodable row
/// upserted in order, undecodable rows skipped.
pub open spec fn spec_sync_proyectos_db(
    rows: Seq<Seq<Seq<char>>>,
    db: Seq<ProyectoEntryV>,
    now: int,
) -> Seq<ProyectoEntryV>
    decreases rows.len(),
{
    if rows.len() == 0 {
        db
    } else {
        let db1 = match spec_decode_proyecto(rows[0]) {
            Some(c) => spec_proyecto_upsert(db, c, now),
            None => db,
        };
        spec_sync_proyectos_db(rows.skip(1), db1, now)
    }
}

/// How many of the rows decode: the number a pass processes.
pub open spec fn spec_decoded_proyectos(rows: Seq<Seq<Seq<char>>>) -> int
    decreases rows.len(),
{
    if rows.len() == 0 {
        0
    } else {
        (if spec_decode_proyecto(rows[0]) is Some {
            1int
        } else {
            0int
        }) + spec_decoded_proyectos(rows.skip(1))
    }
}

/// The processed count never exceeds the number of rows.
proof fn lemma_decoded_proyectos_bounds(rows: Seq<Seq<Seq<char>>>)
    ensures
        0 <= spec_decoded_proyectos(rows) <= rows.len(),
    decreases rows.len(),
{
    if rows.len() > 0 {
        lemma_decoded_proyectos_bounds(rows.skip(1));
    }
}

/// One inward pass over the project sheet: decodes every row and upserts
/// each decoded project with spreadsheet provenance. Malformed rows are
/// skipped and not counted; in-memory upserts cannot fail, so the result
/// carries no errors and counts every decoded row as processed and
/// inserted.
pub fn sync_proyectos(rows: &Vec<Vec<String>>, db: &mut ProyectoTable, now_ms: i64) -> (r:
    SyncResult)
    requires
        old(db).wf(),
    ensures
        final(db)@ == spec_sync_proyectos_db(rows.deep_view(), old(db)@, now_ms as int),
        final(db).wf(),
        r.entity_type@ == "proyectos"@,
        r.total_processed == spec_decoded_proyectos(rows.deep_view()),
        r.inserted == r.total_processed,
        r.updated == 0,
        r.errors@.len() == 0,
        r.started_at == now_ms,
        r.completed_at == now_ms,
{
    let mut result = SyncResult::new("proyectos", now_ms);
    let n = rows.len();
    let mut k: usize = 0;
    proof {
        assert(rows.deep_view().skip(0) =~= rows.deep_view());
        lemma_decoded_proyectos_bounds(rows.deep_view());
    }
    while k < n
        invariant
            k <= n,
            n == rows@.len(),
            rows.deep_view().len() == n,
            db.wf(),
            spec_sync_proyectos_db(rows.deep_view(), old(db)@, now_ms as int)
                == spec_sync_proyectos_db(rows.deep_view().skip(k as int), db@, now_ms as int),
            result.total_processed + spec_decoded_proyectos(rows.deep_view().skip(k as int))
                == spec_decoded_proyectos(rows.deep_view()),
            result.total_processed <= k,
            result.entity_type@ == "proyectos"@,
            result.inserted == result.total_processed,
            result.updated == 0,
            result.errors@.len() == 0,
            result.started_at == now_ms,
            result.completed_at == now_ms,
            result.duration_ms == 0,
        decreases n - k,
    {
        proof {
            assert(rows.deep_view().skip(k as int).skip(1) =~= rows.deep_view().skip(k + 1));
            assert(rows.deep_view().skip(k as int)[0] == rows.deep_view()[k as int]);
            assert(spec_cells(rows@[k as int]@) =~= rows.deep_view()[k as int]);
            lemma_decoded_proyectos_bounds(rows.deep_view().skip(k + 1));
        }
        match Proyecto::from_row(rows[k].as_slice()) {
            Some(c) => {
                result.count_processed();
                db.upsert_from_sheets(c, now_ms);
                result.count_inserted();
            },
            None => {},
        }
        k = k + 1;
    }
    proof {
        assert(rows.deep_view().skip(n as int) =~= Seq::<Seq<Seq<char>>>::empty());
    }
    result.finalize(now_ms);
    result
}

/// Whether the rows that decode carry pairwise distinct ids — a sheet
/// keyed by the id in its first column carries each id once.
pub open spec fn spec_distinct_decoded_proyectos(rows: Seq<Seq<Seq<char>>>) -> bool {
    forall|i: int, j: int|
        0 <= i < j < rows.len() && #[trigger] spec_decode_proyecto(rows[i]) is Some
            && #[trigger] spec_decode_proyecto(rows[j]) is Some ==> spec_decode_proyecto(
            rows[i],
        ).unwrap().id != spec_decode_proyecto(rows[j]).unwrap().id
}

/// An inward pass keeps ids unique.
proof fn lemma_sync_proyectos_unique(rows: Seq<Seq<Seq<char>>>, db: Seq<ProyectoEntryV>, n: int)
    requires
        unique_proyecto_ids(db),
    ensures
        unique_proyecto_ids(spec_sync_proyectos_db(rows, db, n)),
    decreases rows.len(),
{
    if rows.len() > 0 {
        match spec_decode_proyecto(rows[0]) {
            Some(c) => {
                lemma_proyecto_upsert_own(db, c, n);
                lemma_sync_proyectos_unique(rows.skip(1), spec_proyecto_upsert(db, c, n), n);
            },
            None => {
                lemma_sync_proyectos_unique(rows.skip(1), db, n);
            },
        }
    }
}

/// An inward pass leaves every id its rows never decode to untouched.
proof fn lemma_sync_proyectos_frame(
    rows: Seq<Seq<Seq<char>>>,
    db: Seq<ProyectoEntryV>,
    n: int,
    id: Seq<char>,
)
    requires
        unique_proyecto_ids(db),
        forall|k: int|
            0 <= k < rows.len() && #[trigger] spec_decode_proyecto(rows[k]) is Some
                ==> spec_decode_proyecto(rows[k]).unwrap().id != id,
    ensures
        has_proyecto_id(spec_sync_proyectos_db(rows, db, n), id) == has_proyecto_id(db, id),
        has_proyecto_id(db, id) ==> proyecto_entry_of(spec_sync_proyectos_db(rows, db, n), id)
            == proyecto_entry_of(db, id),
    decreases rows.len(),
{
    if rows.len() > 0 {
        assert(forall|k: int|
            0 <= k < rows.skip(1).len() ==> rows.skip(1)[k] == rows[k + 1]);
        match spec_decode_proyecto(rows[0]) {
            Some(c) => {
                assert(c.id != id);
                lemma_proyecto_upsert_own(db, c, n);
                lemma_proyecto_upsert_frame(db, c, n, id);
                lemma_sync_proyectos_frame(rows.skip(1), spec_proyecto_upsert(db, c, n), n, id);
            },
            None => {
                lemma_sync_proyectos_frame(rows.skip(1), db, n, id);
            },
        }
    }
}

/// Upserting into two tables that differ only in their sync touches gives
/// tables that differ only in their sync touches.
proof fn lemma_proyecto_upsert_congruent(
    x: Seq<ProyectoEntryV>,
    y: Seq<ProyectoEntryV>,
    c: ProyectoV,
    n: int,
)
    requires
        unique_proyecto_ids(x),
        unique_proyecto_ids(y),
        spec_strip_synced_proyecto(x) == spec_strip_synced_proyecto(y),
    ensures
        spec_strip_synced_proyecto(spec_proyecto_upsert(x, c, n)) == spec_strip_synced_proyecto(
            spec_proyecto_upsert(y, c, n),
        ),
{
    assert(spec_strip_synced_proyecto(x).len() == x.len());
    assert(spec_strip_synced_proyecto(y).len() == y.len());
    assert(x.len() == y.len());
    assert(forall|i: int| 0 <= i < x.len() ==> spec_strip_synced_proyecto(x)[i] == spec_strip_synced_proyecto(y)[i]);
    assert forall|i: int| 0 <= i < x.len() implies x[i].rec == y[i].rec
        && x[i].updated_at_ms == y[i].updated_at_ms && x[i].sync_source == y[i].sync_source by {
        assert(spec_strip_synced_proyecto(x)[i] == spec_strip_synced_proyecto(y)[i]);
    }
    if has_proyecto_id(x, c.id) {
        let i = choose|i: int| 0 <= i < x.len() && x[i].rec.id == c.id;
        assert(y[i].rec.id == c.id);
        assert(has_proyecto_id(y, c.id));
        let j = choose|i: int| 0 <= i < y.len() && y[i].rec.id == c.id;
        assert(x[j].rec.id == c.id);
        assert(j == i);
        assert(spec_strip_synced_proyecto(spec_proyecto_upsert(x, c, n)) =~= spec_strip_synced_proyecto(
            spec_proyecto_upsert(y, c, n),
        ));
    } else {
        assert(!has_proyecto_id(y, c.id)) by {
            if has_proyecto_id(y, c.id) {
                let j = choose|i: int| 0 <= i < y.len() && y[i].rec.id == c.id;
                assert(x[j].rec.id == c.id);
            }
        }
        assert(spec_strip_synced_proyecto(spec_proyecto_upsert(x, c, n)) =~= spec_strip_synced_proyecto(
            spec_proyecto_upsert(y, c, n),
        ));
    }
}

/// A whole inward pass is congruent over tables that differ only in their
/// sync touches.
proof fn lemma_sync_proyectos_congruent(
    rows: Seq<Seq<Seq<char>>>,
    x: Seq<ProyectoEntryV>,
    y: Seq<ProyectoEntryV>,
    n: int,
)
    requires
        unique_proyecto_ids(x),
        unique_proyecto_ids(y),
        spec_strip_synced_proyecto(x) == spec_strip_synced_proyecto(y),
    ensures
        spec_strip_synced_proyecto(spec_sync_proyectos_db(rows, x, n)) == spec_strip_synced_proyecto(
            spec_sync_proyectos_db(rows, y, n),
        ),
    decreases rows.len(),
{
    if rows.len() > 0 {
        match spec_decode_proyecto(rows[0]) {
            Some(c) => {
                lemma_proyecto_upsert_congruent(x, y, c, n);
                lemma_proyecto_upsert_own(x, c, n);
                lemma_proyecto_upsert_own(y, c, n);
                lemma_sync_proyectos_congruent(
                    rows.skip(1),
                    spec_proyecto_upsert(x, c, n),
                    spec_proyecto_upsert(y, c, n),
                    n,
                );
            },
            None => {
                lemma_sync_proyectos_congruent(rows.skip(1), x, y, n);
            },
        }
    }
}

/// Law: the inward full refresh is idempotent — running the pass twice
/// over the same sheet leaves the same database state as running it once;
/// only the sync touches advance. Stated for sheets that carry each id at
/// most once, as a sheet keyed by its first column does.
pub proof fn lemma_sync_proyectos_idempotent(
    rows: Seq<Seq<Seq<char>>>,
    db: Seq<ProyectoEntryV>,
    n1: int,
    n2: int,
)
    requires
        unique_proyecto_ids(db),
        spec_distinct_decoded_proyectos(rows),
    ensures
        spec_strip_synced_proyecto(
            spec_sync_proyectos_db(rows, spec_sync_proyectos_db(rows, db, n1), n2),
        ) == spec_strip_synced_proyecto(spec_sync_proyectos_db(rows, db, n1)),
    decreases rows.len(),
{
    if rows.len() > 0 {
        let rest = rows.skip(1);
        assert(forall|k: int| 0 <= k < rest.len() ==> rest[k] == rows[k + 1]);
        assert(spec_distinct_decoded_proyectos(rest)) by {
            assert forall|i: int, j: int|
                0 <= i < j < rest.len() && #[trigger] spec_decode_proyecto(rest[i]) is Some
                    && #[trigger] spec_decode_proyecto(rest[j]) is Some implies spec_decode_proyecto(
                rest[i],
            ).unwrap().id != spec_decode_proyecto(rest[j]).unwrap().id by {
                assert(rest[i] == rows[i + 1] && rest[j] == rows[j + 1]);
            }
        }
        match spec_decode_proyecto(rows[0]) {
            None => {
                lemma_sync_proyectos_idempotent(rest, db, n1, n2);
            },
            Some(c) => {
                let u1 = spec_proyecto_upsert(db, c, n1);
                let f = spec_sync_proyectos_db(rest, u1, n1);
                assert(f == spec_sync_proyectos_db(rows, db, n1));
                lemma_proyecto_upsert_own(db, c, n1);
                lemma_sync_proyectos_unique(rest, u1, n1);
                // rows after the first never decode to c's id
                assert(forall|k: int|
                    0 <= k < rest.len() && #[trigger] spec_decode_proyecto(rest[k]) is Some
                        ==> spec_decode_proyecto(rest[k]).unwrap().id != c.id);
                lemma_sync_proyectos_frame(rest, u1, n1, c.id);
                assert(has_proyecto_id(f, c.id));
                let e1 = proyecto_entry_of(f, c.id);
                assert(e1 == proyecto_entry_of(u1, c.id));
                // upserting c again only refreshes the sync touch
                let u2 = spec_proyecto_upsert(f, c, n2);
                lemma_proyecto_upsert_own(f, c, n2);
                assert(spec_strip_synced_proyecto(u2) == spec_strip_synced_proyecto(f)) by {
                    let i = choose|i: int| 0 <= i < f.len() && f[i].rec.id == c.id;
                    assert(f[i] == e1);
                    assert(u2 == f.update(i, spec_proyecto_merge(f[i], c, n2)));
                    if has_proyecto_id(db, c.id) {
                        assert(e1 == spec_proyecto_merge(proyecto_entry_of(db, c.id), c, n1));
                    } else {
                        assert(e1 == spec_proyecto_insert(c, n1));
                    }
                    assert(spec_proyecto_merge(e1, c, n2).rec =~= e1.rec);
                    assert(spec_strip_synced_proyecto(u2) =~= spec_strip_synced_proyecto(f));
                }
                lemma_sync_proyectos_congruent(rest, u2, f, n2);
                lemma_sync_proyectos_idempotent(rest, u1, n1, n2);
                assert(spec_sync_proyectos_db(rows, f, n2) == spec_sync_proyectos_db(rest, u2, n2));
            },
        }
    }
}

/// The store after one inward pass over a sheet's rows: each decodable row
/// upserted in order, undecodable rows skipped.
pub open spec fn spec_sync_ensayos_db(
    rows: Seq<Seq<Seq<char>>>,
    db: Seq<EnsayoEntryV>,
    now: int,
) -> Seq<EnsayoEntryV>
    decreases rows.len(),
{
    if rows.len() == 0 {
        db
    } else {
        let db1 = match spec_decode_ensayo(rows[0]) {
            Some(c) => spec_ensayo_upsert(db, c, now),
            None => db,
        };
        spec_sync_ensayos_db(rows.skip(1), db1, now)
    }
}

/// How many of the rows decode: the number a pass processes.
pub open spec fn spec_decoded_ensayos(rows: Seq<Seq<Seq<char>>>) -> int
    decreases rows.len(),
{
    if rows.len() == 0 {
        0
    } else {
        (if spec_decode_ensayo(rows[0]) is Some {
            1int
        } else {
            0int
        }) + spec_decoded_ensayos(rows.skip(1))
    }
}

/// The processed count never exceeds the number of rows.
proof fn lemma_decoded_ensayos_bounds(rows: Seq<Seq<Seq<char>>>)
    ensures
        0 <= spec_decoded_ensayos(rows) <= rows.len(),
    decreases rows.len(),
{
    if rows.len() > 0 {
        lemma_decoded_ensayos_bounds(rows.skip(1));
    }
}

/// One inward pass over the test-record sheet: decodes every row and upserts
/// each decoded test record with spreadsheet provenance. Malformed rows are
/// skipped and not counted; in-memory upserts cannot fail, so the result
/// carries no errors and counts every decoded row as processed and
/// inserted.
pub fn sync_ensayos(rows: &Vec<Vec<String>>, db: &mut EnsayoTable, now_ms: i64) -> (r:
    SyncResult)
    requires
        old(db).wf(),
    ensures
        final(db)@ == spec_sync_ensayos_db(rows.deep_view(), old(db)@, now_ms as int),
        final(db).wf(),
        r.entity_type@ == "ensayos"@,
        r.total_processed == spec_decoded_ensayos(rows.deep_view()),
        r.inserted == r.total_processed,
        r.updated == 0,
        r.errors@.len() == 0,
        r.started_at == now_ms,
        r.completed_at == now_ms,
{
    let mut result = SyncResult::new("ensayos", now_ms);
    let n = rows.len();
    let mut k: usize = 0;
    proof {
        assert(rows.deep_view().skip(0) =~= rows.deep_view());
        lemma_decoded_ensayos_bounds(rows.deep_view());
    }
    while k < n
        invariant
            k <= n,
            n == rows@.len(),
            rows.deep_view().len() == n,
            db.wf(),
            spec_sync_ensayos_db(rows.deep_view(), old(db)@, now_ms as int)
                == spec_sync_ensayos_db(rows.deep_view().skip(k as int), db@, now_ms as int),
            result.total_processed + spec_decoded_ensayos(rows.deep_view().skip(k as int))
                == spec_decoded_ensayos(rows.deep_view()),
            result.total_processed <= k,
            result.entity_type@ == "ensayos"@,
            result.inserted == result.total_processed,
            result.updated == 0,
            result.errors@.len() == 0,
            result.started_at == now_ms,
            result.completed_at == now_ms,
            result.duration_ms == 0,
        decreases n - k,
    {
        proof {
            assert(rows.deep_view().skip(k as int).skip(1) =~= rows.deep_view().skip(k + 1));
            assert(rows.deep_view().skip(k as int)[0] == rows.deep_view()[k as int]);
            assert(spec_cells(rows@[k as int]@) =~= rows.deep_view()[k as int]);
            lemma_decoded_ensayos_bounds(rows.deep_view().skip(k + 1));
        }
        match Ensayo::from_row(rows[k].as_slice()) {
            Some(c) => {
                result.count_processed();
                db.upsert_from_sheets(c, now_ms);
                result.count_inserted();
            },
            None => {},
        }
        k = k + 1;
    }
    proof {
        assert(rows.deep_view().skip(n as int) =~= Seq::<Seq<Seq<char>>>::empty());
    }
    result.finalize(now_ms);
    result
}

/// Whether the rows that decode carry pairwise distinct ids — a sheet
/// keyed by the id in its first column carries each id once.
pub open spec fn spec_distinct_decoded_ensayos(rows: Seq<Seq<Seq<char>>>) -> bool {
    forall|i: int, j: int|
        0 <= i < j < rows.len() && #[trigger] spec_decode_ensayo(rows[i]) is Some
            && #[trigger] spec_decode_ensayo(rows[j]) is Some ==> spec_decode_ensayo(
            rows[i],
        ).unwrap().id != spec_decode_ensayo(rows[j]).unwrap().id
}

/// An inward pass keeps ids unique.
proof fn lemma_sync_ensayos_unique(rows: Seq<Seq<Seq<char>>>, db: Seq<EnsayoEntryV>, n: int)
    requires
        unique_ensayo_ids(db),
    ensures
        unique_ensayo_ids(spec_sync_ensayos_db(rows, db, n)),
    decreases rows.len(),
{
    if rows.len() > 0 {
        match spec_decode_ensayo(rows[0]) {
            Some(c) => {
                lemma_ensayo_upsert_own(db, c, n);
                lemma_sync_ensayos_unique(rows.skip(1), spec_ensayo_upsert(db, c, n), n);
            },
            None => {
                lemma_sync_ensayos_unique(rows.skip(1), db, n);
            },
        }
    }
}

/// An inward pass leaves every id its rows never decode to untouched.
proof fn lemma_sync_ensayos_frame(
    rows: Seq<Seq<Seq<char>>>,
    db: Seq<EnsayoEntryV>,
    n: int,
    id: Seq<char>,
)
    requires
        unique_ensayo_ids(db),
        forall|k: int|
            0 <= k < rows.len() && #[trigger] spec_decode_ensayo(rows[k]) is Some
                ==> spec_decode_ensayo(rows[k]).unwrap().id != id,
    ensures
        has_ensayo_id(spec_sync_ensayos_db(rows, db, n), id) == has_ensayo_id(db, id),
        has_ensayo_id(db, id) ==> ensayo_entry_of(spec_sync_ensayos_db(rows, db, n), id)
            == ensayo_entry_of(db, id),
    decreases rows.len(),
{
    if rows.len() > 0 {
        assert(forall|k: int|
            0 <= k < rows.skip(1).len() ==> rows.skip(1)[k] == rows[k + 1]);
        match spec_decode_ensayo(rows[0]) {
            Some(c) => {
                assert(c.id != id);
                lemma_ensayo_upsert_own(db, c, n);
                lemma_ensayo_upsert_frame(db, c, n, id);
                lemma_sync_ensayos_frame(rows.skip(1), spec_ensayo_upsert(db, c, n), n, id);
            },
            None => {
                lemma_sync_ensayos_frame(rows.skip(1), db, n, id);
            },
        }
    }
}

/// Upserting into two tables that differ only in their sync touches gives
/// tables that differ only in their sync touches.
proof fn lemma_ensayo_upsert_congruent(
    x: Seq<EnsayoEntryV>,
    y: Seq<EnsayoEntryV>,
    c: EnsayoV,
    n: int,
)
    requires
        unique_ensayo_ids(x),
        unique_ensayo_ids(y),
        spec_strip_synced_ensayo(x) == spec_strip_synced_ensayo(y),
    ensures
        spec_strip_synced_ensayo(spec_ensayo_upsert(x, c, n)) == spec_strip_synced_ensayo(
            spec_ensayo_upsert(y, c, n),
        ),
{
    assert(spec_strip_synced_ensayo(x).len() == x.len());
    assert(spec_strip_synced_ensayo(y).len() == y.len());
    assert(x.len() == y.len());
    assert(forall|i: int| 0 <= i < x.len() ==> spec_strip_synced_ensayo(x)[i] == spec_strip_synced_ensayo(y)[i]);
    assert forall|i: int| 0 <= i < x.len() implies x[i].rec == y[i].rec
        && x[i].updated_at_ms == y[i].updated_at_ms && x[i].sync_source == y[i].sync_source by {
        assert(spec_strip_synced_ensayo(x)[i] == spec_strip_synced_ensayo(y)[i]);
    }
    if has_ensayo_id(x, c.id) {
        let i = choose|i: int| 0 <= i < x.len() && x[i].rec.id == c.id;
        assert(y[i].rec.id == c.id);
        assert(has_ensayo_id(y, c.id));
        let j = choose|i: int| 0 <= i < y.len() && y[i].rec.id == c.id;
        assert(x[j].rec.id == c.id);
        assert(j == i);
        assert(spec_strip_synced_ensayo(spec_ensayo_upsert(x, c, n)) =~= spec_strip_synced_ensayo(
            spec_ensayo_upsert(y, c, n),
        ));
    } else {
        assert(!has_ensayo_id(y, c.id)) by {
            if has_ensayo_id(y, c.id) {
                let j = choose|i: int| 0 <= i < y.len() && y[i].rec.id == c.id;
                assert(x[j].rec.id == c.id);
            }
        }
        assert(spec_strip_synced_ensayo(spec_ensayo_upsert(x, c, n)) =~= spec_strip_synced_ensayo(
            spec_ensayo_upsert(y, c, n),
        ));
    }
}

/// A whole inward pass is congruent over tables that differ only in their
/// sync touches.
proof fn lemma_sync_ensayos_congruent(
    rows: Seq<Seq<Seq<char>>>,
    x: Seq<EnsayoEntryV>,
    y: Seq<EnsayoEntryV>,
    n: int,
)
    requires
        unique_ensayo_ids(x),
        unique_ensayo_ids(y),
        spec_strip_synced_ensayo(x) == spec_strip_synced_ensayo(y),
    ensures
        spec_strip_synced_ensayo(spec_sync_ensayos_db(rows, x, n)) == spec_strip_synced_ensayo(
            spec_sync_ensayos_db(rows, y, n),
        ),
    decreases rows.len(),
{
    if rows.len() > 0 {
        match spec_decode_ensayo(rows[0]) {
            Some(c) => {
                lemma_ensayo_upsert_congruent(x, y, c, n);
                lemma_ensayo_upsert_own(x, c, n);
                lemma_ensayo_upsert_own(y, c, n);
                lemma_sync_ensayos_congruent(
                    rows.skip(1),
                    spec_ensayo_upsert(x, c, n),
                    spec_ensayo_upsert(y, c, n),
                    n,
                );
            },
            None => {
                lemma_sync_ensayos_congruent(rows.skip(1), x, y, n);
            },
        }
    }
}

/// Law: the inward full refresh is idempotent — running the pass twice
/// over the same sheet leaves the same database state as running it once;
/// only the sync touches advance. Stated for sheets that carry each id at
/// most once, as a sheet keyed by its first column does.
pub proof fn lemma_sync_ensayos_idempotent(
    rows: Seq<Seq<Seq<char>>>,
    db: Seq<EnsayoEntryV>,
    n1: int,
    n2: int,
)
    requires
        unique_ensayo_ids(db),
        spec_distinct_decoded_ensayos(rows),
    ensures
        spec_strip_synced_ensayo(
            spec_sync_ensayos_db(rows, spec_sync_ensayos_db(rows, db, n1), n2),
        ) == spec_strip_synced_ensayo(spec_sync_ensayos_db(rows, db, n1)),
    decreases rows.len(),
{
    if rows.len() > 0 {
        let rest = rows.skip(1);
        assert(forall|k: int| 0 <= k < rest.len() ==> rest[k] == rows[k + 1]);
        assert(spec_distinct_decoded_ensayos(rest)) by {
            assert forall|i: int, j: int|
                0 <= i < j < rest.len() && #[trigger] spec_decode_ensayo(rest[i]) is Some
                    && #[trigger] spec_decode_ensayo(rest[j]) is Some implies spec_decode_ensayo(
                rest[i],
            ).unwrap().id != spec_decode_ensayo(rest[j]).unwrap().id by {
                assert(rest[i] == rows[i + 1] && rest[j] == rows[j + 1]);
            }
        }
        match spec_decode_ensayo(rows[0]) {
            None => {
                lemma_sync_ensayos_idempotent(rest, db, n1, n2);
            },
            Some(c) => {
                let u1 = spec_ensayo_upsert(db, c, n1);
                let f = spec_sync_ensayos_db(rest, u1, n1);
                assert(f == spec_sync_ensayos_db(rows, db, n1));
                lemma_ensayo_upsert_own(db, c, n1);
                lemma_sync_ensayos_unique(rest, u1, n1);
                // rows after the first never decode to c's id
                assert(forall|k: int|
                    0 <= k < rest.len() && #[trigger] spec_decode_ensayo(rest[k]) is Some
                        ==> spec_decode_ensayo(rest[k]).unwrap().id != c.id);
                lemma_sync_ensayos_frame(rest, u1, n1, c.id);
                assert(has_ensayo_id(f, c.id));
                let e1 = ensayo_entry_of(f, c.id);
                assert(e1 == ensayo_entry_of(u1, c.id));
                // upserting c again only refreshes the sync touch
                let u2 = spec_ensayo_upsert(f, c, n2);
                lemma_ensayo_upsert_own(f, c, n2);
                assert(spec_strip_synced_ensayo(u2) == spec_strip_synced_ensayo(f)) by {
                    let i = choose|i: int| 0 <= i < f.len() && f[i].rec.id == c.id;
                    assert(f[i] == e1);
                    assert(u2 == f.update(i, spec_ensayo_merge(f[i], c, n2)));
                    if has_ensayo_id(db, c.id) {
                        assert(e1 == spec_ensayo_merge(ensayo_entry_of(db, c.id), c, n1));
                    } else {
                        assert(e1 == spec_ensayo_insert(c, n1));
                    }
                    assert(spec_ensayo_merge(e1, c, n2).rec =~= e1.rec);
                    assert(spec_strip_synced_ensayo(u2) =~= spec_strip_synced_ensayo(f));
                }
                lemma_sync_ensayos_congruent(rest, u2, f, n2);
                lemma_sync_ensayos_idempotent(rest, u1, n1, n2);
                assert(spec_sync_ensayos_db(rows, f, n2) == spec_sync_ensayos_db(rest, u2, n2));
            },
        }
    }
}

/// Full inward refresh: every entity kind, in dependency order — clients
/// first, then projects, then tests, because later passes reference ids
/// that earlier passes insert. Each pass contributes one result; nothing
/// raises out of the run.
pub fn sync_all(book: &SheetBook, db: &mut Database, now_ms: i64) -> (r: FullSyncSummary)
    requires
        old(db).wf(),
    ensures
        final(db).wf(),
        final(db).clientes@ == spec_sync_clientes_db(
            book.clientes@,
            old(db).clientes@,
            now_ms as int,
        ),
        final(db).proyectos@ == spec_sync_proyectos_db(
            book.proyectos@,
            old(db).proyectos@,
            now_ms as int,
        ),
        final(db).ensayos@ == spec_sync_ensayos_db(
            book.ensayos@,
            old(db).ensayos@,
            now_ms as int,
        ),
        r.direction@ == "sheets_to_db"@,
        r.results@.len() == 3,
        r.results@[0].entity_type@ == "clientes"@,
        r.results@[1].entity_type@ == "proyectos"@,
        r.results@[2].entity_type@ == "ensayos"@,
        r.results@[0].total_processed == spec_decoded_clientes(book.clientes@),
        r.results@[1].total_processed == spec_decoded_proyectos(book.proyectos@),
        r.results@[2].total_processed == spec_decoded_ensayos(book.ensayos@),
        crate::sync::spec_all_success(r.results@),
        r.started_at == now_ms,
        r.completed_at == now_ms,
{
    let mut summary = FullSyncSummary::new("sheets_to_db", now_ms);
    let clientes_result = sync_clientes(book.clientes.read_all(), &mut db.clientes, now_ms);
    summary.add_result(clientes_result);
    let proyectos_result = sync_proyectos(book.proyectos.read_all(), &mut db.proyectos, now_ms);
    summary.add_result(proyectos_result);
    let ensayos_result = sync_ensayos(book.ensayos.read_all(), &mut db.ensayos, now_ms);
    summary.add_result(ensayos_result);
    summary.finalize(now_ms);
    summary
}

/// Law: the whole inward full refresh is idempotent — running `sync_all`
/// twice over the same spreadsheet leaves every table of the store in the
/// same state as running it once, though the sync touches advance. Stated
/// for sheets that carry each id at most once, as sheets keyed by their
/// first column do.
pub proof fn lemma_sync_all_idempotent(book: &SheetBook, db: &Database, n1: int, n2: int)
    requires
        db.wf(),
        spec_distinct_decoded_clientes(book.clientes@),
        spec_distinct_decoded_proyectos(book.proyectos@),
        spec_distinct_decoded_ensayos(book.ensayos@),
    ensures
        spec_strip_synced(
            spec_sync_clientes_db(
                book.clientes@,
                spec_sync_clientes_db(book.clientes@, db.clientes@, n1),
                n2,
            ),
        ) == spec_strip_synced(spec_sync_clientes_db(book.clientes@, db.clientes@, n1)),
        spec_strip_synced_proyecto(
            spec_sync_proyectos_db(
                book.proyectos@,
                spec_sync_proyectos_db(book.proyectos@, db.proyectos@, n1),
                n2,
            ),
        ) == spec_strip_synced_proyecto(
            spec_sync_proyectos_db(book.proyectos@, db.proyectos@, n1),
        ),
        spec_strip_synced_ensayo(
            spec_sync_ensayos_db(
                book.ensayos@,
                spec_sync_ensayos_db(book.ensayos@, db.ensayos@, n1),
                n2,
            ),
        ) == spec_strip_synced_ensayo(spec_sync_ensayos_db(book.ensayos@, db.ensayos@, n1)),
{
    lemma_sync_clientes_idempotent(book.clientes@, db.clientes@, n1, n2);
    lemma_sync_proyectos_idempotent(book.proyectos@, db.proyectos@, n1, n2);
    lemma_sync_ensayos_idempotent(book.ensayos@, db.ensayos@, n1, n2);
}

} // verus!
