//! In-memory model of the relational store.
//!
//! Each entity kind gets a table of entries; an entry carries the record
//! together with its synchronization fields: the time of the last write
//! (`updated_at_ms`), the time of the last reconciliation touch
//! (`synced_at_ms`, `None` until first sync) and the provenance tag
//! (`sync_source`), which names the side that last wrote the record.
//! Identifiers are unique within a table, and every write path stamps the
//! provenance of its writer: reconciliation writes tag `Sheets` and refresh
//! `synced_at_ms`; ordinary writes tag `Db` and leave `synced_at_ms` alone.

use vstd::prelude::*;
use crate::cliente::{Cliente, ClienteV, UpdateCliente};
use crate::text::str_eq;

verus! {

/// Which side last wrote a record: the relational store or the
/// spreadsheet.
#[derive(Debug, Clone, Copy, PartialEq, Eq, Structural)]
pub enum SyncSource {
    Db,
    Sheets,
}

/// A stored client with its synchronization fields.
#[derive(Debug, Clone)]
pub struct ClienteEntry {
    pub rec: Cliente,
    pub updated_at_ms: i64,
    pub synced_at_ms: Option<i64>,
    pub sync_source: SyncSource,
}

/// The mathematical value of a stored client.
#[verifier::ext_equal]
pub ghost struct ClienteEntryV {
    pub rec: ClienteV,
    pub updated_at_ms: int,
    pub synced_at_ms: Option<int>,
    pub sync_source: SyncSource,
}

impl View for ClienteEntry {
    type V = ClienteEntryV;

    open spec fn view(&self) -> ClienteEntryV {
        ClienteEntryV {
            rec: self.rec@,
            updated_at_ms: self.updated_at_ms as int,
            synced_at_ms: match self.synced_at_ms {
                Some(t) => Some(t as int),
                None => None,
            },
            sync_source: self.sync_source,
        }
    }
}

impl DeepView for ClienteEntry {
    type V = ClienteEntryV;

    open spec fn deep_view(&self) -> ClienteEntryV {
        self@
    }
}

/// Ids are unique within a table.
pub open spec fn unique_cliente_ids(rows: Seq<ClienteEntryV>) -> bool {
    forall|i: int, j: int| 0 <= i < j < rows.len() ==> rows[i].rec.id != rows[j].rec.id
}

/// Whether some entry carries this id.
pub open spec fn has_cliente_id(rows: Seq<ClienteEntryV>, id: Seq<char>) -> bool {
    exists|i: int| 0 <= i < rows.len() && rows[i].rec.id == id
}

/// The entry a reconciliation insert writes: the decoded record as it
/// stands, stamped as a spreadsheet write touched now.
pub open spec fn spec_cliente_insert(c: ClienteV, now: int) -> ClienteEntryV {
    ClienteEntryV {
        rec: c,
        updated_at_ms: now,
        synced_at_ms: Some(now),
        sync_source: SyncSource::Sheets,
    }
}

/// The entry a reconciliation overwrite leaves: every spreadsheet-owned
/// field from the incoming record, the audit fields from the stored one,
/// the provenance re-stamped and the sync touch refreshed.
pub open spec fn spec_cliente_merge(e: ClienteEntryV, c: ClienteV, now: int) -> ClienteEntryV {
    ClienteEntryV {
        rec: ClienteV { created_at: e.rec.created_at, updated_at: e.rec.updated_at, ..c },
        updated_at_ms: e.updated_at_ms,
        synced_at_ms: Some(now),
        sync_source: SyncSource::Sheets,
    }
}

/// The table after a reconciliation upsert: overwrite in place when the id
/// exists, append otherwise.
pub open spec fn spec_cliente_upsert(rows: Seq<ClienteEntryV>, c: ClienteV, now: int) -> Seq<
    ClienteEntryV,
> {
    if has_cliente_id(rows, c.id) {
        let i = choose|i: int| 0 <= i < rows.len() && rows[i].rec.id == c.id;
        rows.update(i, spec_cliente_merge(rows[i], c, now))
    } else {
        rows.push(spec_cliente_insert(c, now))
    }
}

/// The table after an ordinary (CRUD) save: the record replaces the stored
/// one or is appended, stamped as a database write; the sync touch is not
/// refreshed by ordinary writes.
pub open spec fn spec_cliente_save(rows: Seq<ClienteEntryV>, c: ClienteV, now: int) -> Seq<
    ClienteEntryV,
> {
    if has_cliente_id(rows, c.id) {
        let i = choose|i: int| 0 <= i < rows.len() && rows[i].rec.id == c.id;
        rows.update(
            i,
            ClienteEntryV {
                rec: c,
                updated_at_ms: now,
                synced_at_ms: rows[i].synced_at_ms,
                sync_source: SyncSource::Db,
            },
        )
    } else {
        rows.push(
            ClienteEntryV {
                rec: c,
                updated_at_ms: now,
                synced_at_ms: None,
                sync_source: SyncSource::Db,
            },
        )
    }
}

/// The entry carrying this id; meaningful only under `has_cliente_id`.
pub open spec fn cliente_entry_of(rows: Seq<ClienteEntryV>, id: Seq<char>) -> ClienteEntryV {
    rows[choose|i: int| 0 <= i < rows.len() && rows[i].rec.id == id]
}

/// The table with every sync touch erased: what "the same database state,
/// though `synced_at` advances" compares.
pub open spec fn spec_strip_synced(rows: Seq<ClienteEntryV>) -> Seq<ClienteEntryV> {
    Seq::new(rows.len(), |i: int| ClienteEntryV { synced_at_ms: None, ..rows[i] })
}

/// A reconciliation upsert keeps ids unique, adds exactly the incoming id,
/// and touches no other entry.
pub proof fn lemma_cliente_upsert_frame(
    db: Seq<ClienteEntryV>,
    c: ClienteV,
    n: int,
    id: Seq<char>,
)
    requires
        unique_cliente_ids(db),
        id != c.id,
    ensures
        has_cliente_id(spec_cliente_upsert(db, c, n), id) == has_cliente_id(db, id),
        has_cliente_id(db, id) ==> cliente_entry_of(spec_cliente_upsert(db, c, n), id)
            == cliente_entry_of(db, id),
{
    let res = spec_cliente_upsert(db, c, n);
    if has_cliente_id(db, c.id) {
        let i = choose|i: int| 0 <= i < db.len() && db[i].rec.id == c.id;
        assert(res == db.update(i, spec_cliente_merge(db[i], c, n)));
        assert(forall|k: int| 0 <= k < db.len() && k != i ==> res[k] == db[k]);
        assert(res[i].rec.id == c.id);
        if has_cliente_id(db, id) {
            let j = choose|j: int| 0 <= j < db.len() && db[j].rec.id == id;
            assert(j != i);
            assert(res[j].rec.id == id);
            assert(has_cliente_id(res, id));
            let j2 = choose|j: int| 0 <= j < res.len() && res[j].rec.id == id;
            assert(j2 != i);
            assert(db[j2].rec.id == id);
            assert(j2 == j);
        }
        if has_cliente_id(res, id) {
            let j = choose|j: int| 0 <= j < res.len() && res[j].rec.id == id;
            assert(j != i);
            assert(db[j].rec.id == id);
            assert(has_cliente_id(db, id));
        }
    } else {
        assert(res == db.push(spec_cliente_insert(c, n)));
        assert(forall|k: int| 0 <= k < db.len() ==> res[k] == db[k]);
        assert(res[db.len() as int].rec.id == c.id);
        if has_cliente_id(db, id) {
            let j = choose|j: int| 0 <= j < db.len() && db[j].rec.id == id;
            assert(res[j].rec.id == id);
            assert(has_cliente_id(res, id));
            let j2 = choose|j: int| 0 <= j < res.len() && res[j].rec.id == id;
            assert(j2 != db.len());
            assert(j2 == j);
        }
        if has_cliente_id(res, id) {
            let j = choose|j: int| 0 <= j < res.len() && res[j].rec.id == id;
            assert(j != db.len());
            assert(has_cliente_id(db, id));
        }
    }
}

/// After a reconciliation upsert the incoming id is stored, and its entry
/// is the merge into the old entry, or a fresh insert.
pub proof fn lemma_cliente_upsert_own(db: Seq<ClienteEntryV>, c: ClienteV, n: int)
    requires
        unique_cliente_ids(db),
    ensures
        unique_cliente_ids(spec_cliente_upsert(db, c, n)),
        has_cliente_id(spec_cliente_upsert(db, c, n), c.id),
        cliente_entry_of(spec_cliente_upsert(db, c, n), c.id) == (if has_cliente_id(db, c.id) {
            spec_cliente_merge(cliente_entry_of(db, c.id), c, n)
        } else {
            spec_cliente_insert(c, n)
        }),
{
    let res = spec_cliente_upsert(db, c, n);
    if has_cliente_id(db, c.id) {
        let i = choose|i: int| 0 <= i < db.len() && db[i].rec.id == c.id;
        assert(res == db.update(i, spec_cliente_merge(db[i], c, n)));
        assert(res[i].rec.id == c.id);
        assert(forall|k: int| 0 <= k < db.len() && k != i ==> res[k] == db[k]);
        let i2 = choose|j: int| 0 <= j < res.len() && res[j].rec.id == c.id;
        assert(i2 == i);
        assert(unique_cliente_ids(res));
    } else {
        assert(res == db.push(spec_cliente_insert(c, n)));
        let last = db.len() as int;
        assert(res[last].rec.id == c.id);
        assert(forall|k: int| 0 <= k < db.len() ==> res[k] == db[k]);
        let i2 = choose|j: int| 0 <= j < res.len() && res[j].rec.id == c.id;
        assert(i2 == last);
        assert(unique_cliente_ids(res));
    }
}

/// The database-origin records written after the watermark, in table
/// order: what an incremental outward pass selects.
pub open spec fn spec_cliente_modified_since(rows: Seq<ClienteEntryV>, since: int) -> Seq<
    ClienteV,
>
    decreases rows.len(),
{
    if rows.len() == 0 {
        Seq::empty()
    } else {
        let rest = spec_cliente_modified_since(rows.skip(1), since);
        if rows[0].sync_source == SyncSource::Db && rows[0].updated_at_ms > since {
            seq![rows[0].rec] + rest
        } else {
            rest
        }
    }
}

/// The client table of the relational store.
#[derive(Debug)]
pub struct ClienteTable {
    rows: Vec<ClienteEntry>,
}

impl View for ClienteTable {
    type V = Seq<ClienteEntryV>;

    closed spec fn view(&self) -> Seq<ClienteEntryV> {
        self.rows.deep_view()
    }
}

impl ClienteTable {
    /// Ids are unique within the table; every operation preserves this.
    pub open spec fn wf(&self) -> bool {
        unique_cliente_ids(self@)
    }

    /// An empty table.
    pub fn new() -> (r: ClienteTable)
        ensures
            r@ == Seq::<ClienteEntryV>::empty(),
            r.wf(),
    {
        let r = ClienteTable { rows: Vec::new() };
        proof {
            assert(r@ =~= Seq::<ClienteEntryV>::empty());
        }
        r
    }

    /// The number of stored clients.
    pub fn len(&self) -> (r: usize)
        ensures
            r == self@.len(),
    {
        self.rows.len()
    }

    /// The entry at a position, for inspection.
    pub fn entry(&self, i: usize) -> (r: &ClienteEntry)
        requires
            i < self@.len(),
        ensures
            r@ == self@[i as int],
    {
        &self.rows[i]
    }

    /// The position of the entry with this id, if any.
    fn find_index(&self, id: &str) -> (r: Option<usize>)
        ensures
            match r {
                Some(j) => j < self@.len() && self@[j as int].rec.id == id@,
                None => !has_cliente_id(self@, id@),
            },
    {
        let mut k: usize = 0;
        while k < self.rows.len()
            invariant
                k <= self@.len(),
                self@.len() == self.rows@.len(),
                forall|i: int| 0 <= i < k ==> self@[i].rec.id != id@,
            decreases self@.len() - k,
        {
            if str_eq(self.rows[k].rec.id.as_str(), id) {
                return Some(k);
            }
            k = k + 1;
        }
        None
    }

    /// Finds the stored client with this id.
    pub fn find_by_id(&self, id: &str) -> (r: Option<&ClienteEntry>)
        ensures
            match r {
                Some(e) => has_cliente_id(self@, id@) && e@.rec.id == id@ && self@.contains(e@),
                None => !has_cliente_id(self@, id@),
            },
    {
        match self.find_index(id) {
            Some(j) => {
                let e = &self.rows[j];
                proof {
                    assert(self@[j as int] == e@);
                }
                Some(e)
            },
            None => None,
        }
    }

    /// Reconciliation upsert: insert the decoded record if its id is new,
    /// otherwise overwrite the spreadsheet-owned fields; either way the
    /// entry ends tagged as a spreadsheet write touched now.
    pub fn upsert_from_sheets(&mut self, c: Cliente, now: i64)
        requires
            old(self).wf(),
        ensures
            final(self)@ == spec_cliente_upsert(old(self)@, c@, now as int),
            final(self).wf(),
    {
        let idx = self.find_index(c.id.as_str());
        match idx {
            Some(j) => {
                let created_at = self.rows[j].rec.created_at.clone();
                let updated_at = self.rows[j].rec.updated_at.clone();
                let updated_at_ms = self.rows[j].updated_at_ms;
                let merged = ClienteEntry {
                    rec: Cliente { created_at, updated_at, ..c },
                    updated_at_ms,
                    synced_at_ms: Some(now),
                    sync_source: SyncSource::Sheets,
                };
                proof {
                    let ghost i = choose|i: int|
                        0 <= i < self@.len() && self@[i].rec.id == c@.id;
                    assert(i == j as int);
                    assert(merged@ =~= spec_cliente_merge(self@[j as int], c@, now as int));
                }
                self.rows.set(j, merged);
                proof {
                    assert(self@ =~= spec_cliente_upsert(old(self)@, c@, now as int));
                }
            },
            None => {
                let entry = ClienteEntry {
                    rec: c,
                    updated_at_ms: now,
                    synced_at_ms: Some(now),
                    sync_source: SyncSource::Sheets,
                };
                self.rows.push(entry);
                proof {
                    assert(self@ =~= spec_cliente_upsert(old(self)@, c@, now as int));
                }
            },
        }
    }

    /// Ordinary (CRUD) save: the record replaces the stored one or is
    /// appended, tagged as a database write; `synced_at_ms` is untouched.
    pub fn save_from_db(&mut self, c: Cliente, now: i64)
        requires
            old(self).wf(),
        ensures
            final(self)@ == spec_cliente_save(old(self)@, c@, now as int),
            final(self).wf(),
    {
        let idx = self.find_index(c.id.as_str());
        match idx {
            Some(j) => {
                let synced_at_ms = self.rows[j].synced_at_ms;
                let entry = ClienteEntry {
                    rec: c,
                    updated_at_ms: now,
                    synced_at_ms,
                    sync_source: SyncSource::Db,
                };
                proof {
                    let ghost i = choose|i: int|
                        0 <= i < self@.len() && self@[i].rec.id == c@.id;
                    assert(i == j as int);
                }
                self.rows.set(j, entry);
                proof {
                    assert(self@ =~= spec_cliente_save(old(self)@, c@, now as int));
                }
            },
            None => {
                let entry = ClienteEntry {
                    rec: c,
                    updated_at_ms: now,
                    synced_at_ms: None,
                    sync_source: SyncSource::Db,
                };
                self.rows.push(entry);
                proof {
                    assert(self@ =~= spec_cliente_save(old(self)@, c@, now as int));
                }
            },
        }
    }


    /// Overlays a partial update onto the stored client: a database write.
    pub fn update(&mut self, id: &str, u: UpdateCliente, now: i64) -> (r: bool)
        requires
            old(self).wf(),
        ensures
            r == has_cliente_id(old(self)@, id@),
            final(self).wf(),
            !r ==> final(self)@ == old(self)@,
            r ==> exists|j: int|
                0 <= j < old(self)@.len() && old(self)@[j].rec.id == id@ && final(self)@
                    =~= old(self)@.update(
                    j,
                    ClienteEntryV {
                        rec: Cliente::spec_apply_update(old(self)@[j].rec, &u),
                        updated_at_ms: now as int,
                        synced_at_ms: old(self)@[j].synced_at_ms,
                        sync_source: SyncSource::Db,
                    },
                ),
    {
        let idx = self.find_index(id);
        match idx {
            Some(j) => {
                let mut rec = self.rows[j].rec.clone();
                rec.apply_update(u);
                let entry = ClienteEntry {
                    rec,
                    updated_at_ms: now,
                    synced_at_ms: self.rows[j].synced_at_ms,
                    sync_source: SyncSource::Db,
                };
                self.rows.set(j, entry);
                proof {
                    assert(self@ =~= old(self)@.update(j as int, self@[j as int]));
                }
                true
            },
            None => {
                proof {
                    assert(self@ =~= old(self)@);
                }
                false
            },
        }
    }

    /// Soft delete: deactivates the client; a database write.
    pub fn delete(&mut self, id: &str, now: i64) -> (r: bool)
        requires
            old(self).wf(),
        ensures
            r == has_cliente_id(old(self)@, id@),
            final(self).wf(),
            !r ==> final(self)@ == old(self)@,
            r ==> exists|j: int|
                0 <= j < old(self)@.len() && old(self)@[j].rec.id == id@ && final(self)@
                    =~= old(self)@.update(
                    j,
                    ClienteEntryV {
                        rec: ClienteV { activo: false, ..old(self)@[j].rec },
                        updated_at_ms: now as int,
                        synced_at_ms: old(self)@[j].synced_at_ms,
                        sync_source: SyncSource::Db,
                    },
                ),
    {
        let idx = self.find_index(id);
        match idx {
            Some(j) => {
                let mut rec = self.rows[j].rec.clone();
                rec.activo = false;
                let entry = ClienteEntry {
                    rec,
                    updated_at_ms: now,
                    synced_at_ms: self.rows[j].synced_at_ms,
                    sync_source: SyncSource::Db,
                };
                self.rows.set(j, entry);
                proof {
                    assert(self@[j as int].rec =~= ClienteV {
                        activo: false,
                        ..old(self)@[j as int].rec
                    });
                    assert(self@ =~= old(self)@.update(j as int, self@[j as int]));
                }
                true
            },
            None => {
                proof {
                    assert(self@ =~= old(self)@);
                }
                false
            },
        }
    }

    /// The database-origin clients written after the watermark, in table
    /// order — the records an incremental outward pass must push.
    pub fn find_modified_since(&self, since: i64) -> (r: Vec<Cliente>)
        ensures
            r.deep_view() == spec_cliente_modified_since(self@, since as int),
    {
        let mut out: Vec<Cliente> = Vec::new();
        let n = self.rows.len();
        let mut k: usize = 0;
        proof {
            assert(self@.skip(0) =~= self@);
            assert(out.deep_view() + spec_cliente_modified_since(self@, since as int)
                =~= spec_cliente_modified_since(self@, since as int));
        }
        while k < n
            invariant
                k <= n,
                n == self@.len(),
                spec_cliente_modified_since(self@, since as int) =~= out.deep_view()
                    + spec_cliente_modified_since(self@.skip(k as int), since as int),
            decreases n - k,
        {
            let ghost pre = out.deep_view();
            let e = &self.rows[k];
            if matches!(e.sync_source, SyncSource::Db) && e.updated_at_ms > since {
                out.push(e.rec.clone());
            }
            proof {
                assert(self@.skip(k as int).skip(1) =~= self@.skip(k + 1));
                assert(self@.skip(k as int)[0] == self@[k as int]);
                if self@[k as int].sync_source == SyncSource::Db
                    && self@[k as int].updated_at_ms > since {
                    assert(out.deep_view() =~= pre + seq![self@[k as int].rec]);
                    assert(pre + (seq![self@[k as int].rec] + spec_cliente_modified_since(
                        self@.skip(k + 1),
                        since as int,
                    )) =~= out.deep_view() + spec_cliente_modified_since(
                        self@.skip(k + 1),
                        since as int,
                    ));
                } else {
                    assert(out.deep_view() =~= pre);
                }
            }
            k = k + 1;
        }
        proof {
            assert(self@.skip(n as int) =~= Seq::<ClienteEntryV>::empty());
            assert(out.deep_view() + spec_cliente_modified_since(
                Seq::<ClienteEntryV>::empty(),
                since as int,
            ) =~= out.deep_view());
        }
        out
    }
}

/// The relational store: one table per synchronized entity kind.
#[derive(Debug)]
pub struct Database {
    pub clientes: ClienteTable,
    pub proyectos: crate::proyecto_store::ProyectoTable,
    pub ensayos: crate::ensayo_store::EnsayoTable,
}

impl Database {
    /// Every table keeps its ids unique.
    pub open spec fn wf(&self) -> bool {
        &&& self.clientes.wf()
        &&& self.proyectos.wf()
        &&& self.ensayos.wf()
    }

    /// An empty store.
    pub fn new() -> (r: Database)
        ensures
            r.wf(),
            r.clientes@.len() == 0,
            r.proyectos@.len() == 0,
            r.ensayos@.len() == 0,
    {
        Database {
            clientes: ClienteTable::new(),
            proyectos: crate::proyecto_store::ProyectoTable::new(),
            ensayos: crate::ensayo_store::EnsayoTable::new(),
        }
    }
}

/// Law: an incremental outward selection contains only database-origin
/// records written after the watermark — nothing the spreadsheet supplied
/// is echoed back.
pub proof fn lemma_cliente_modified_since_only_db(
    rows: Seq<ClienteEntryV>,
    since: int,
    k: int,
)
    requires
        0 <= k < spec_cliente_modified_since(rows, since).len(),
    ensures
        exists|i: int|
            0 <= i < rows.len() && rows[i].sync_source == SyncSource::Db
                && rows[i].updated_at_ms > since && rows[i].rec
                == spec_cliente_modified_since(rows, since)[k],
    decreases rows.len(),
{
    let sel = spec_cliente_modified_since(rows, since);
    if rows.len() > 0 {
        let rest = spec_cliente_modified_since(rows.skip(1), since);
        if rows[0].sync_source == SyncSource::Db && rows[0].updated_at_ms > since {
            if k == 0 {
                assert(rows[0].rec == sel[0]);
            } else {
                lemma_cliente_modified_since_only_db(rows.skip(1), since, k - 1);
                let i = choose|i: int|
                    0 <= i < rows.skip(1).len() && rows.skip(1)[i].sync_source == SyncSource::Db
                        && rows.skip(1)[i].updated_at_ms > since
                        && rows.skip(1)[i].rec == rest[k - 1];
                assert(rows[i + 1] == rows.skip(1)[i]);
            }
        } else {
            lemma_cliente_modified_since_only_db(rows.skip(1), since, k);
            let i = choose|i: int|
                0 <= i < rows.skip(1).len() && rows.skip(1)[i].sync_source == SyncSource::Db
                    && rows.skip(1)[i].updated_at_ms > since && rows.skip(1)[i].rec == rest[k];
            assert(rows[i + 1] == rows.skip(1)[i]);
        }
    }
}

} // verus!
