//! In-memory model of the project table, with the same synchronization
//! fields and provenance rules as the client table.

use vstd::prelude::*;
use crate::proyecto::{Proyecto, ProyectoV};
use crate::store::SyncSource;
use crate::text::str_eq;

verus! {

/// A stored project with its synchronization fields.
#[derive(Debug, Clone)]
pub struct ProyectoEntry {
    pub rec: Proyecto,
    pub updated_at_ms: i64,
    pub synced_at_ms: Option<i64>,
    pub sync_source: SyncSource,
}

/// The mathematical value of a stored project.
#[verifier::ext_equal]
pub ghost struct ProyectoEntryV {
    pub rec: ProyectoV,
    pub updated_at_ms: int,
    pub synced_at_ms: Option<int>,
    pub sync_source: SyncSource,
}

impl View for ProyectoEntry {
    type V = ProyectoEntryV;

    open spec fn view(&self) -> ProyectoEntryV {
        ProyectoEntryV {
            rec: self.rec@,
            updated_at_ms: self.updated_at_ms as int,
            synced_at_ms: match self.synced_at_ms {
                Some(t) => Some(t as int),
                None => None,
            },
            sync_source: self.sync_source,
        }
    }
}

impl DeepView for ProyectoEntry {
    type V = ProyectoEntryV;

    open spec fn deep_view(&self) -> ProyectoEntryV {
        self@
    }
}

/// Ids are unique within a table.
pub open spec fn unique_proyecto_ids(rows: Seq<ProyectoEntryV>) -> bool {
    forall|i: int, j: int| 0 <= i < j < rows.len() ==> rows[i].rec.id != rows[j].rec.id
}

/// Whether some entry carries this id.
pub open spec fn has_proyecto_id(rows: Seq<ProyectoEntryV>, id: Seq<char>) -> bool {
    exists|i: int| 0 <= i < rows.len() && rows[i].rec.id == id
}

/// The entry a reconciliation insert writes: the decoded record as it
/// stands, stamped as a spreadsheet write touched now.
pub open spec fn spec_proyecto_insert(c: ProyectoV, now: int) -> ProyectoEntryV {
    ProyectoEntryV {
        rec: c,
        updated_at_ms: now,
        synced_at_ms: Some(now),
        sync_source: SyncSource::Sheets,
    }
}

/// The entry a reconciliation overwrite leaves: every spreadsheet-owned
/// field from the incoming record, the audit fields from the stored one,
/// the provenance re-stamped and the sync touch refreshed.
pub open spec fn spec_proyecto_merge(e: ProyectoEntryV, c: ProyectoV, now: int) -> ProyectoEntryV {
    ProyectoEntryV {
        rec: ProyectoV {
            created_at: e.rec.created_at,
            updated_at: e.rec.updated_at,
            created_by: e.rec.created_by,
            ..c
        },
        updated_at_ms: e.updated_at_ms,
        synced_at_ms: Some(now),
        sync_source: SyncSource::Sheets,
    }
}

/// The table after a reconciliation upsert: overwrite in place when the id
/// exists, append otherwise.
pub open spec fn spec_proyecto_upsert(rows: Seq<ProyectoEntryV>, c: ProyectoV, now: int) -> Seq<
    ProyectoEntryV,
> {
    if has_proyecto_id(rows, c.id) {
        let i = choose|i: int| 0 <= i < rows.len() && rows[i].rec.id == c.id;
        rows.update(i, spec_proyecto_merge(rows[i], c, now))
    } else {
        rows.push(spec_proyecto_insert(c, now))
    }
}

/// The table after an ordinary (CRUD) save: the record replaces the stored
/// one or is appended, stamped as a database write; the sync touch is not
/// refreshed by ordinary writes.
pub open spec fn spec_proyecto_save(rows: Seq<ProyectoEntryV>, c: ProyectoV, now: int) -> Seq<
    ProyectoEntryV,
> {
    if has_proyecto_id(rows, c.id) {
        let i = choose|i: int| 0 <= i < rows.len() && rows[i].rec.id == c.id;
        rows.update(
            i,
            ProyectoEntryV {
                rec: c,
                updated_at_ms: now,
                synced_at_ms: rows[i].synced_at_ms,
                sync_source: SyncSource::Db,
            },
        )
    } else {
        rows.push(
            ProyectoEntryV {
                rec: c,
                updated_at_ms: now,
                synced_at_ms: None,
                sync_source: SyncSource::Db,
            },
        )
    }
}

/// The entry carrying this id; meaningful only under `has_proyecto_id`.
pub open spec fn proyecto_entry_of(rows: Seq<ProyectoEntryV>, id: Seq<char>) -> ProyectoEntryV {
    rows[choose|i: int| 0 <= i < rows.len() && rows[i].rec.id == id]
}

/// The table with every sync touch erased: what "the same database state,
/// though `synced_at` advances" compares.
pub open spec fn spec_strip_synced(rows: Seq<ProyectoEntryV>) -> Seq<ProyectoEntryV> {
    Seq::new(rows.len(), |i: int| ProyectoEntryV { synced_at_ms: None, ..rows[i] })
}

/// A reconciliation upsert keeps ids unique, adds exactly the incoming id,
/// and touches no other entry.
pub proof fn lemma_proyecto_upsert_frame(
    db: Seq<ProyectoEntryV>,
    c: ProyectoV,
    n: int,
    id: Seq<char>,
)
    requires
        unique_proyecto_ids(db),
        id != c.id,
    ensures
        has_proyecto_id(spec_proyecto_upsert(db, c, n), id) == has_proyecto_id(db, id),
        has_proyecto_id(db, id) ==> proyecto_entry_of(spec_proyecto_upsert(db, c, n), id)
            == proyecto_entry_of(db, id),
{
    let res = spec_proyecto_upsert(db, c, n);
    if has_proyecto_id(db, c.id) {
        let i = choose|i: int| 0 <= i < db.len() && db[i].rec.id == c.id;
        assert(res == db.update(i, spec_proyecto_merge(db[i], c, n)));
        assert(forall|k: int| 0 <= k < db.len() && k != i ==> res[k] == db[k]);
        assert(res[i].rec.id == c.id);
        if has_proyecto_id(db, id) {
            let j = choose|j: int| 0 <= j < db.len() && db[j].rec.id == id;
            assert(j != i);
            assert(res[j].rec.id == id);
            assert(has_proyecto_id(res, id));
            let j2 = choose|j: int| 0 <= j < res.len() && res[j].rec.id == id;
            assert(j2 != i);
            assert(db[j2].rec.id == id);
            assert(j2 == j);
        }
        if has_proyecto_id(res, id) {
            let j = choose|j: int| 0 <= j < res.len() && res[j].rec.id == id;
            assert(j != i);
            assert(db[j].rec.id == id);
            assert(has_proyecto_id(db, id));
        }
    } else {
        assert(res == db.push(spec_proyecto_insert(c, n)));
        assert(forall|k: int| 0 <= k < db.len() ==> res[k] == db[k]);
        assert(res[db.len() as int].rec.id == c.id);
        if has_proyecto_id(db, id) {
            let j = choose|j: int| 0 <= j < db.len() && db[j].rec.id == id;
            assert(res[j].rec.id == id);
            assert(has_proyecto_id(res, id));
            let j2 = choose|j: int| 0 <= j < res.len() && res[j].rec.id == id;
            assert(j2 != db.len());
            assert(j2 == j);
        }
        if has_proyecto_id(res, id) {
            let j = choose|j: int| 0 <= j < res.len() && res[j].rec.id == id;
            assert(j != db.len());
            assert(has_proyecto_id(db, id));
        }
    }
}

/// After a reconciliation upsert the incoming id is stored, and its entry
/// is the merge into the old entry, or a fresh insert.
pub proof fn lemma_proyecto_upsert_own(db: Seq<ProyectoEntryV>, c: ProyectoV, n: int)
    requires
        unique_proyecto_ids(db),
    ensures
        unique_proyecto_ids(spec_proyecto_upsert(db, c, n)),
        has_proyecto_id(spec_proyecto_upsert(db, c, n), c.id),
        proyecto_entry_of(spec_proyecto_upsert(db, c, n), c.id) == (if has_proyecto_id(db, c.id) {
            spec_proyecto_merge(proyecto_entry_of(db, c.id), c, n)
        } else {
            spec_proyecto_insert(c, n)
        }),
{
    let res = spec_proyecto_upsert(db, c, n);
    if has_proyecto_id(db, c.id) {
        let i = choose|i: int| 0 <= i < db.len() && db[i].rec.id == c.id;
        assert(res == db.update(i, spec_proyecto_merge(db[i], c, n)));
        assert(res[i].rec.id == c.id);
        assert(forall|k: int| 0 <= k < db.len() && k != i ==> res[k] == db[k]);
        let i2 = choose|j: int| 0 <= j < res.len() && res[j].rec.id == c.id;
        assert(i2 == i);
        assert(unique_proyecto_ids(res));
    } else {
        assert(res == db.push(spec_proyecto_insert(c, n)));
        let last = db.len() as int;
        assert(res[last].rec.id == c.id);
        assert(forall|k: int| 0 <= k < db.len() ==> res[k] == db[k]);
        let i2 = choose|j: int| 0 <= j < res.len() && res[j].rec.id == c.id;
        assert(i2 == last);
        assert(unique_proyecto_ids(res));
    }
}

/// The database-origin records written after the watermark, in table
/// order: what an incremental outward pass selects.
pub open spec fn spec_proyecto_modified_since(rows: Seq<ProyectoEntryV>, since: int) -> Seq<
    ProyectoV,
>
    decreases rows.len(),
{
    if rows.len() == 0 {
        Seq::empty()
    } else {
        let rest = spec_proyecto_modified_since(rows.skip(1), since);
        if rows[0].sync_source == SyncSource::Db && rows[0].updated_at_ms > since {
            seq![rows[0].rec] + rest
        } else {
            rest
        }
    }
}

/// The project table of the relational store.
#[derive(Debug)]
pub struct ProyectoTable {
    rows: Vec<ProyectoEntry>,
}

impl View for ProyectoTable {
    type V = Seq<ProyectoEntryV>;

    closed spec fn view(&self) -> Seq<ProyectoEntryV> {
        self.rows.deep_view()
    }
}

impl ProyectoTable {
    /// Ids are unique within the table; every operation preserves this.
    pub open spec fn wf(&self) -> bool {
        unique_proyecto_ids(self@)
    }

    /// An empty table.
    pub fn new() -> (r: ProyectoTable)
        ensures
            r@ == Seq::<ProyectoEntryV>::empty(),
            r.wf(),
    {
        let r = ProyectoTable { rows: Vec::new() };
        proof {
            assert(r@ =~= Seq::<ProyectoEntryV>::empty());
        }
        r
    }

    /// The number of stored projects.
    pub fn len(&self) -> (r: usize)
        ensures
            r == self@.len(),
    {
        self.rows.len()
    }

    /// The entry at a position, for inspection.
    pub fn entry(&self, i: usize) -> (r: &ProyectoEntry)
        requires
            i < self@.len(),
        ensures
            r@ == self@[i as int],
    {
        &self.rows[i]
    }

    /// The position of the entry with this id, if any.
    fn find_index(&self, id: &str) -> (r: Option<usize>)
        ensures
            match r {
                Some(j) => j < self@.len() && self@[j as int].rec.id == id@,
                None => !has_proyecto_id(self@, id@),
            },
    {
        let mut k: usize = 0;
        while k < self.rows.len()
            invariant
                k <= self@.len(),
                self@.len() == self.rows@.len(),
                forall|i: int| 0 <= i < k ==> self@[i].rec.id != id@,
            decreases self@.len() - k,
        {
            if str_eq(self.rows[k].rec.id.as_str(), id) {
                return Some(k);
            }
            k = k + 1;
        }
        None
    }

    /// Finds the stored project with this id.
    pub fn find_by_id(&self, id: &str) -> (r: Option<&ProyectoEntry>)
        ensures
            match r {
                Some(e) => has_proyecto_id(self@, id@) && e@.rec.id == id@ && self@.contains(e@),
                None => !has_proyecto_id(self@, id@),
            },
    {
        match self.find_index(id) {
            Some(j) => {
                let e = &self.rows[j];
                proof {
                    assert(self@[j as int] == e@);
                }
                Some(e)
            },
            None => None,
        }
    }

    /// Reconciliation upsert: insert the decoded record if its id is new,
    /// otherwise overwrite the spreadsheet-owned fields; either way the
    /// entry ends tagged as a spreadsheet write touched now.
    pub fn upsert_from_sheets(&mut self, c: Proyecto, now: i64)
        requires
            old(self).wf(),
        ensures
            final(self)@ == spec_proyecto_upsert(old(self)@, c@, now as int),
            final(self).wf(),
    {
        let idx = self.find_index(c.id.as_str());
        match idx {
            Some(j) => {
                let created_at = self.rows[j].rec.created_at.clone();
                let updated_at = self.rows[j].rec.updated_at.clone();
                let created_by = self.rows[j].rec.created_by.clone();
                let updated_at_ms = self.rows[j].updated_at_ms;
                let merged = ProyectoEntry {
                    rec: Proyecto { created_at, updated_at, created_by, ..c },
                    updated_at_ms,
                    synced_at_ms: Some(now),
                    sync_source: SyncSource::Sheets,
                };
                proof {
                    let ghost i = choose|i: int|
                        0 <= i < self@.len() && self@[i].rec.id == c@.id;
                    assert(i == j as int);
                    assert(merged@ =~= spec_proyecto_merge(self@[j as int], c@, now as int));
                }
                self.rows.set(j, merged);
                proof {
                    assert(self@ =~= spec_proyecto_upsert(old(self)@, c@, now as int));
                }
            },
            None => {
                let entry = ProyectoEntry {
                    rec: c,
                    updated_at_ms: now,
                    synced_at_ms: Some(now),
                    sync_source: SyncSource::Sheets,
                };
                self.rows.push(entry);
                proof {
                    assert(self@ =~= spec_proyecto_upsert(old(self)@, c@, now as int));
                }
            },
        }
    }

    /// Ordinary (CRUD) save: the record replaces the stored one or is
    /// appended, tagged as a database write; `synced_at_ms` is untouched.
    pub fn save_from_db(&mut self, c: Proyecto, now: i64)
        requires
            old(self).wf(),
        ensures
            final(self)@ == spec_proyecto_save(old(self)@, c@, now as int),
            final(self).wf(),
    {
        let idx = self.find_index(c.id.as_str());
        match idx {
            Some(j) => {
                let synced_at_ms = self.rows[j].synced_at_ms;
                let entry = ProyectoEntry {
                    rec: c,
                    updated_at_ms: now,
                    synced_at_ms,
                    sync_source: SyncSource::Db,
                };
                proof {
                    let ghost i = choose|i: int|
                        0 <= i < self@.len() && self@[i].rec.id == c@.id;
                    assert(i == j as int);
                }
                self.rows.set(j, entry);
                proof {
                    assert(self@ =~= spec_proyecto_save(old(self)@, c@, now as int));
                }
            },
            None => {
                let entry = ProyectoEntry {
                    rec: c,
                    updated_at_ms: now,
                    synced_at_ms: None,
                    sync_source: SyncSource::Db,
                };
                self.rows.push(entry);
                proof {
                    assert(self@ =~= spec_proyecto_save(old(self)@, c@, now as int));
                }
            },
        }
    }

    /// The database-origin projects written after the watermark, in table
    /// order — the records an incremental outward pass must push.
    pub fn find_modified_since(&self, since: i64) -> (r: Vec<Proyecto>)
        ensures
            r.deep_view() == spec_proyecto_modified_since(self@, since as int),
    {
        let mut out: Vec<Proyecto> = Vec::new();
        let n = self.rows.len();
        let mut k: usize = 0;
        proof {
            assert(self@.skip(0) =~= self@);
            assert(out.deep_view() + spec_proyecto_modified_since(self@, since as int)
                =~= spec_proyecto_modified_since(self@, since as int));
        }
        while k < n
            invariant
                k <= n,
                n == self@.len(),
                spec_proyecto_modified_since(self@, since as int) =~= out.deep_view()
                    + spec_proyecto_modified_since(self@.skip(k as int), since as int),
            decreases n - k,
        {
            let ghost pre = out.deep_view();
            let e = &self.rows[k];
            if matches!(e.sync_source, SyncSource::Db) && e.updated_at_ms > since {
                out.push(e.rec.clone());
            }
            proof {
                assert(self@.skip(k as int).skip(1) =~= self@.skip(k + 1));
                assert(self@.skip(k as int)[0] == self@[k as int]);
                if self@[k as int].sync_source == SyncSource::Db
                    && self@[k as int].updated_at_ms > since {
                    assert(out.deep_view() =~= pre + seq![self@[k as int].rec]);
                    assert(pre + (seq![self@[k as int].rec] + spec_proyecto_modified_since(
                        self@.skip(k + 1),
                        since as int,
                    )) =~= out.deep_view() + spec_proyecto_modified_since(
                        self@.skip(k + 1),
                        since as int,
                    ));
                } else {
                    assert(out.deep_view() =~= pre);
                }
            }
            k = k + 1;
        }
        proof {
            assert(self@.skip(n as int) =~= Seq::<ProyectoEntryV>::empty());
            assert(out.deep_view() + spec_proyecto_modified_since(
                Seq::<ProyectoEntryV>::empty(),
                since as int,
            ) =~= out.deep_view());
        }
        out
    }
}

/// Law: an incremental outward selection contains only database-origin
/// records written after the watermark — nothing the spreadsheet supplied
/// is echoed back.
pub proof fn lemma_proyecto_modified_since_only_db(
    rows: Seq<ProyectoEntryV>,
    since: int,
    k: int,
)
    requires
        0 <= k < spec_proyecto_modified_since(rows, since).len(),
    ensures
        exists|i: int|
            0 <= i < rows.len() && rows[i].sync_source == SyncSource::Db
                && rows[i].updated_at_ms > since && rows[i].rec
                == spec_proyecto_modified_since(rows, since)[k],
    decreases rows.len(),
{
    let sel = spec_proyecto_modified_since(rows, since);
    if rows.len() > 0 {
        let rest = spec_proyecto_modified_since(rows.skip(1), since);
        if rows[0].sync_source == SyncSource::Db && rows[0].updated_at_ms > since {
            if k == 0 {
                assert(rows[0].rec == sel[0]);
            } else {
                lemma_proyecto_modified_since_only_db(rows.skip(1), since, k - 1);
                let i = choose|i: int|
                    0 <= i < rows.skip(1).len() && rows.skip(1)[i].sync_source == SyncSource::Db
                        && rows.skip(1)[i].updated_at_ms > since
                        && rows.skip(1)[i].rec == rest[k - 1];
                assert(rows[i + 1] == rows.skip(1)[i]);
            }
        } else {
            lemma_proyecto_modified_since_only_db(rows.skip(1), since, k);
            let i = choose|i: int|
                0 <= i < rows.skip(1).len() && rows.skip(1)[i].sync_source == SyncSource::Db
                    && rows.skip(1)[i].updated_at_ms > since && rows.skip(1)[i].rec == rest[k];
            assert(rows[i + 1] == rows.skip(1)[i]);
        }
    }
}

} // verus!
