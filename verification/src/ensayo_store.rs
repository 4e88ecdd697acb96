//! In-memory model of the test-record table.
//!
//! Beside the provenance rules shared with the other tables, the
//! test-record table protects its server-only fields: the generated
//! document identifiers, the cached folder id and the sample reference are
//! never overwritten by a reconciliation upsert, and a fresh insert from
//! the spreadsheet leaves them empty.

use vstd::prelude::*;
use crate::ensayo::{Ensayo, EnsayoV, UpdateEnsayo};
use crate::text::{spec_dec_digits, u64_to_dec};
use crate::store::SyncSource;
use crate::text::str_eq;
use crate::workflow::WorkflowState;

verus! {

/// A stored test record with its synchronization fields.
#[derive(Debug, Clone)]
pub struct EnsayoEntry {
    pub rec: Ensayo,
    pub updated_at_ms: i64,
    pub synced_at_ms: Option<i64>,
    pub sync_source: SyncSource,
}

/// The mathematical value of a stored test record.
#[verifier::ext_equal]
pub ghost struct EnsayoEntryV {
    pub rec: EnsayoV,
    pub updated_at_ms: int,
    pub synced_at_ms: Option<int>,
    pub sync_source: SyncSource,
}

impl View for EnsayoEntry {
    type V = EnsayoEntryV;

    open spec fn view(&self) -> EnsayoEntryV {
        EnsayoEntryV {
            rec: self.rec@,
            updated_at_ms: self.updated_at_ms as int,
            synced_at_ms: match self.synced_at_ms {
                Some(t) => Some(t as int),
                None => None,
            },
            sync_source: self.sync_source,
        }
    }
}

impl DeepView for EnsayoEntry {
    type V = EnsayoEntryV;

    open spec fn deep_view(&self) -> EnsayoEntryV {
        self@
    }
}

/// Ids are unique within a table.
pub open spec fn unique_ensayo_ids(rows: Seq<EnsayoEntryV>) -> bool {
    forall|i: int, j: int| 0 <= i < j < rows.len() ==> rows[i].rec.id != rows[j].rec.id
}

/// Whether some entry carries this id.
pub open spec fn has_ensayo_id(rows: Seq<EnsayoEntryV>, id: Seq<char>) -> bool {
    exists|i: int| 0 <= i < rows.len() && rows[i].rec.id == id
}

/// The entry a reconciliation insert writes: the decoded record with the
/// server-only fields cleared (the spreadsheet does not own them), stamped
/// as a spreadsheet write touched now.
pub open spec fn spec_ensayo_insert(c: EnsayoV, now: int) -> EnsayoEntryV {
    EnsayoEntryV {
        rec: EnsayoV {
            muestra_id: None,
            pdf_drive_id: None,
            pdf_url: None,
            pdf_generated_at: None,
            perforacion_folder_id: None,
            ..c
        },
        updated_at_ms: now,
        synced_at_ms: Some(now),
        sync_source: SyncSource::Sheets,
    }
}

/// The entry a reconciliation overwrite leaves: every spreadsheet-owned
/// field from the incoming record; the audit fields, the sample reference
/// and the generated-document fields from the stored one; the provenance
/// re-stamped and the sync touch refreshed.
pub open spec fn spec_ensayo_merge(e: EnsayoEntryV, c: EnsayoV, now: int) -> EnsayoEntryV {
    EnsayoEntryV {
        rec: EnsayoV {
            muestra_id: e.rec.muestra_id,
            pdf_drive_id: e.rec.pdf_drive_id,
            pdf_url: e.rec.pdf_url,
            pdf_generated_at: e.rec.pdf_generated_at,
            perforacion_folder_id: e.rec.perforacion_folder_id,
            created_at: e.rec.created_at,
            updated_at: e.rec.updated_at,
            ..c
        },
        updated_at_ms: e.updated_at_ms,
        synced_at_ms: Some(now),
        sync_source: SyncSource::Sheets,
    }
}

/// The table after a reconciliation upsert: overwrite in place when the id
/// exists, append otherwise.
pub open spec fn spec_ensayo_upsert(rows: Seq<EnsayoEntryV>, c: EnsayoV, now: int) -> Seq<
    EnsayoEntryV,
> {
    if has_ensayo_id(rows, c.id) {
        let i = choose|i: int| 0 <= i < rows.len() && rows[i].rec.id == c.id;
        rows.update(i, spec_ensayo_merge(rows[i], c, now))
    } else {
        rows.push(spec_ensayo_insert(c, now))
    }
}

/// The table after an ordinary (CRUD) save: the record replaces the stored
/// one or is appended, stamped as a database write; the sync touch is not
/// refreshed by ordinary writes.
pub open spec fn spec_ensayo_save(rows: Seq<EnsayoEntryV>, c: EnsayoV, now: int) -> Seq<
    EnsayoEntryV,
> {
    if has_ensayo_id(rows, c.id) {
        let i = choose|i: int| 0 <= i < rows.len() && rows[i].rec.id == c.id;
        rows.update(
            i,
            EnsayoEntryV {
                rec: c,
                updated_at_ms: now,
                synced_at_ms: rows[i].synced_at_ms,
                sync_source: SyncSource::Db,
            },
        )
    } else {
        rows.push(
            EnsayoEntryV {
                rec: c,
                updated_at_ms: now,
                synced_at_ms: None,
                sync_source: SyncSource::Db,
            },
        )
    }
}

/// The entry carrying this id; meaningful only under `has_ensayo_id`.
pub open spec fn ensayo_entry_of(rows: Seq<EnsayoEntryV>, id: Seq<char>) -> EnsayoEntryV {
    rows[choose|i: int| 0 <= i < rows.len() && rows[i].rec.id == id]
}

/// The table with every sync touch erased: what "the same database state,
/// though `synced_at` advances" compares.
pub open spec fn spec_strip_synced(rows: Seq<EnsayoEntryV>) -> Seq<EnsayoEntryV> {
    Seq::new(rows.len(), |i: int| EnsayoEntryV { synced_at_ms: None, ..rows[i] })
}

/// A reconciliation upsert keeps ids unique, adds exactly the incoming id,
/// and touches no other entry.
pub proof fn lemma_ensayo_upsert_frame(
    db: Seq<EnsayoEntryV>,
    c: EnsayoV,
    n: int,
    id: Seq<char>,
)
    requires
        unique_ensayo_ids(db),
        id != c.id,
    ensures
        has_ensayo_id(spec_ensayo_upsert(db, c, n), id) == has_ensayo_id(db, id),
        has_ensayo_id(db, id) ==> ensayo_entry_of(spec_ensayo_upsert(db, c, n), id)
            == ensayo_entry_of(db, id),
{
    let res = spec_ensayo_upsert(db, c, n);
    if has_ensayo_id(db, c.id) {
        let i = choose|i: int| 0 <= i < db.len() && db[i].rec.id == c.id;
        assert(res == db.update(i, spec_ensayo_merge(db[i], c, n)));
        assert(forall|k: int| 0 <= k < db.len() && k != i ==> res[k] == db[k]);
        assert(res[i].rec.id == c.id);
        if has_ensayo_id(db, id) {
            let j = choose|j: int| 0 <= j < db.len() && db[j].rec.id == id;
            assert(j != i);
            assert(res[j].rec.id == id);
            assert(has_ensayo_id(res, id));
            let j2 = choose|j: int| 0 <= j < res.len() && res[j].rec.id == id;
            assert(j2 != i);
            assert(db[j2].rec.id == id);
            assert(j2 == j);
        }
        if has_ensayo_id(res, id) {
            let j = choose|j: int| 0 <= j < res.len() && res[j].rec.id == id;
            assert(j != i);
            assert(db[j].rec.id == id);
            assert(has_ensayo_id(db, id));
        }
    } else {
        assert(res == db.push(spec_ensayo_insert(c, n)));
        assert(forall|k: int| 0 <= k < db.len() ==> res[k] == db[k]);
        assert(res[db.len() as int].rec.id == c.id);
        if has_ensayo_id(db, id) {
            let j = choose|j: int| 0 <= j < db.len() && db[j].rec.id == id;
            assert(res[j].rec.id == id);
            assert(has_ensayo_id(res, id));
            let j2 = choose|j: int| 0 <= j < res.len() && res[j].rec.id == id;
            assert(j2 != db.len());
            assert(j2 == j);
        }
        if has_ensayo_id(res, id) {
            let j = choose|j: int| 0 <= j < res.len() && res[j].rec.id == id;
            assert(j != db.len());
            assert(has_ensayo_id(db, id));
        }
    }
}

/// After a reconciliation upsert the incoming id is stored, and its entry
/// is the merge into the old entry, or a fresh insert.
pub proof fn lemma_ensayo_upsert_own(db: Seq<EnsayoEntryV>, c: EnsayoV, n: int)
    requires
        unique_ensayo_ids(db),
    ensures
        unique_ensayo_ids(spec_ensayo_upsert(db, c, n)),
        has_ensayo_id(spec_ensayo_upsert(db, c, n), c.id),
        ensayo_entry_of(spec_ensayo_upsert(db, c, n), c.id) == (if has_ensayo_id(db, c.id) {
            spec_ensayo_merge(ensayo_entry_of(db, c.id), c, n)
        } else {
            spec_ensayo_insert(c, n)
        }),
{
    let res = spec_ensayo_upsert(db, c, n);
    if has_ensayo_id(db, c.id) {
        let i = choose|i: int| 0 <= i < db.len() && db[i].rec.id == c.id;
        assert(res == db.update(i, spec_ensayo_merge(db[i], c, n)));
        assert(res[i].rec.id == c.id);
        assert(forall|k: int| 0 <= k < db.len() && k != i ==> res[k] == db[k]);
        let i2 = choose|j: int| 0 <= j < res.len() && res[j].rec.id == c.id;
        assert(i2 == i);
        assert(unique_ensayo_ids(res));
    } else {
        assert(res == db.push(spec_ensayo_insert(c, n)));
        let last = db.len() as int;
        assert(res[last].rec.id == c.id);
        assert(forall|k: int| 0 <= k < db.len() ==> res[k] == db[k]);
        let i2 = choose|j: int| 0 <= j < res.len() && res[j].rec.id == c.id;
        assert(i2 == last);
        assert(unique_ensayo_ids(res));
    }
}

/// The database-origin records written after the watermark, in table
/// order: what an incremental outward pass selects.
pub open spec fn spec_ensayo_modified_since(rows: Seq<EnsayoEntryV>, since: int) -> Seq<
    EnsayoV,
>
    decreases rows.len(),
{
    if rows.len() == 0 {
        Seq::empty()
    } else {
        let rest = spec_ensayo_modified_since(rows.skip(1), since);
        if rows[0].sync_source == SyncSource::Db && rows[0].updated_at_ms > since {
            seq![rows[0].rec] + rest
        } else {
            rest
        }
    }
}

/// The test-record table of the relational store.
#[derive(Debug)]
pub struct EnsayoTable {
    rows: Vec<EnsayoEntry>,
}

impl View for EnsayoTable {
    type V = Seq<EnsayoEntryV>;

    closed spec fn view(&self) -> Seq<EnsayoEntryV> {
        self.rows.deep_view()
    }
}

impl EnsayoTable {
    /// Ids are unique within the table; every operation preserves this.
    pub open spec fn wf(&self) -> bool {
        unique_ensayo_ids(self@)
    }

    /// An empty table.
    pub fn new() -> (r: EnsayoTable)
        ensures
            r@ == Seq::<EnsayoEntryV>::empty(),
            r.wf(),
    {
        let r = EnsayoTable { rows: Vec::new() };
        proof {
            assert(r@ =~= Seq::<EnsayoEntryV>::empty());
        }
        r
    }

    /// The number of stored test records.
    pub fn len(&self) -> (r: usize)
        ensures
            r == self@.len(),
    {
        self.rows.len()
    }

    /// The entry at a position, for inspection.
    pub fn entry(&self, i: usize) -> (r: &EnsayoEntry)
        requires
            i < self@.len(),
        ensures
            r@ == self@[i as int],
    {
        &self.rows[i]
    }

    /// The position of the entry with this id, if any.
    fn find_index(&self, id: &str) -> (r: Option<usize>)
        ensures
            match r {
                Some(j) => j < self@.len() && self@[j as int].rec.id == id@,
                None => !has_ensayo_id(self@, id@),
            },
    {
        let mut k: usize = 0;
        while k < self.rows.len()
            invariant
                k <= self@.len(),
                self@.len() == self.rows@.len(),
                forall|i: int| 0 <= i < k ==> self@[i].rec.id != id@,
            decreases self@.len() - k,
        {
            if str_eq(self.rows[k].rec.id.as_str(), id) {
                return Some(k);
            }
            k = k + 1;
        }
        None
    }

    /// Finds the stored test record with this id.
    pub fn find_by_id(&self, id: &str) -> (r: Option<&EnsayoEntry>)
        ensures
            match r {
                Some(e) => has_ensayo_id(self@, id@) && e@.rec.id == id@ && self@.contains(e@),
                None => !has_ensayo_id(self@, id@),
            },
    {
        match self.find_index(id) {
            Some(j) => {
                let e = &self.rows[j];
                proof {
                    assert(self@[j as int] == e@);
                }
                Some(e)
            },
            None => None,
        }
    }

    /// Reconciliation upsert: insert the decoded record if its id is new,
    /// otherwise overwrite the spreadsheet-owned fields; either way the
    /// entry ends tagged as a spreadsheet write touched now.
    pub fn upsert_from_sheets(&mut self, c: Ensayo, now: i64)
        requires
            old(self).wf(),
        ensures
            final(self)@ == spec_ensayo_upsert(old(self)@, c@, now as int),
            final(self).wf(),
    {
        let idx = self.find_index(c.id.as_str());
        match idx {
            Some(j) => {
                let muestra_id = self.rows[j].rec.muestra_id.clone();
                let pdf_drive_id = self.rows[j].rec.pdf_drive_id.clone();
                let pdf_url = self.rows[j].rec.pdf_url.clone();
                let pdf_generated_at = self.rows[j].rec.pdf_generated_at.clone();
                let perforacion_folder_id = self.rows[j].rec.perforacion_folder_id.clone();
                let created_at = self.rows[j].rec.created_at.clone();
                let updated_at = self.rows[j].rec.updated_at.clone();
                let updated_at_ms = self.rows[j].updated_at_ms;
                let merged = EnsayoEntry {
                    rec: Ensayo {
                        muestra_id,
                        pdf_drive_id,
                        pdf_url,
                        pdf_generated_at,
                        perforacion_folder_id,
                        created_at,
                        updated_at,
                        ..c
                    },
                    updated_at_ms,
                    synced_at_ms: Some(now),
                    sync_source: SyncSource::Sheets,
                };
                proof {
                    let ghost i = choose|i: int|
                        0 <= i < self@.len() && self@[i].rec.id == c@.id;
                    assert(i == j as int);
                    assert(merged@ =~= spec_ensayo_merge(self@[j as int], c@, now as int));
                }
                self.rows.set(j, merged);
                proof {
                    assert(self@ =~= spec_ensayo_upsert(old(self)@, c@, now as int));
                }
            },
            None => {
                let entry = EnsayoEntry {
                    rec: Ensayo {
                        muestra_id: None,
                        pdf_drive_id: None,
                        pdf_url: None,
                        pdf_generated_at: None,
                        perforacion_folder_id: None,
                        ..c
                    },
                    updated_at_ms: now,
                    synced_at_ms: Some(now),
                    sync_source: SyncSource::Sheets,
                };
                self.rows.push(entry);
                proof {
                    assert(self@ =~= spec_ensayo_upsert(old(self)@, c@, now as int));
                }
            },
        }
    }

    /// Ordinary (CRUD) save: the record replaces the stored one or is
    /// appended, tagged as a database write; `synced_at_ms` is untouched.
    pub fn save_from_db(&mut self, c: Ensayo, now: i64)
        requires
            old(self).wf(),
        ensures
            final(self)@ == spec_ensayo_save(old(self)@, c@, now as int),
            final(self).wf(),
    {
        let idx = self.find_index(c.id.as_str());
        match idx {
            Some(j) => {
                let synced_at_ms = self.rows[j].synced_at_ms;
                let entry = EnsayoEntry {
                    rec: c,
                    updated_at_ms: now,
                    synced_at_ms,
                    sync_source: SyncSource::Db,
                };
                proof {
                    let ghost i = choose|i: int|
                        0 <= i < self@.len() && self@[i].rec.id == c@.id;
                    assert(i == j as int);
                }
                self.rows.set(j, entry);
                proof {
                    assert(self@ =~= spec_ensayo_save(old(self)@, c@, now as int));
                }
            },
            None => {
                let entry = EnsayoEntry {
                    rec: c,
                    updated_at_ms: now,
                    synced_at_ms: None,
                    sync_source: SyncSource::Db,
                };
                self.rows.push(entry);
                proof {
                    assert(self@ =~= spec_ensayo_save(old(self)@, c@, now as int));
                }
            },
        }
    }

    /// The database-origin test records written after the watermark, in table
    /// order — the records an incremental outward pass must push.
    pub fn find_modified_since(&self, since: i64) -> (r: Vec<Ensayo>)
        ensures
            r.deep_view() == spec_ensayo_modified_since(self@, since as int),
    {
        let mut out: Vec<Ensayo> = Vec::new();
        let n = self.rows.len();
        let mut k: usize = 0;
        proof {
            assert(self@.skip(0) =~= self@);
            assert(out.deep_view() + spec_ensayo_modified_since(self@, since as int)
                =~= spec_ensayo_modified_since(self@, since as int));
        }
        while k < n
            invariant
                k <= n,
                n == self@.len(),
                spec_ensayo_modified_since(self@, since as int) =~= out.deep_view()
                    + spec_ensayo_modified_since(self@.skip(k as int), since as int),
            decreases n - k,
        {
            let ghost pre = out.deep_view();
            let e = &self.rows[k];
            if matches!(e.sync_source, SyncSource::Db) && e.updated_at_ms > since {
                out.push(e.rec.clone());
            }
            proof {
                assert(self@.skip(k as int).skip(1) =~= self@.skip(k + 1));
                assert(self@.skip(k as int)[0] == self@[k as int]);
                if self@[k as int].sync_source == SyncSource::Db
                    && self@[k as int].updated_at_ms > since {
                    assert(out.deep_view() =~= pre + seq![self@[k as int].rec]);
                    assert(pre + (seq![self@[k as int].rec] + spec_ensayo_modified_since(
                        self@.skip(k + 1),
                        since as int,
                    )) =~= out.deep_view() + spec_ensayo_modified_since(
                        self@.skip(k + 1),
                        since as int,
                    ));
                } else {
                    assert(out.deep_view() =~= pre);
                }
            }
            k = k + 1;
        }
        proof {
            assert(self@.skip(n as int) =~= Seq::<EnsayoEntryV>::empty());
            assert(out.deep_view() + spec_ensayo_modified_since(
                Seq::<EnsayoEntryV>::empty(),
                since as int,
            ) =~= out.deep_view());
        }
        out
    }
    /// Changes only the workflow state of the stored record: a database
    /// write, so the provenance is re-stamped.
    pub fn update_workflow_state(&mut self, id: &str, state: WorkflowState, now: i64) -> (r: bool)
        requires
            old(self).wf(),
        ensures
            r == has_ensayo_id(old(self)@, id@),
            final(self).wf(),
            !r ==> final(self)@ == old(self)@,
            r ==> exists|j: int|
                0 <= j < old(self)@.len() && old(self)@[j].rec.id == id@ && final(self)@
                    =~= old(self)@.update(
                    j,
                    EnsayoEntryV {
                        rec: EnsayoV { workflow_state: state, ..old(self)@[j].rec },
                        updated_at_ms: now as int,
                        synced_at_ms: old(self)@[j].synced_at_ms,
                        sync_source: SyncSource::Db,
                    },
                ),
    {
        let idx = self.find_index(id);
        match idx {
            Some(j) => {
                let mut rec = self.rows[j].rec.clone();
                rec.workflow_state = state;
                let entry = EnsayoEntry {
                    rec,
                    updated_at_ms: now,
                    synced_at_ms: self.rows[j].synced_at_ms,
                    sync_source: SyncSource::Db,
                };
                self.rows.set(j, entry);
                proof {
                    assert(self@[j as int].rec =~= EnsayoV {
                        workflow_state: state,
                        ..old(self)@[j as int].rec
                    });
                    assert(self@ =~= old(self)@.update(j as int, self@[j as int]));
                }
                true
            },
            None => {
                proof {
                    assert(self@ =~= old(self)@);
                }
                false
            },
        }
    }

    /// Stores the generated document's identifier and link on the record,
    /// stamping the generation time: a database write.
    pub fn update_pdf_info(&mut self, id: &str, pdf_drive_id: &str, pdf_url: &str, now: i64) -> (r:
        bool)
        requires
            old(self).wf(),
            now >= 0,
        ensures
            r == has_ensayo_id(old(self)@, id@),
            final(self).wf(),
            !r ==> final(self)@ == old(self)@,
            r ==> exists|j: int|
                0 <= j < old(self)@.len() && old(self)@[j].rec.id == id@ && final(self)@
                    =~= old(self)@.update(
                    j,
                    EnsayoEntryV {
                        rec: EnsayoV {
                            pdf_drive_id: Some(pdf_drive_id@),
                            pdf_url: Some(pdf_url@),
                            pdf_generated_at: Some(spec_dec_digits(now as int)),
                            ..old(self)@[j].rec
                        },
                        updated_at_ms: now as int,
                        synced_at_ms: old(self)@[j].synced_at_ms,
                        sync_source: SyncSource::Db,
                    },
                ),
    {
        let idx = self.find_index(id);
        match idx {
            Some(j) => {
                let mut rec = self.rows[j].rec.clone();
                rec.pdf_drive_id = Some(pdf_drive_id.to_owned());
                rec.pdf_url = Some(pdf_url.to_owned());
                rec.pdf_generated_at = Some(u64_to_dec(now as u64));
                let entry = EnsayoEntry {
                    rec,
                    updated_at_ms: now,
                    synced_at_ms: self.rows[j].synced_at_ms,
                    sync_source: SyncSource::Db,
                };
                self.rows.set(j, entry);
                proof {
                    assert(self@[j as int].rec =~= EnsayoV {
                        pdf_drive_id: Some(pdf_drive_id@),
                        pdf_url: Some(pdf_url@),
                        pdf_generated_at: Some(spec_dec_digits(now as int)),
                        ..old(self)@[j as int].rec
                    });
                    assert(self@ =~= old(self)@.update(j as int, self@[j as int]));
                }
                true
            },
            None => {
                proof {
                    assert(self@ =~= old(self)@);
                }
                false
            },
        }
    }

    /// Stores the working sheet's identifier and link on the record: a
    /// database write.
    pub fn update_sheet_info(&mut self, id: &str, sheet_id: &str, sheet_url: &str, now: i64) -> (r:
        bool)
        requires
            old(self).wf(),
        ensures
            r == has_ensayo_id(old(self)@, id@),
            final(self).wf(),
            !r ==> final(self)@ == old(self)@,
            r ==> exists|j: int|
                0 <= j < old(self)@.len() && old(self)@[j].rec.id == id@ && final(self)@
                    =~= old(self)@.update(
                    j,
                    EnsayoEntryV {
                        rec: EnsayoV {
                            sheet_id: Some(sheet_id@),
                            sheet_url: Some(sheet_url@),
                            ..old(self)@[j].rec
                        },
                        updated_at_ms: now as int,
                        synced_at_ms: old(self)@[j].synced_at_ms,
                        sync_source: SyncSource::Db,
                    },
                ),
    {
        let idx = self.find_index(id);
        match idx {
            Some(j) => {
                let mut rec = self.rows[j].rec.clone();
                rec.sheet_id = Some(sheet_id.to_owned());
                rec.sheet_url = Some(sheet_url.to_owned());
                let entry = EnsayoEntry {
                    rec,
                    updated_at_ms: now,
                    synced_at_ms: self.rows[j].synced_at_ms,
                    sync_source: SyncSource::Db,
                };
                self.rows.set(j, entry);
                proof {
                    assert(self@[j as int].rec =~= EnsayoV {
                        sheet_id: Some(sheet_id@),
                        sheet_url: Some(sheet_url@),
                        ..old(self)@[j as int].rec
                    });
                    assert(self@ =~= old(self)@.update(j as int, self@[j as int]));
                }
                true
            },
            None => {
                proof {
                    assert(self@ =~= old(self)@);
                }
                false
            },
        }
    }

    /// Caches the drilling's folder id on the record: a database write.
    pub fn update_perforacion_folder_id(&mut self, id: &str, folder_id: &str, now: i64) -> (r:
        bool)
        requires
            old(self).wf(),
        ensures
            r == has_ensayo_id(old(self)@, id@),
            final(self).wf(),
            !r ==> final(self)@ == old(self)@,
            r ==> exists|j: int|
                0 <= j < old(self)@.len() && old(self)@[j].rec.id == id@ && final(self)@
                    =~= old(self)@.update(
                    j,
                    EnsayoEntryV {
                        rec: EnsayoV {
                            perforacion_folder_id: Some(folder_id@),
                            ..old(self)@[j].rec
                        },
                        updated_at_ms: now as int,
                        synced_at_ms: old(self)@[j].synced_at_ms,
                        sync_source: SyncSource::Db,
                    },
                ),
    {
        let idx = self.find_index(id);
        match idx {
            Some(j) => {
                let mut rec = self.rows[j].rec.clone();
                rec.perforacion_folder_id = Some(folder_id.to_owned());
                let entry = EnsayoEntry {
                    rec,
                    updated_at_ms: now,
                    synced_at_ms: self.rows[j].synced_at_ms,
                    sync_source: SyncSource::Db,
                };
                self.rows.set(j, entry);
                proof {
                    assert(self@[j as int].rec =~= EnsayoV {
                        perforacion_folder_id: Some(folder_id@),
                        ..old(self)@[j as int].rec
                    });
                    assert(self@ =~= old(self)@.update(j as int, self@[j as int]));
                }
                true
            },
            None => {
                proof {
                    assert(self@ =~= old(self)@);
                }
                false
            },
        }
    }

    /// Overlays a partial update onto the stored record: a database write.
    pub fn update(&mut self, id: &str, u: UpdateEnsayo, now: i64) -> (r: bool)
        requires
            old(self).wf(),
        ensures
            r == has_ensayo_id(old(self)@, id@),
            final(self).wf(),
            !r ==> final(self)@ == old(self)@,
            r ==> exists|j: int|
                0 <= j < old(self)@.len() && old(self)@[j].rec.id == id@ && final(self)@
                    =~= old(self)@.update(
                    j,
                    EnsayoEntryV {
                        rec: Ensayo::spec_apply_update(old(self)@[j].rec, &u),
                        updated_at_ms: now as int,
                        synced_at_ms: old(self)@[j].synced_at_ms,
                        sync_source: SyncSource::Db,
                    },
                ),
    {
        let idx = self.find_index(id);
        match idx {
            Some(j) => {
                let mut rec = self.rows[j].rec.clone();
                rec.apply_update(u);
                let entry = EnsayoEntry {
                    rec,
                    updated_at_ms: now,
                    synced_at_ms: self.rows[j].synced_at_ms,
                    sync_source: SyncSource::Db,
                };
                self.rows.set(j, entry);
                proof {
                    assert(self@ =~= old(self)@.update(j as int, self@[j as int]));
                }
                true
            },
            None => {
                proof {
                    assert(self@ =~= old(self)@);
                }
                false
            },
        }
    }

    /// Soft delete: forces the record into the final billing state, the
    /// terminal end of its lifecycle; a database write. Nothing happens
    /// when the record is absent or already there.
    pub fn delete(&mut self, id: &str, now: i64) -> (r: bool)
        requires
            old(self).wf(),
        ensures
            final(self).wf(),
            !r ==> final(self)@ == old(self)@,
            r ==> exists|j: int|
                0 <= j < old(self)@.len() && old(self)@[j].rec.id == id@ && old(
                    self,
                )@[j].rec.workflow_state != WorkflowState::E15 && final(self)@
                    =~= old(self)@.update(
                    j,
                    EnsayoEntryV {
                        rec: EnsayoV { workflow_state: WorkflowState::E15, ..old(self)@[j].rec },
                        updated_at_ms: now as int,
                        synced_at_ms: old(self)@[j].synced_at_ms,
                        sync_source: SyncSource::Db,
                    },
                ),
            r == (has_ensayo_id(old(self)@, id@) && ensayo_entry_of(old(self)@, id@).rec.workflow_state != WorkflowState::E15),
    {
        let idx = self.find_index(id);
        match idx {
            Some(j) => {
                proof {
                    let w = choose|i: int| 0 <= i < self@.len() && self@[i].rec.id == id@;
                    assert(w == j as int);
                }
                if matches!(self.rows[j].rec.workflow_state, WorkflowState::E15) {
                    proof {
                        assert(self@ =~= old(self)@);
                    }
                    return false;
                }
                let mut rec = self.rows[j].rec.clone();
                rec.workflow_state = WorkflowState::E15;
                let entry = EnsayoEntry {
                    rec,
                    updated_at_ms: now,
                    synced_at_ms: self.rows[j].synced_at_ms,
                    sync_source: SyncSource::Db,
                };
                self.rows.set(j, entry);
                proof {
                    assert(self@[j as int].rec =~= EnsayoV {
                        workflow_state: WorkflowState::E15,
                        ..old(self)@[j as int].rec
                    });
                    assert(self@ =~= old(self)@.update(j as int, self@[j as int]));
                }
                true
            },
            None => {
                proof {
                    assert(self@ =~= old(self)@);
                }
                false
            },
        }
    }

}

/// Law: an incremental outward selection contains only database-origin
/// records written after the watermark — nothing the spreadsheet supplied
/// is echoed back.
pub proof fn lemma_ensayo_modified_since_only_db(
    rows: Seq<EnsayoEntryV>,
    since: int,
    k: int,
)
    requires
        0 <= k < spec_ensayo_modified_since(rows, since).len(),
    ensures
        exists|i: int|
            0 <= i < rows.len() && rows[i].sync_source == SyncSource::Db
                && rows[i].updated_at_ms > since && rows[i].rec
                == spec_ensayo_modified_since(rows, since)[k],
    decreases rows.len(),
{
    let sel = spec_ensayo_modified_since(rows, since);
    if rows.len() > 0 {
        let rest = spec_ensayo_modified_since(rows.skip(1), since);
        if rows[0].sync_source == SyncSource::Db && rows[0].updated_at_ms > since {
            if k == 0 {
                assert(rows[0].rec == sel[0]);
            } else {
                lemma_ensayo_modified_since_only_db(rows.skip(1), since, k - 1);
                let i = choose|i: int|
                    0 <= i < rows.skip(1).len() && rows.skip(1)[i].sync_source == SyncSource::Db
                        && rows.skip(1)[i].updated_at_ms > since
                        && rows.skip(1)[i].rec == rest[k - 1];
                assert(rows[i + 1] == rows.skip(1)[i]);
            }
        } else {
            lemma_ensayo_modified_since_only_db(rows.skip(1), since, k);
            let i = choose|i: int|
                0 <= i < rows.skip(1).len() && rows.skip(1)[i].sync_source == SyncSource::Db
                    && rows.skip(1)[i].updated_at_ms > since && rows.skip(1)[i].rec == rest[k];
            assert(rows[i + 1] == rows.skip(1)[i]);
        }
    }
}

} // verus!
