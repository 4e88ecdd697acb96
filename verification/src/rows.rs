//! In-memory model of the row store: one sheet's body rows, each an
//! ordered list of string cells, keyed by the id in the first column.

use vstd::prelude::*;
use crate::text::str_eq;

verus! {

/// Whether a row carries this id in its first column.
pub open spec fn spec_row_matches(row: Seq<Seq<char>>, id: Seq<char>) -> bool {
    row.len() > 0 && row[0] == id
}

/// Whether some row of the sheet carries this id.
pub open spec fn has_row_id(rows: Seq<Seq<Seq<char>>>, id: Seq<char>) -> bool {
    exists|j: int| 0 <= j < rows.len() && spec_row_matches(#[trigger] rows[j], id)
}

/// The position of the first row carrying this id, or `-1` when no row
/// does.
pub open spec fn spec_row_index(rows: Seq<Seq<Seq<char>>>, id: Seq<char>) -> int
    decreases rows.len(),
{
    if rows.len() == 0 {
        -1
    } else if spec_row_matches(rows[0], id) {
        0
    } else {
        let r = spec_row_index(rows.skip(1), id);
        if r < 0 {
            -1
        } else {
            r + 1
        }
    }
}

/// The first-match position is exactly what `has_row_id` promises: in
/// range, matching, with no match before it — or `-1` when nothing
/// matches.
pub proof fn lemma_row_index_props(rows: Seq<Seq<Seq<char>>>, id: Seq<char>)
    ensures
        has_row_id(rows, id) ==> 0 <= spec_row_index(rows, id) < rows.len(),
        has_row_id(rows, id) ==> spec_row_matches(rows[spec_row_index(rows, id)], id),
        has_row_id(rows, id) ==> forall|k: int|
            0 <= k < spec_row_index(rows, id) ==> !spec_row_matches(rows[k], id),
        !has_row_id(rows, id) ==> spec_row_index(rows, id) == -1,
    decreases rows.len(),
{
    if rows.len() > 0 {
        lemma_row_index_props(rows.skip(1), id);
        if !spec_row_matches(rows[0], id) {
            assert(forall|j: int| 0 <= j < rows.skip(1).len() ==> rows.skip(1)[j] == rows[j + 1]);
            if has_row_id(rows, id) {
                let w = choose|j: int| 0 <= j < rows.len() && spec_row_matches(rows[j], id);
                assert(rows.skip(1)[w - 1] == rows[w]);
                assert(has_row_id(rows.skip(1), id));
            }
            if has_row_id(rows.skip(1), id) {
                let w = choose|j: int|
                    0 <= j < rows.skip(1).len() && spec_row_matches(rows.skip(1)[j], id);
                assert(rows[w + 1] == rows.skip(1)[w]);
                assert(has_row_id(rows, id));
            }
            if has_row_id(rows, id) {
                assert forall|k: int|
                    0 <= k < spec_row_index(rows, id) implies !spec_row_matches(
                    rows[k],
                    id,
                ) by {
                    if k > 0 {
                        assert(rows[k] == rows.skip(1)[k - 1]);
                    }
                }
            }
        }
    }
}

/// One sheet's body rows (the header row is not modeled).
#[derive(Debug)]
pub struct RowTable {
    rows: Vec<Vec<String>>,
}

impl View for RowTable {
    type V = Seq<Seq<Seq<char>>>;

    closed spec fn view(&self) -> Seq<Seq<Seq<char>>> {
        self.rows.deep_view()
    }
}

impl RowTable {
    /// An empty sheet body.
    pub fn new() -> (r: RowTable)
        ensures
            r@ == Seq::<Seq<Seq<char>>>::empty(),
    {
        let r = RowTable { rows: Vec::new() };
        proof {
            assert(r@ =~= Seq::<Seq<Seq<char>>>::empty());
        }
        r
    }

    /// A sheet body holding the given rows.
    pub fn from_rows(rows: Vec<Vec<String>>) -> (r: RowTable)
        ensures
            r@ == rows.deep_view(),
    {
        RowTable { rows }
    }

    /// The number of body rows.
    pub fn len(&self) -> (r: usize)
        ensures
            r == self@.len(),
    {
        self.rows.len()
    }

    /// The row at a position, for inspection.
    pub fn row(&self, j: usize) -> (r: &Vec<String>)
        requires
            j < self@.len(),
        ensures
            r.deep_view() == self@[j as int],
    {
        &self.rows[j]
    }

    /// Every body row, in sheet order.
    pub fn read_all(&self) -> (r: &Vec<Vec<String>>)
        ensures
            r.deep_view() == self@,
    {
        &self.rows
    }

    /// Appends a row at the end of the sheet.
    pub fn append(&mut self, row: Vec<String>)
        ensures
            final(self)@ == old(self)@.push(row.deep_view()),
    {
        self.rows.push(row);
        proof {
            assert(self@ =~= old(self)@.push(self.rows@.last().deep_view()));
        }
    }

    /// Overwrites the first row whose first column holds this id; reports
    /// whether such a row was found, leaving the sheet unchanged otherwise.
    pub fn update_by_id(&mut self, id: &str, row: Vec<String>) -> (found: bool)
        ensures
            found == has_row_id(old(self)@, id@),
            !found ==> final(self)@ == old(self)@,
            found ==> final(self)@ == old(self)@.update(
                spec_row_index(old(self)@, id@),
                row.deep_view(),
            ),
    {
        let n = self.rows.len();
        let mut j: usize = 0;
        while j < n
            invariant
                j <= n,
                n == self@.len(),
                self@ == old(self)@,
                forall|k: int| 0 <= k < j ==> !spec_row_matches(old(self)@[k], id@),
            decreases n - j,
        {
            let candidate = &self.rows[j];
            if candidate.len() > 0 && str_eq(candidate[0].as_str(), id) {
                proof {
                    assert(spec_row_matches(old(self)@[j as int], id@));
                    lemma_row_index_props(old(self)@, id@);
                    assert(j as int == spec_row_index(old(self)@, id@));
                }
                self.rows.set(j, row);
                proof {
                    assert(self@ =~= old(self)@.update(j as int, self.rows@[j as int].deep_view()));
                }
                return true;
            }
            j = j + 1;
        }
        proof {
            assert(!has_row_id(old(self)@, id@));
        }
        false
    }

    /// Replaces the whole sheet body with these rows (the recovery mode of
    /// the outward sync).
    pub fn replace_all(&mut self, rows: Vec<Vec<String>>)
        ensures
            final(self)@ == rows.deep_view(),
    {
        self.rows = rows;
    }
}

/// The spreadsheet: one sheet per synchronized entity kind.
#[derive(Debug)]
pub struct SheetBook {
    pub clientes: RowTable,
    pub proyectos: RowTable,
    pub ensayos: RowTable,
}

impl SheetBook {
    /// A spreadsheet with empty sheet bodies.
    pub fn new() -> (r: SheetBook)
        ensures
            r.clientes@.len() == 0,
            r.proyectos@.len() == 0,
            r.ensayos@.len() == 0,
    {
        SheetBook { clientes: RowTable::new(), proyectos: RowTable::new(), ensayos: RowTable::new() }
    }
}

} // verus!
