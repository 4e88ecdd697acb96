//! Shared pieces of the entity codec: the mapping between one spreadsheet
//! cell and one typed field.
//!
//! Cells are untyped strings edited by people, so decoding is deliberately
//! forgiving: an optional field decodes from an absent or empty cell to
//! `None`, and a boolean cell is true exactly for the literal strings
//! `"true"` and `"1"`.

use vstd::prelude::*;
use vstd::string::*;
use crate::text::str_eq;

verus! {

/// The view of a row: each cell as its character sequence.
pub open spec fn spec_cells(row: Seq<String>) -> Seq<Seq<char>> {
    row.map_values(|s: String| s@)
}

/// A required cell, read verbatim.
pub fn req_cell(row: &[String], i: usize) -> (r: String)
    requires
        i < row@.len(),
    ensures
        r@ == spec_cells(row@)[i as int],
{
    row[i].clone()
}

/// What an optional cell decodes to: present and non-empty, or `None`.
pub open spec fn spec_opt_cell(row: Seq<Seq<char>>, i: int) -> Option<Seq<char>> {
    if 0 <= i < row.len() && row[i].len() != 0 {
        Some(row[i])
    } else {
        None
    }
}

/// An optional cell: absent or empty decodes to `None`.
pub fn opt_cell(row: &[String], i: usize) -> (r: Option<String>)
    ensures
        r.deep_view() == spec_opt_cell(spec_cells(row@), i as int),
{
    if i < row.len() {
        let s = &row[i];
        if s.as_str().is_empty() {
            None
        } else {
            Some(s.clone())
        }
    } else {
        None
    }
}

/// The truthy cell values of the permissive boolean parser.
pub open spec fn spec_truthy(s: Seq<char>) -> bool {
    s == "true"@ || s == "1"@
}

/// What a boolean cell decodes to: the truthy test where the cell exists,
/// the field's default where the row is too short.
pub open spec fn spec_bool_cell(row: Seq<Seq<char>>, i: int, default: bool) -> bool {
    if 0 <= i < row.len() {
        spec_truthy(row[i])
    } else {
        default
    }
}

/// A boolean cell, parsed permissively.
pub fn bool_cell(row: &[String], i: usize, default: bool) -> (r: bool)
    ensures
        r == spec_bool_cell(spec_cells(row@), i as int, default),
{
    if i < row.len() {
        str_eq(row[i].as_str(), "true") || str_eq(row[i].as_str(), "1")
    } else {
        default
    }
}

/// What an optional field encodes to: its value, or the empty cell.
pub open spec fn spec_opt_str(o: Option<Seq<char>>) -> Seq<char> {
    match o {
        Some(s) => s,
        None => Seq::empty(),
    }
}

/// Encodes an optional field.
pub fn opt_str(o: &Option<String>) -> (r: String)
    ensures
        r@ == spec_opt_str(o.deep_view()),
{
    match o {
        Some(s) => s.clone(),
        None => String::new(),
    }
}

/// What a boolean field encodes to.
pub open spec fn spec_bool_str(b: bool) -> Seq<char> {
    if b {
        "true"@
    } else {
        "false"@
    }
}

/// Encodes a boolean field.
pub fn bool_str(b: bool) -> (r: String)
    ensures
        r@ == spec_bool_str(b),
{
    if b {
        "true".to_owned()
    } else {
        "false".to_owned()
    }
}

/// An optional field is well formed when it is `None` or non-empty; only
/// such fields survive the trip through an empty-means-absent cell.
pub open spec fn spec_opt_wf(o: Option<Seq<char>>) -> bool {
    match o {
        Some(s) => s.len() > 0,
        None => true,
    }
}

/// The boolean codec round-trips: decoding an encoded boolean gives the
/// boolean back.
pub proof fn lemma_bool_roundtrip(b: bool)
    ensures
        spec_truthy(spec_bool_str(b)) == b,
{
    reveal_strlit("true");
    reveal_strlit("false");
    reveal_strlit("1");
    assert("true"@.len() == 4);
    assert("false"@.len() == 5);
    assert("1"@.len() == 1);
}

/// The optional-field codec round-trips on well-formed fields.
pub proof fn lemma_opt_roundtrip(row: Seq<Seq<char>>, i: int, o: Option<Seq<char>>)
    requires
        spec_opt_wf(o),
        0 <= i < row.len(),
        row[i] == spec_opt_str(o),
    ensures
        spec_opt_cell(row, i) == o,
{
}

} // verus!
