//! Reading the table that a queue prints of its jobs.
//!
//! The table has a header, a divider line made of dashes, and one row per
//! job whose first field is the job's identifier:
//!
//! ```text
//! Job ID          Username Queue    Jobname    SessID NDS TSK Memory Time  S Time
//! --------------- -------- -------- ---------- ------ --- --- ------ ----- - -----
//! 819446          user     queue    C6HNpts      5085   1   1    8gb 26784 R 00:00
//! ```

use crate::queue::JobIds;
use crate::text::{
    chars_of, contains, fields, includes, lines, split_fields, split_lines, string_of, views,
};
use vstd::prelude::*;

verus! {

/// A run of dashes this long marks the divider line of a status table.
pub const DIVIDER: &'static str = "-----------";

/// Why a status table could not be read.
#[derive(Clone, Copy, Debug, PartialEq, Eq, Structural)]
pub enum StatusError {
    /// Row number `row` below the divider, counted from 0, has `found`
    /// fields and not as many as the table should have.
    Columns { row: usize, found: usize },
    /// The queue keeps no status.
    Unsupported,
}

/// The index of the first of `ls`, at or after `from`, that holds the
/// divider; the length of `ls` when none does.
pub open spec fn divider_from(ls: Seq<Seq<char>>, from: int) -> int
    decreases ls.len() - from,
{
    if from < 0 || from >= ls.len() || contains(ls[from], DIVIDER@) {
        from
    } else {
        divider_from(ls, from + 1)
    }
}

/// The rows of the table `text`: its lines below the first line that
/// holds the divider. A text without a divider has no rows.
pub open spec fn rows(text: Seq<char>) -> Seq<Seq<char>> {
    let ls = lines(text);
    let at = divider_from(ls, 0);
    if at >= ls.len() {
        Seq::empty()
    } else {
        ls.skip(at + 1)
    }
}

/// Whether every row of the table `text` has `columns` fields.
pub open spec fn well_formed(text: Seq<char>, columns: nat) -> bool {
    forall|i: int| 0 <= i < rows(text).len() ==> (#[trigger] fields(rows(text)[i])).len() == columns
}

/// The identifiers in the table `text`: the first field of each row.
pub open spec fn listed(text: Seq<char>) -> Set<Seq<char>> {
    Set::new(
        |id: Seq<char>|
            exists|i: int|
                0 <= i < rows(text).len() && (#[trigger] fields(rows(text)[i])).len() > 0
                    && fields(rows(text)[i])[0] == id,
    )
}

/// Whether `r` is what reading the table `text` with `columns` columns
/// gives: the identifiers that the table lists if every row has
/// `columns` fields, and else the first row that has not, with the
/// number of its fields.
pub open spec fn reading(text: Seq<char>, columns: nat, r: Result<JobIds, StatusError>) -> bool {
    match r {
        Ok(ids) => well_formed(text, columns) && ids.wf() && ids@ == listed(text),
        Err(StatusError::Columns { row, found }) => {
            &&& row < rows(text).len()
            &&& found == fields(rows(text)[row as int]).len()
            &&& found != columns
            &&& forall|i: int| 0 <= i < row ==> (#[trigger] fields(rows(text)[i])).len() == columns
        },
        Err(StatusError::Unsupported) => false,
    }
}

/// Finds the divider line among `ls`.
fn find_divider(ls: &Vec<Vec<char>>) -> (at: usize)
    ensures
        at == divider_from(views(ls@), 0),
        at <= ls.len(),
{
    let divider = chars_of(DIVIDER);
    let mut i: usize = 0;
    while i < ls.len() && !includes(ls[i].as_slice(), divider.as_slice())
        invariant
            i <= ls.len(),
            divider@ == DIVIDER@,
            divider_from(views(ls@), 0) == divider_from(views(ls@), i as int),
        decreases ls.len() - i,
    {
        i += 1;
    }
    i
}

/// Reads the set of job identifiers off the status table `table`, whose
/// rows must each have `columns` fields. A row with another number of
/// fields is an error: the first such row is reported.
pub fn parse_status(table: &str, columns: usize) -> (r: Result<JobIds, StatusError>)
    ensures
        reading(table@, columns as nat, r),
        r is Ok <==> well_formed(table@, columns as nat),
{
    let text = chars_of(table);
    let ls = split_lines(text.as_slice());
    let at = find_divider(&ls);
    let mut ids = JobIds::new();
    if at >= ls.len() {
        assert(listed(table@) =~= Set::<Seq<char>>::empty());
        return Ok(ids);
    }
    let ghost rs = rows(table@);
    let mut i: usize = at + 1;
    while i < ls.len()
        invariant
            at < i <= ls.len(),
            ids.wf(),
            views(ls@) == lines(table@),
            rs == rows(table@),
            rs == lines(table@).skip(at + 1),
            forall|k: int| 0 <= k < i - at - 1 ==> (#[trigger] fields(rs[k])).len() == columns,
            forall|id: Seq<char>|
                ids@.contains(id) <==> exists|k: int|
                    0 <= k < i - at - 1 && (#[trigger] fields(rs[k])).len() > 0 && fields(rs[k])[0]
                        == id,
        decreases ls.len() - i,
    {
        let ghost row = i - at - 1;
        assert(rs[row] == ls@[i as int]@);
        let fs = split_fields(ls[i].as_slice());
        assert(views(fs@) == fields(rs[row]));
        if fs.len() != columns {
            return Err(StatusError::Columns { row: i - at - 1, found: fs.len() });
        }
        if columns > 0 {
            let id = string_of(fs[0].as_slice());
            assert(id@ == fields(rs[row])[0]) by {
                assert(views(fs@)[0] == fs@[0]@);
            }
            let ghost before = ids@;
            ids.insert(id);
            assert forall|x: Seq<char>|
                ids@.contains(x) <==> exists|k: int|
                    0 <= k < i + 1 - at - 1 && (#[trigger] fields(rs[k])).len() > 0 && fields(
                        rs[k],
                    )[0] == x by {
                if ids@.contains(x) {
                    if x == id@ {
                        assert(fields(rs[row]).len() > 0 && fields(rs[row])[0] == x);
                    } else {
                        assert(before.contains(x));
                    }
                }
            }
        }
        i += 1;
    }
    assert(ids@ =~= listed(table@));
    Ok(ids)
}

} // verus!
