use vstd::prelude::*;

use crate::strutil::{spec_join, join_strings};

verus! {

/// A row of the wrong width was handed to a table.
#[derive(Clone, Copy, PartialEq, Eq, Structural, Debug)]
pub struct Error;

/// The position of the first row of the wrong width, or the row count when
/// every row fits.
pub open spec fn spec_first_bad_row(rows: Seq<Vec<String>>, width: int) -> int
    decreases rows.len(),
{
    if rows.len() == 0 {
        0
    } else if rows[0]@.len() != width {
        0
    } else {
        1 + spec_first_bad_row(rows.drop_first(), width)
    }
}

proof fn lemma_first_bad_row_at(rows: Seq<Vec<String>>, width: int, i: int)
    requires
        0 <= i <= rows.len(),
        forall|j: int| 0 <= j < i ==> (#[trigger] rows[j])@.len() == width,
        i < rows.len() ==> rows[i]@.len() != width,
    ensures
        spec_first_bad_row(rows, width) == i,
    decreases i,
{
    if rows.len() == 0 {
    } else if i == 0 {
    } else {
        assert(forall|a: int|
            0 <= a < rows.drop_first().len() ==> #[trigger] rows.drop_first()[a] == rows[a + 1]);
        lemma_first_bad_row_at(rows.drop_first(), width, i - 1);
    }
}

/// A rectangular table of rendered cells: a header row, then data rows, all
/// of one width.
pub struct Table {
    pub width: usize,
    pub rows: Vec<Vec<String>>,
}

pub open spec fn row_view(r: Vec<String>) -> Seq<Seq<char>> {
    r@.map_values(|c: String| c@)
}

impl Table {
    pub open spec fn spec_rows(&self) -> Seq<Seq<Seq<char>>> {
        Seq::new(self.rows@.len(), |i: int| row_view(self.rows@[i]))
    }

    /// Every row, the header included, has the table's width.
    pub open spec fn wf(&self) -> bool {
        &&& self.rows@.len() >= 1
        &&& forall|i: int|
            0 <= i < self.rows@.len() ==> (#[trigger] self.rows@[i])@.len() == self.width
    }

    pub fn new(header: Vec<String>) -> (r: Table)
        ensures
            r.wf(),
            r.width == header@.len(),
            r.spec_rows() == seq![row_view(header)],
    {
        let width = header.len();
        let mut rows: Vec<Vec<String>> = Vec::new();
        rows.push(header);
        let r = Table { width, rows };
        proof {
            assert(r.spec_rows() =~= seq![row_view(header)]);
        }
        r
    }

    /// Appends rows in order until one of the wrong width appears: that row
    /// and everything after it are refused, and the mismatch is the error.
    pub fn extend(&mut self, rows: Vec<Vec<String>>) -> (r: Result<(), Error>)
        requires
            old(self).wf(),
        ensures
            final(self).wf(),
            final(self).width == old(self).width,
            r is Ok <==> (forall|i: int|
                0 <= i < rows@.len() ==> (#[trigger] rows@[i])@.len() == old(self).width),
            // Whether or not a row was refused, everything before the first
            // mismatch was appended in order.
            final(self).spec_rows() == old(self).spec_rows() + Seq::new(
                spec_first_bad_row(rows@, old(self).width as int) as nat,
                |i: int| row_view(rows@[i]),
            ),
    {
        let ghost r0 = self.spec_rows();
        let ghost given = rows@;
        let n = rows.len();
        let mut rest = rows;
        let mut taken: usize = 0;
        loop
            invariant
                self.wf(),
                self.width == old(self).width,
                given == rows@,
                given.len() == n <= usize::MAX,
                taken + rest@.len() == given.len(),
                forall|i: int| 0 <= i < rest@.len() ==> #[trigger] rest@[i] == given[taken + i],
                forall|i: int| 0 <= i < taken ==> (#[trigger] given[i])@.len() == self.width,
                self.spec_rows() == r0 + Seq::new(taken as nat, |i: int| row_view(given[i])),
                r0 == old(self).spec_rows(),
            decreases rest@.len(),
        {
            if rest.len() == 0 {
                proof {
                    lemma_first_bad_row_at(given, old(self).width as int, taken as int);
                    assert(Seq::new(taken as nat, |i: int| row_view(given[i])) =~= Seq::new(
                        given.len(),
                        |i: int| row_view(given[i]),
                    ));
                }
                return Ok(());
            }
            let row = rest.remove(0);
            proof {
                assert(row == given[taken as int]);
                assert(forall|i: int|
                    0 <= i < rest@.len() ==> #[trigger] rest@[i] == given[taken + 1 + i]);
            }
            if row.len() != self.width {
                proof {
                    assert((given[taken as int])@.len() != old(self).width);
                    lemma_first_bad_row_at(given, old(self).width as int, taken as int);
                }
                return Err(Error);
            }
            let ghost before = self.spec_rows();
            self.rows.push(row);
            proof {
                assert(self.spec_rows() =~= before.push(row_view(row)));
                assert(self.spec_rows() =~= r0 + Seq::new(
                    (taken + 1) as nat,
                    |i: int| row_view(given[i]),
                ));
            }
            taken = taken + 1;
        }
    }

    /// The table as comma-separated lines: cells joined with commas, rows
    /// joined with newlines.
    pub fn as_csv(&self) -> (r: String)
        ensures
            r@ == spec_join(
                Seq::new(self.spec_rows().len(), |i: int| spec_join(self.spec_rows()[i], ","@)),
                "\n"@,
            ),
    {
        let mut lines: Vec<String> = Vec::new();
        let mut i: usize = 0;
        while i < self.rows.len()
            invariant
                i <= self.rows@.len(),
                lines@.len() == i,
                forall|j: int|
                    0 <= j < i ==> (#[trigger] lines@[j])@ == spec_join(self.spec_rows()[j], ","@),
            decreases self.rows@.len() - i,
        {
            lines.push(join_strings(&self.rows[i], ","));
            proof {
                assert(row_view(self.rows@[i as int]) =~= self.rows@[i as int]@.map_values(
                    |c: String| c@,
                ));
            }
            i = i + 1;
        }
        let r = join_strings(&lines, "\n");
        proof {
            assert(lines@.map_values(|p: String| p@) =~= Seq::new(
                self.spec_rows().len(),
                |j: int| spec_join(self.spec_rows()[j], ","@),
            ));
        }
        r
    }

    /// The placeholder for a value that is absent or unreadable.
    pub fn none_repr() -> (r: &'static str)
        ensures
            r@ == "NONE"@,
    {
        "NONE"
    }

    /// A value's rendering, or the "NONE" placeholder when there is none.
    pub fn option_repr(value: Option<String>) -> (r: String)
        ensures
            match value {
                Some(v) => r@ == v@,
                None => r@ == "NONE"@,
            },
    {
        match value {
            Some(v) => v,
            None => String::from_str(Table::none_repr()),
        }
    }
}

} // verus!
