//! Ordered accumulation of parsed rows. Rows are appended as they are
//! produced and never reordered or deduplicated.

use vstd::prelude::*;
use crate::row::{CalculationRow, CalculationRowView, MeasurementRow, MeasurementRowView};

verus! {

/// An ordered collection of rows of one type.
pub trait CsvTable<T: View>: Sized {
    /// The rows held, in insertion order, as their views.
    spec fn rows_seq(&self) -> Seq<T::V>;

    /// An empty table.
    fn new() -> (r: Self)
        ensures
            r.rows_seq() == Seq::<T::V>::empty(),
    ;

    /// Append one row at the end; earlier rows are untouched.
    fn add_row(&mut self, row: T)
        ensures
            final(self).rows_seq() == old(self).rows_seq().push(row@),
    ;
}

/// The rows of the measurement table, in the order the parser produced them.
pub struct MeasurementTable {
    pub rows: Vec<MeasurementRow>,
}

impl CsvTable<MeasurementRow> for MeasurementTable {
    open spec fn rows_seq(&self) -> Seq<MeasurementRowView> {
        self.rows@.map_values(|r: MeasurementRow| r@)
    }

    fn new() -> (r: Self) {
        let t = MeasurementTable { rows: Vec::new() };
        proof {
            assert(t.rows_seq() =~= Seq::<MeasurementRowView>::empty());
        }
        t
    }

    fn add_row(&mut self, row: MeasurementRow) {
        self.rows.push(row);
        proof {
            assert(self.rows_seq() =~= old(self).rows_seq().push(row@));
        }
    }
}

/// The rows of the calculation table, in the order the parser produced them.
pub struct CalculationTable {
    pub rows: Vec<CalculationRow>,
}

impl CsvTable<CalculationRow> for CalculationTable {
    open spec fn rows_seq(&self) -> Seq<CalculationRowView> {
        self.rows@.map_values(|r: CalculationRow| r@)
    }

    fn new() -> (r: Self) {
        let t = CalculationTable { rows: Vec::new() };
        proof {
            assert(t.rows_seq() =~= Seq::<CalculationRowView>::empty());
        }
        t
    }

    fn add_row(&mut self, row: CalculationRow) {
        self.rows.push(row);
        proof {
            assert(self.rows_seq() =~= old(self).rows_seq().push(row@));
        }
    }
}

} // verus!
