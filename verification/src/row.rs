//! Typed rows built from a tokenized line once the series and protocol
//! context is known. Builders are total: a missing positional field or an
//! unparseable numeric cell yields an absent attribute, never an error.

use vstd::prelude::*;
use crate::number::{opt_num_spec, parse_opt_number};

verus! {

/// The view of an optional string attribute.
pub open spec fn opt_view(o: Option<String>) -> Option<Seq<char>> {
    match o {
        Some(s) => Some(s@),
        None => None,
    }
}

/// A row type the parser can build from a series id, a protocol name and a
/// tokenized line, and later write out column by column.
pub trait CsvRow: View + Sized {
    /// What `new` builds, stated over the views of its arguments.
    spec fn from_fields_spec(id: Seq<char>, protocol: Seq<char>, fields: Seq<Seq<char>>) -> Self::V;

    /// The column names of the row type, in serialization order.
    spec fn field_names_spec() -> Seq<Seq<char>>;

    /// Construct a row from a series id, a protocol name and the fields of
    /// one tokenized line.
    fn new(id: String, protocol: String, fields: &[&str]) -> (r: Self)
        ensures
            r@ == Self::from_fields_spec(id@, protocol@, fields@.map_values(|s: &str| s@)),
    ;

    /// The column names of the row type, in serialization order.
    fn return_fields() -> (r: Vec<String>)
        ensures
            r@.map_values(|s: String| s@) == Self::field_names_spec(),
    ;
}

/// One row of a measurement table. The numeric cells hold the trimmed text
/// of the source field, kept only when it conforms to the float grammar, so
/// a caller may evaluate it without re-checking its shape.
#[derive(Debug, PartialEq)]
pub struct MeasurementRow {
    /// The series id in force when the line was read.
    pub id: String,
    /// The protocol name in force when the line was read.
    pub protocol: String,
    pub measurement: Option<String>,
    pub mode: Option<String>,
    pub parameter: Option<String>,
    pub units: Option<String>,
    pub avg: Option<String>,
    pub std_dev: Option<String>,
    pub instance_1: Option<String>,
    pub instance_2: Option<String>,
}

/// The mathematical content of a `MeasurementRow`.
pub struct MeasurementRowView {
    pub id: Seq<char>,
    pub protocol: Seq<char>,
    pub measurement: Option<Seq<char>>,
    pub mode: Option<Seq<char>>,
    pub parameter: Option<Seq<char>>,
    pub units: Option<Seq<char>>,
    pub avg: Option<Seq<char>>,
    pub std_dev: Option<Seq<char>>,
    pub instance_1: Option<Seq<char>>,
    pub instance_2: Option<Seq<char>>,
}

impl View for MeasurementRow {
    type V = MeasurementRowView;

    open spec fn view(&self) -> MeasurementRowView {
        MeasurementRowView {
            id: self.id@,
            protocol: self.protocol@,
            measurement: opt_view(self.measurement),
            mode: opt_view(self.mode),
            parameter: opt_view(self.parameter),
            units: opt_view(self.units),
            avg: opt_view(self.avg),
            std_dev: opt_view(self.std_dev),
            instance_1: opt_view(self.instance_1),
            instance_2: opt_view(self.instance_2),
        }
    }
}

/// The measurement row built from one line: fields map by position to
/// measurement, mode, parameter, units, then the four numeric cells; a
/// field the line does not have is absent.
pub open spec fn measurement_row_spec(
    id: Seq<char>,
    protocol: Seq<char>,
    fields: Seq<Seq<char>>,
) -> MeasurementRowView {
    MeasurementRowView {
        id: id,
        protocol: protocol,
        measurement: if fields.len() > 0 { Some(fields[0]) } else { None },
        mode: if fields.len() > 1 { Some(fields[1]) } else { None },
        parameter: if fields.len() > 2 { Some(fields[2]) } else { None },
        units: if fields.len() > 3 { Some(fields[3]) } else { None },
        avg: if fields.len() > 4 { opt_num_spec(fields[4]) } else { None },
        std_dev: if fields.len() > 5 { opt_num_spec(fields[5]) } else { None },
        instance_1: if fields.len() > 6 { opt_num_spec(fields[6]) } else { None },
        instance_2: if fields.len() > 7 { opt_num_spec(fields[7]) } else { None },
    }
}

impl CsvRow for MeasurementRow {
    open spec fn from_fields_spec(id: Seq<char>, protocol: Seq<char>, fields: Seq<Seq<char>>) -> MeasurementRowView {
        measurement_row_spec(id, protocol, fields)
    }

    open spec fn field_names_spec() -> Seq<Seq<char>> {
        seq![
            "id"@,
            "protocol"@,
            "measurement"@,
            "mode"@,
            "parameter"@,
            "units"@,
            "avg"@,
            "std"@,
            "instance_1"@,
            "instance_2"@,
        ]
    }

    fn new(id: String, protocol: String, fields: &[&str]) -> (r: Self) {
        let r = MeasurementRow {
            id: id,
            protocol: protocol,
            measurement: if fields.len() > 0 { Some(fields[0].to_owned()) } else { None },
            mode: if fields.len() > 1 { Some(fields[1].to_owned()) } else { None },
            parameter: if fields.len() > 2 { Some(fields[2].to_owned()) } else { None },
            units: if fields.len() > 3 { Some(fields[3].to_owned()) } else { None },
            avg: if fields.len() > 4 { parse_opt_number(fields[4]) } else { None },
            std_dev: if fields.len() > 5 { parse_opt_number(fields[5]) } else { None },
            instance_1: if fields.len() > 6 { parse_opt_number(fields[6]) } else { None },
            instance_2: if fields.len() > 7 { parse_opt_number(fields[7]) } else { None },
        };
        r
    }

    fn return_fields() -> (r: Vec<String>) {
        let mut v: Vec<String> = Vec::new();
        v.push("id".to_owned());
        v.push("protocol".to_owned());
        v.push("measurement".to_owned());
        v.push("mode".to_owned());
        v.push("parameter".to_owned());
        v.push("units".to_owned());
        v.push("avg".to_owned());
        v.push("std".to_owned());
        v.push("instance_1".to_owned());
        v.push("instance_2".to_owned());
        proof {
            assert(v@.map_values(|s: String| s@) =~= Self::field_names_spec());
        }
        v
    }
}

/// One row of a calculation table. The `value` cell holds the trimmed text
/// of the source field, kept only when it conforms to the float grammar.
#[derive(Debug, PartialEq)]
pub struct CalculationRow {
    /// The series id in force when the line was read.
    pub id: String,
    /// The protocol name in force when the line was read.
    pub protocol: String,
    pub calculation: Option<String>,
    pub units: Option<String>,
    pub value: Option<String>,
}

/// The mathematical content of a `CalculationRow`.
pub struct CalculationRowView {
    pub id: Seq<char>,
    pub protocol: Seq<char>,
    pub calculation: Option<Seq<char>>,
    pub units: Option<Seq<char>>,
    pub value: Option<Seq<char>>,
}

impl View for CalculationRow {
    type V = CalculationRowView;

    open spec fn view(&self) -> CalculationRowView {
        CalculationRowView {
            id: self.id@,
            protocol: self.protocol@,
            calculation: opt_view(self.calculation),
            units: opt_view(self.units),
            value: opt_view(self.value),
        }
    }
}

/// The calculation row built from one line: the name comes from the first
/// field and the units and value from the third and fourth; the second is a
/// structurally empty placeholder column and is skipped on purpose.
pub open spec fn calculation_row_spec(
    id: Seq<char>,
    protocol: Seq<char>,
    fields: Seq<Seq<char>>,
) -> CalculationRowView {
    CalculationRowView {
        id: id,
        protocol: protocol,
        calculation: if fields.len() > 0 { Some(fields[0]) } else { None },
        units: if fields.len() > 2 { Some(fields[2]) } else { None },
        value: if fields.len() > 3 { opt_num_spec(fields[3]) } else { None },
    }
}

impl CsvRow for CalculationRow {
    open spec fn from_fields_spec(id: Seq<char>, protocol: Seq<char>, fields: Seq<Seq<char>>) -> CalculationRowView {
        calculation_row_spec(id, protocol, fields)
    }

    open spec fn field_names_spec() -> Seq<Seq<char>> {
        seq!["id"@, "protocol"@, "calculation"@, "units"@, "value"@]
    }

    fn new(id: String, protocol: String, fields: &[&str]) -> (r: Self) {
        let r = CalculationRow {
            id: id,
            protocol: protocol,
            calculation: if fields.len() > 0 { Some(fields[0].to_owned()) } else { None },
            units: if fields.len() > 2 { Some(fields[2].to_owned()) } else { None },
            value: if fields.len() > 3 { parse_opt_number(fields[3]) } else { None },
        };
        r
    }

    fn return_fields() -> (r: Vec<String>) {
        let mut v: Vec<String> = Vec::new();
        v.push("id".to_owned());
        v.push("protocol".to_owned());
        v.push("calculation".to_owned());
        v.push("units".to_owned());
        v.push("value".to_owned());
        proof {
            assert(v@.map_values(|s: String| s@) =~= Self::field_names_spec());
        }
        v
    }
}

} // verus!
