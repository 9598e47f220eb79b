//! The section state machine. It classifies each tokenized line as a
//! section boundary or a data line, carries the series id and protocol name
//! the boundaries establish, and emits a typed row for each data line read
//! inside a measurement or calculation block.

use vstd::prelude::*;
use crate::line::{line_fields, line_is_blank, tokenize_line};
use crate::row::{
    CalculationRow, CalculationRowView, CsvRow, MeasurementRow, MeasurementRowView,
    calculation_row_spec, measurement_row_spec,
};
use crate::table::{CalculationTable, CsvTable, MeasurementTable};
use crate::text::str_starts_with;

verus! {

/// The views of a sequence of borrowed string fields.
pub open spec fn strs_view(fields: Seq<&str>) -> Seq<Seq<char>> {
    fields.map_values(|s: &str| s@)
}

/// The views of a sequence of owned string fields.
pub open spec fn strings_view(fields: Seq<String>) -> Seq<Seq<char>> {
    fields.map_values(|s: String| s@)
}

/// The series id announced by a line: present exactly when the line has two
/// fields and the first begins with the series-name marker; the id is the
/// second field verbatim.
pub open spec fn series_name_of(fields: Seq<Seq<char>>) -> Option<Seq<char>> {
    if fields.len() == 2 && "Series Name"@.is_prefix_of(fields[0]) {
        Some(fields[1])
    } else {
        None
    }
}

/// The protocol name announced by a line: present exactly when the line has
/// two fields, the first begins with the protocol-name marker and the
/// second is non-empty.
pub open spec fn protocol_name_of(fields: Seq<Seq<char>>) -> Option<Seq<char>> {
    if fields.len() == 2 && "Protocol Name"@.is_prefix_of(fields[0]) && fields[1].len() > 0 {
        Some(fields[1])
    } else {
        None
    }
}

/// Whether a line is the measurement table's column header: exactly eight
/// fields, the first beginning with the measurement marker and the last
/// with the second-instance column name.
pub open spec fn measurement_header_spec(fields: Seq<Seq<char>>) -> bool {
    fields.len() == 8 && "Measurement"@.is_prefix_of(fields[0]) && "Instance 2"@.is_prefix_of(
        fields[7],
    )
}

/// Whether a line starts a calculation block: exactly four fields, the
/// first beginning with the calculation marker and the third with the units
/// column name.
pub open spec fn calculation_start_spec(fields: Seq<Seq<char>>) -> bool {
    fields.len() == 4 && "Calculation"@.is_prefix_of(fields[0]) && "Units"@.is_prefix_of(fields[2])
}

/// Detect a series-name line and return its series id.
pub fn detect_series_name(fields: &[&str]) -> (r: Option<String>)
    ensures
        r is Some <==> series_name_of(strs_view(fields@)) is Some,
        r matches Some(v) ==> series_name_of(strs_view(fields@)) == Some(v@),
{
    if fields.len() == 2 && str_starts_with(fields[0], "Series Name") {
        Some(fields[1].to_owned())
    } else {
        None
    }
}

/// Detect a protocol-name line and return its protocol name. A
/// protocol-name marker can occur in other contexts too; the state machine
/// only acts on it while waiting for a protocol.
pub fn detect_protocol_name(fields: &[&str]) -> (r: Option<String>)
    ensures
        r is Some <==> protocol_name_of(strs_view(fields@)) is Some,
        r matches Some(v) ==> protocol_name_of(strs_view(fields@)) == Some(v@),
{
    if fields.len() == 2 && str_starts_with(fields[0], "Protocol Name") && fields[1].unicode_len()
        > 0 {
        Some(fields[1].to_owned())
    } else {
        None
    }
}

/// Whether the line is a measurement table header.
pub fn is_measurement_header(fields: &[String]) -> (r: bool)
    ensures
        r == measurement_header_spec(strings_view(fields@)),
{
    fields.len() == 8 && str_starts_with(fields[0].as_str(), "Measurement") && str_starts_with(
        fields[7].as_str(),
        "Instance 2",
    )
}

/// Whether the line starts a calculation block.
pub fn is_calculation_start(fields: &[String]) -> (r: bool)
    ensures
        r == calculation_start_spec(strings_view(fields@)),
{
    fields.len() == 4 && str_starts_with(fields[0].as_str(), "Calculation") && str_starts_with(
        fields[2].as_str(),
        "Units",
    )
}

/// The parsing state: which section of the export the reader stands in, and
/// the series id and protocol name that section inherited. Exactly one
/// state is active at a time; a transition replaces the whole value.
#[derive(Debug, Clone, PartialEq)]
pub enum ParseState {
    Idle,
    InSeries { id: String },
    InProtocol { id: String, protocol: String },
    InMeasurement { id: String, protocol: String },
    InCalculation { id: String, protocol: String },
}

/// The mathematical content of a `ParseState`.
pub enum StateView {
    Idle,
    InSeries { id: Seq<char> },
    InProtocol { id: Seq<char>, protocol: Seq<char> },
    InMeasurement { id: Seq<char>, protocol: Seq<char> },
    InCalculation { id: Seq<char>, protocol: Seq<char> },
}

impl View for ParseState {
    type V = StateView;

    open spec fn view(&self) -> StateView {
        match self {
            ParseState::Idle => StateView::Idle,
            ParseState::InSeries { id } => StateView::InSeries { id: id@ },
            ParseState::InProtocol { id, protocol } => StateView::InProtocol {
                id: id@,
                protocol: protocol@,
            },
            ParseState::InMeasurement { id, protocol } => StateView::InMeasurement {
                id: id@,
                protocol: protocol@,
            },
            ParseState::InCalculation { id, protocol } => StateView::InCalculation {
                id: id@,
                protocol: protocol@,
            },
        }
    }
}

/// A row the state machine emitted for one data line.
#[derive(Debug, PartialEq)]
pub enum ParsedRow {
    Measurement(MeasurementRow),
    Calculation(CalculationRow),
}

/// The mathematical content of a `ParsedRow`.
pub enum ParsedRowView {
    Measurement(MeasurementRowView),
    Calculation(CalculationRowView),
}

impl View for ParsedRow {
    type V = ParsedRowView;

    open spec fn view(&self) -> ParsedRowView {
        match self {
            ParsedRow::Measurement(m) => ParsedRowView::Measurement(m@),
            ParsedRow::Calculation(c) => ParsedRowView::Calculation(c@),
        }
    }
}

/// The view of an optional emitted row.
pub open spec fn opt_row_view(o: Option<ParsedRow>) -> Option<ParsedRowView> {
    match o {
        Some(r) => Some(r@),
        None => None,
    }
}

/// One transition of the section state machine: from the current state and
/// the fields of one non-blank line to the next state and the row emitted,
/// if any. While the context is incomplete (`Idle`, `InSeries`,
/// `InProtocol`) no row is ever emitted; inside a calculation block a
/// protocol-name line is checked before a series-name line.
pub open spec fn step_spec(state: StateView, fields: Seq<Seq<char>>) -> (StateView, Option<
    ParsedRowView,
>) {
    match state {
        StateView::Idle => match series_name_of(fields) {
            Some(id) => (StateView::InSeries { id }, None),
            None => (StateView::Idle, None),
        },
        StateView::InSeries { id } => match protocol_name_of(fields) {
            Some(protocol) => (StateView::InProtocol { id, protocol }, None),
            None => (StateView::InSeries { id }, None),
        },
        StateView::InProtocol { id, protocol } => if measurement_header_spec(fields) {
            (StateView::InMeasurement { id, protocol }, None)
        } else {
            (StateView::InProtocol { id, protocol }, None)
        },
        StateView::InMeasurement { id, protocol } => if calculation_start_spec(fields) {
            (StateView::InCalculation { id, protocol }, None)
        } else {
            (
                StateView::InMeasurement { id, protocol },
                Some(ParsedRowView::Measurement(measurement_row_spec(id, protocol, fields))),
            )
        },
        StateView::InCalculation { id, protocol } => match protocol_name_of(fields) {
            Some(protocol) => (StateView::InProtocol { id, protocol }, None),
            None => match series_name_of(fields) {
                Some(id) => (StateView::InSeries { id }, None),
                None => (
                    StateView::InCalculation { id, protocol },
                    Some(ParsedRowView::Calculation(calculation_row_spec(id, protocol, fields))),
                ),
            },
        },
    }
}

/// Borrow each owned field as a string slice, in order.
fn as_str_refs<'a>(fields: &'a Vec<String>) -> (r: Vec<&'a str>)
    ensures
        strs_view(r@) == strings_view(fields@),
{
    let mut r: Vec<&str> = Vec::new();
    let mut i: usize = 0;
    while i < fields.len()
        invariant
            0 <= i <= fields.len(),
            r@.len() == i,
            forall|j: int| 0 <= j < i ==> (#[trigger] r@[j])@ == fields@[j]@,
        decreases fields.len() - i,
    {
        r.push(fields[i].as_str());
        i = i + 1;
    }
    proof {
        assert(strs_view(r@) =~= strings_view(fields@));
    }
    r
}

/// Feed the fields of one non-blank line to the state machine: the next
/// state and the emitted row, if any, are exactly what `step_spec` says.
pub fn step(state: ParseState, fields: &Vec<String>) -> (r: (ParseState, Option<ParsedRow>))
    ensures
        r.0@ == step_spec(state@, strings_view(fields@)).0,
        opt_row_view(r.1) == step_spec(state@, strings_view(fields@)).1,
{
    match state {
        ParseState::Idle => {
            let refs = as_str_refs(fields);
            match detect_series_name(refs.as_slice()) {
                Some(id) => (ParseState::InSeries { id }, None),
                None => (ParseState::Idle, None),
            }
        },
        ParseState::InSeries { id } => {
            let refs = as_str_refs(fields);
            match detect_protocol_name(refs.as_slice()) {
                Some(protocol) => (ParseState::InProtocol { id, protocol }, None),
                None => (ParseState::InSeries { id }, None),
            }
        },
        ParseState::InProtocol { id, protocol } => {
            if is_measurement_header(fields.as_slice()) {
                (ParseState::InMeasurement { id, protocol }, None)
            } else {
                (ParseState::InProtocol { id, protocol }, None)
            }
        },
        ParseState::InMeasurement { id, protocol } => {
            if is_calculation_start(fields.as_slice()) {
                (ParseState::InCalculation { id, protocol }, None)
            } else {
                let refs = as_str_refs(fields);
                let row = MeasurementRow::new(id.clone(), protocol.clone(), refs.as_slice());
                (ParseState::InMeasurement { id, protocol }, Some(ParsedRow::Measurement(row)))
            }
        },
        ParseState::InCalculation { id, protocol } => {
            let refs = as_str_refs(fields);
            match detect_protocol_name(refs.as_slice()) {
                Some(new_protocol) => (ParseState::InProtocol { id, protocol: new_protocol }, None),
                None => match detect_series_name(refs.as_slice()) {
                    Some(new_id) => (ParseState::InSeries { id: new_id }, None),
                    None => {
                        let row = CalculationRow::new(id.clone(), protocol.clone(), refs.as_slice());
                        (
                            ParseState::InCalculation { id, protocol },
                            Some(ParsedRow::Calculation(row)),
                        )
                    },
                },
            }
        },
    }
}

/// The state and the accumulated rows after one raw line: a blank line
/// changes nothing, any other line is tokenized and stepped, and an emitted
/// row is appended to its table.
pub open spec fn run_line(
    prev: (StateView, Seq<MeasurementRowView>, Seq<CalculationRowView>),
    line: Seq<char>,
) -> (StateView, Seq<MeasurementRowView>, Seq<CalculationRowView>) {
    if line_is_blank(line) {
        prev
    } else {
        let stepped = step_spec(prev.0, line_fields(line));
        match stepped.1 {
            Some(ParsedRowView::Measurement(m)) => (stepped.0, prev.1.push(m), prev.2),
            Some(ParsedRowView::Calculation(c)) => (stepped.0, prev.1, prev.2.push(c)),
            None => (stepped.0, prev.1, prev.2),
        }
    }
}

/// The state and the rows produced by reading the given raw lines in order,
/// starting idle with empty tables.
pub open spec fn run_spec(lines: Seq<Seq<char>>) -> (StateView, Seq<MeasurementRowView>, Seq<
    CalculationRowView,
>)
    decreases lines.len(),
{
    if lines.len() == 0 {
        (StateView::Idle, Seq::<MeasurementRowView>::empty(), Seq::<CalculationRowView>::empty())
    } else {
        run_line(run_spec(lines.drop_last()), lines.last())
    }
}

/// Parse the raw lines of one export in order: the two tables returned hold
/// exactly the rows `run_spec` produces, in the order they were produced.
pub fn parse_lines(lines: &Vec<String>) -> (r: (MeasurementTable, CalculationTable))
    ensures
        r.0.rows_seq() == run_spec(strings_view(lines@)).1,
        r.1.rows_seq() == run_spec(strings_view(lines@)).2,
{
    let mut state = ParseState::Idle;
    let mut measurements = MeasurementTable::new();
    let mut calculations = CalculationTable::new();
    let mut i: usize = 0;
    proof {
        assert(strings_view(lines@).take(0) =~= Seq::<Seq<char>>::empty());
    }
    while i < lines.len()
        invariant
            0 <= i <= lines.len(),
            state@ == run_spec(strings_view(lines@).take(i as int)).0,
            measurements.rows_seq() == run_spec(strings_view(lines@).take(i as int)).1,
            calculations.rows_seq() == run_spec(strings_view(lines@).take(i as int)).2,
        decreases lines.len() - i,
    {
        proof {
            let all = strings_view(lines@);
            assert(all.take(i + 1).drop_last() =~= all.take(i as int));
            assert(all.take(i + 1).last() == all[i as int]);
            assert(all[i as int] == lines@[i as int]@);
        }
        match tokenize_line(lines[i].as_str()) {
            None => {},
            Some(fields) => {
                let stepped = step(state, &fields);
                state = stepped.0;
                match stepped.1 {
                    Some(ParsedRow::Measurement(m)) => measurements.add_row(m),
                    Some(ParsedRow::Calculation(c)) => calculations.add_row(c),
                    None => {},
                }
            },
        }
        i = i + 1;
    }
    proof {
        assert(strings_view(lines@).take(lines@.len() as int) =~= strings_view(lines@));
    }
    (measurements, calculations)
}

/// A line with fewer than two fields never moves the machine out of the
/// `Idle` or `InSeries` states, and no row is emitted there: with the
/// context incomplete, such lines are silently ignored.
pub proof fn lemma_short_line_no_transition(state: StateView, fields: Seq<Seq<char>>)
    requires
        fields.len() < 2,
        state is Idle || state is InSeries,
    ensures
        step_spec(state, fields).0 == state,
        step_spec(state, fields).1 is None,
{
}

/// Whether the protocol context a state carries is non-empty. States
/// without a protocol context carry none to speak of.
pub open spec fn context_protocol_nonempty(state: StateView) -> bool {
    match state {
        StateView::Idle => true,
        StateView::InSeries { id } => true,
        StateView::InProtocol { id, protocol } => protocol.len() > 0,
        StateView::InMeasurement { id, protocol } => protocol.len() > 0,
        StateView::InCalculation { id, protocol } => protocol.len() > 0,
    }
}

/// Every row ever emitted carries the protocol of the most recently
/// confirmed series/protocol pair, and that protocol is never empty: a
/// protocol context is only established by a protocol-name line with a
/// non-empty second field, and rows are only emitted in states that
/// inherited one.
pub proof fn lemma_rows_carry_protocol(lines: Seq<Seq<char>>)
    ensures
        context_protocol_nonempty(run_spec(lines).0),
        forall|j: int| 0 <= j < run_spec(lines).1.len() ==> (#[trigger] run_spec(
            lines,
        ).1[j]).protocol.len() > 0,
        forall|j: int| 0 <= j < run_spec(lines).2.len() ==> (#[trigger] run_spec(
            lines,
        ).2[j]).protocol.len() > 0,
    decreases lines.len(),
{
    if lines.len() > 0 {
        lemma_rows_carry_protocol(lines.drop_last());
        let prev = run_spec(lines.drop_last());
        let next = run_line(prev, lines.last());
        assert forall|j: int| 0 <= j < next.1.len() implies (#[trigger] next.1[j]).protocol.len()
            > 0 by {
            if j < prev.1.len() {
                assert(next.1[j] == prev.1[j]);
            }
        }
        assert forall|j: int| 0 <= j < next.2.len() implies (#[trigger] next.2[j]).protocol.len()
            > 0 by {
            if j < prev.2.len() {
                assert(next.2[j] == prev.2[j]);
            }
        }
    }
}

/// Parsing is a pure function of the line contents: reading the same lines
/// again yields the same rows, in the same order.
pub proof fn lemma_run_deterministic(lines: Seq<Seq<char>>, again: Seq<Seq<char>>)
    requires
        lines == again,
    ensures
        run_spec(lines) == run_spec(again),
{
}

/// Reading one more line only appends: the rows already produced are kept,
/// unchanged and in their order, in both tables.
pub proof fn lemma_rows_append_only(lines: Seq<Seq<char>>, more: Seq<char>)
    ensures
        run_spec(lines).1.is_prefix_of(run_spec(lines.push(more)).1),
        run_spec(lines).2.is_prefix_of(run_spec(lines.push(more)).2),
{
    assert(lines.push(more).drop_last() =~= lines);
    assert(lines.push(more).last() == more);
    let prev = run_spec(lines);
    assert(run_spec(lines.push(more)) == run_line(prev, more));
    let next = run_line(prev, more);
    assert(prev.1 =~= next.1.subrange(0, prev.1.len() as int));
    assert(prev.2 =~= next.2.subrange(0, prev.2.len() as int));
}

} // verus!
