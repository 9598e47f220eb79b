use vevolab::row::{CalculationRow, CsvRow, MeasurementRow};
use vevolab::table::{CalculationTable, CsvTable, MeasurementTable};

fn cell_value(cell: &Option<String>) -> Option<f64> {
    cell.as_deref().map(|s| s.parse::<f64>().unwrap())
}

#[test]
fn test_measurement_row_parsing() {
    let fields = vec![
        "A'",
        "PW Tissue Doppler Mode",
        "Velocity",
        "mm/s",
        "-14.438560",
        "0.000000",
        "42.0",
        "",
    ];
    let row = MeasurementRow::new("12-0".into(), "MV Flow".into(), &fields);

    assert_eq!(row.measurement.as_deref(), Some("A'"));
    assert_eq!(row.mode.as_deref(), Some("PW Tissue Doppler Mode"));
    assert_eq!(cell_value(&row.avg), Some(-14.43856));
    assert_eq!(row.instance_2, None);
}

#[test]
fn test_calculation_row_parsing() {
    let fields = vec!["A'/E'", "", "none", "1.538462"];
    let row = CalculationRow::new("12-0".into(), "SAX M-Mode".into(), &fields);

    assert_eq!(row.calculation.as_deref(), Some("A'/E'"));
    assert_eq!(row.units.as_deref(), Some("none"));
    assert_eq!(cell_value(&row.value), Some(1.538462));
}

#[test]
fn test_measurement_table_add_row() {
    let fields = vec![
        "A'",
        "PW Tissue Doppler Mode",
        "Velocity",
        "mm/s",
        "-14.438560",
        "0.000000",
        "42.0",
        "",
    ];
    let row = MeasurementRow::new("12-0".into(), "MV Flow".into(), &fields);

    let mut table = MeasurementTable::new();
    table.add_row(row);

    assert_eq!(table.rows.len(), 1);
    assert_eq!(table.rows[0].measurement.as_deref(), Some("A'"));
}

#[test]
fn test_calculation_table_add_row() {
    let fields = vec!["A'/E'", "", "none", "1.538462"];
    let row = CalculationRow::new("12-0".into(), "SAX M-Mode".into(), &fields);

    let mut table = CalculationTable::new();
    table.add_row(row);

    assert_eq!(table.rows.len(), 1);
    assert_eq!(cell_value(&table.rows[0].value), Some(1.538462));
}

#[test]
fn measurement_row_short_line_leaves_fields_absent() {
    let fields = vec!["EF"];
    let row = MeasurementRow::new("3-b".into(), "B-Mode".into(), &fields);
    assert_eq!(row.id, "3-b");
    assert_eq!(row.protocol, "B-Mode");
    assert_eq!(row.measurement.as_deref(), Some("EF"));
    assert_eq!(row.mode, None);
    assert_eq!(row.units, None);
    assert_eq!(row.avg, None);
    assert_eq!(row.instance_1, None);
}

#[test]
fn calculation_row_skips_placeholder_column() {
    let fields = vec!["CO", "ignored", "mL/min", "12.5"];
    let row = CalculationRow::new("1-a".into(), "PSLAX".into(), &fields);
    assert_eq!(row.calculation.as_deref(), Some("CO"));
    assert_eq!(row.units.as_deref(), Some("mL/min"));
    assert_eq!(cell_value(&row.value), Some(12.5));
}

#[test]
fn measurement_column_names_in_order() {
    let names = MeasurementRow::return_fields();
    assert_eq!(
        names,
        vec![
            "id",
            "protocol",
            "measurement",
            "mode",
            "parameter",
            "units",
            "avg",
            "std",
            "instance_1",
            "instance_2"
        ]
    );
}

#[test]
fn calculation_column_names_in_order() {
    let names = CalculationRow::return_fields();
    assert_eq!(names, vec!["id", "protocol", "calculation", "units", "value"]);
}
