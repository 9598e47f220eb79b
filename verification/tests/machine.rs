use vevolab::machine::{
    detect_protocol_name, detect_series_name, is_calculation_start, is_measurement_header,
    parse_lines, step, ParseState, ParsedRow,
};

#[test]
fn test_detect_series_name() {
    let fields = vec!["Series Name", "10-a"];
    let result = detect_series_name(&fields);
    assert_eq!(result, Some("10-a".to_string()));
}

#[test]
fn test_detect_protocol_name() {
    let fields = vec!["Protocol Name", "MV Flow"];
    let result = detect_protocol_name(&fields);
    assert_eq!(result, Some("MV Flow".to_string()));
}

#[test]
fn test_is_calculation_start() {
    let fields = vec![
        "Calculation".to_string(),
        "".to_string(),
        "Units".to_string(),
        "".to_string(),
    ];
    assert!(is_calculation_start(&fields));
}

#[test]
fn series_name_needs_two_fields() {
    let fields = vec!["Series Name"];
    assert_eq!(detect_series_name(&fields), None);
}

#[test]
fn protocol_name_needs_nonempty_name() {
    let fields = vec!["Protocol Name", ""];
    assert_eq!(detect_protocol_name(&fields), None);
}

#[test]
fn measurement_header_needs_eight_fields() {
    let eight: Vec<String> = vec![
        "Measurement", "Mode", "Parameter", "Units", "Avg", "Std", "Instance 1", "Instance 2 x",
    ]
    .into_iter()
    .map(str::to_string)
    .collect();
    assert!(is_measurement_header(&eight));

    let seven = eight[..7].to_vec();
    assert!(!is_measurement_header(&seven));
}

#[test]
fn calculation_start_needs_units_column() {
    let fields: Vec<String> = vec!["Calculation", "", "Other", ""]
        .into_iter()
        .map(str::to_string)
        .collect();
    assert!(!is_calculation_start(&fields));
}

#[test]
fn short_line_keeps_idle_and_in_series() {
    let one_field = vec!["stray".to_string()];
    let (next, row) = step(ParseState::Idle, &one_field);
    assert_eq!(next, ParseState::Idle);
    assert!(row.is_none());

    let in_series = ParseState::InSeries { id: "10-a".to_string() };
    let (next, row) = step(in_series.clone(), &one_field);
    assert_eq!(next, in_series);
    assert!(row.is_none());
}

#[test]
fn measurement_state_emits_data_rows() {
    let state = ParseState::InMeasurement {
        id: "12-0".to_string(),
        protocol: "MV Flow".to_string(),
    };
    let fields: Vec<String> = vec!["A'", "PW", "Velocity", "mm/s", "-1.5", "0.0", "", ""]
        .into_iter()
        .map(str::to_string)
        .collect();
    let (next, row) = step(state.clone(), &fields);
    assert_eq!(next, state);
    match row {
        Some(ParsedRow::Measurement(m)) => {
            assert_eq!(m.id, "12-0");
            assert_eq!(m.protocol, "MV Flow");
            assert_eq!(m.avg.as_deref(), Some("-1.5"));
        }
        other => panic!("expected a measurement row, got {:?}", other),
    }
}

#[test]
fn end_to_end_one_measurement_one_calculation() {
    let lines: Vec<String> = vec![
        "Series Name,10-a",
        "Protocol Name,MV Flow",
        "Measurement,Mode,Parameter,Units,Avg,Std,Instance 1,Instance 2",
        "A',PW Tissue Doppler Mode,Velocity,mm/s,-14.438560,0.000000,42.0,",
        "Calculation,,Units,",
        "A'/E',,none,1.538462",
    ]
    .into_iter()
    .map(str::to_string)
    .collect();

    let (measurements, calculations) = parse_lines(&lines);
    assert_eq!(measurements.rows.len(), 1);
    assert_eq!(calculations.rows.len(), 1);
    assert_eq!(measurements.rows[0].id, "10-a");
    assert_eq!(measurements.rows[0].protocol, "MV Flow");
    assert_eq!(calculations.rows[0].id, "10-a");
    assert_eq!(calculations.rows[0].protocol, "MV Flow");
    assert_eq!(measurements.rows[0].measurement.as_deref(), Some("A'"));
    assert_eq!(calculations.rows[0].calculation.as_deref(), Some("A'/E'"));
}

#[test]
fn rerunning_the_parser_gives_identical_rows() {
    let lines: Vec<String> = vec![
        "Series Name,10-a",
        "Protocol Name,MV Flow",
        "Measurement,Mode,Parameter,Units,Avg,Std,Instance 1,Instance 2",
        "A',PW,Velocity,mm/s,-14.438560,0.000000,42.0,",
        "B,PW,Velocity,mm/s,2.0,0.1,,",
        "Calculation,,Units,",
        "A'/E',,none,1.538462",
        "Series Name,11-b",
        "Protocol Name,SAX M-Mode",
        "Measurement,Mode,Parameter,Units,Avg,Std,Instance 1,Instance 2",
        "EF,M-Mode,,%,55.1,,,",
    ]
    .into_iter()
    .map(str::to_string)
    .collect();

    let (m1, c1) = parse_lines(&lines);
    let (m2, c2) = parse_lines(&lines);
    assert_eq!(m1.rows, m2.rows);
    assert_eq!(c1.rows, c2.rows);
    assert_eq!(m1.rows.len(), 3);
    assert_eq!(m1.rows[2].id, "11-b");
    assert_eq!(m1.rows[2].protocol, "SAX M-Mode");
}

#[test]
fn blank_lines_are_ignored() {
    let lines: Vec<String> = vec![
        "",
        "   ",
        " , , ",
        "Series Name,10-a",
        "",
        "Protocol Name,MV Flow",
        "Measurement,Mode,Parameter,Units,Avg,Std,Instance 1,Instance 2",
        "A',PW,Velocity,mm/s,1.0,0.0,,",
    ]
    .into_iter()
    .map(str::to_string)
    .collect();

    let (measurements, calculations) = parse_lines(&lines);
    assert_eq!(measurements.rows.len(), 1);
    assert_eq!(calculations.rows.len(), 0);
    assert_eq!(measurements.rows[0].id, "10-a");
}

#[test]
fn series_line_inside_calculation_drops_protocol() {
    let lines: Vec<String> = vec![
        "Series Name,10-a",
        "Protocol Name,MV Flow",
        "Measurement,Mode,Parameter,Units,Avg,Std,Instance 1,Instance 2",
        "Calculation,,Units,",
        "Series Name,11-b",
        "ought to be ignored,while no protocol is confirmed",
        "Protocol Name,B-Mode",
        "Measurement,Mode,Parameter,Units,Avg,Std,Instance 1,Instance 2",
        "EF,B-Mode,,%,60.0,,,",
    ]
    .into_iter()
    .map(str::to_string)
    .collect();

    let (measurements, calculations) = parse_lines(&lines);
    assert_eq!(calculations.rows.len(), 0);
    assert_eq!(measurements.rows.len(), 1);
    assert_eq!(measurements.rows[0].id, "11-b");
    assert_eq!(measurements.rows[0].protocol, "B-Mode");
}
