use slippi_ratings::csv::parse_csv_line_at;
use slippi_ratings::csv::{CsvError, parse_csv_line, read_matches_from_csv};
use slippi_ratings::game::{CSSCharacter, EndMethod, Stage};

fn line(fields: &[&str]) -> String {
    fields.join(",")
}

fn good_fields() -> Vec<&'static str> {
    vec![
        "2023-02-03T04:05:06Z", "32", "AAAA#1", "0", "2", "1", "BBBB#2", "1", "20", "0", "2", "", "True",
        "False", "8000", "False", "local",
    ]
}

#[test]
fn csv_line_gives_the_match() {
    let (key, m) = parse_csv_line(&line(&good_fields())).unwrap().unwrap();
    assert_eq!(key, "csv_2023-02-03T04:05:06Z");
    assert_eq!(m.datetime, 1675397106);
    assert_eq!(m.stage, Stage::FinalDestination);
    assert_eq!(m.frames, 8000);
    assert_eq!(m.hash, "");
    assert!(!m.is_online);
    assert!(!m.ignore);
    assert_eq!(m.end_method, EndMethod::Game);
    assert_eq!(m.lras_initiator, None);
    assert_eq!(m.players.0.code, "AAAA#1");
    assert_eq!(m.players.0.port, 0);
    assert_eq!(m.players.0.character, CSSCharacter::Fox);
    assert_eq!(m.players.0.stocks, 1);
    assert!(m.players.0.won);
    assert_eq!(m.players.1.code, "BBBB#2");
    assert_eq!(m.players.1.port, 1);
    assert_eq!(m.players.1.character, CSSCharacter::Falco);
    assert_eq!(m.players.1.stocks, 0);
    assert!(!m.players.1.won);
}

#[test]
fn csv_lras_initiator_when_it_is_a_byte() {
    let mut f = good_fields();
    f[11] = "1";
    let (_, m) = parse_csv_line(&line(&f)).unwrap().unwrap();
    assert_eq!(m.lras_initiator, Some(1));
    f[11] = "300";
    let (_, m) = parse_csv_line(&line(&f)).unwrap().unwrap();
    assert_eq!(m.lras_initiator, None);
}

#[test]
fn csv_online_and_netplay_rows_are_skipped() {
    let mut f = good_fields();
    f[15] = "True";
    assert!(matches!(parse_csv_line(&line(&f)), Ok(None)));
    let mut f = good_fields();
    f[16] = "netplay";
    assert!(matches!(parse_csv_line(&line(&f)), Ok(None)));
    // An online row needs no sixteenth field.
    let short = line(&good_fields()[..15]) + ",True";
    assert!(matches!(parse_csv_line(&short), Ok(None)));
}

#[test]
fn csv_errors() {
    assert_eq!(parse_csv_line("a,b,c").unwrap_err(), CsvError::MissingField(15));
    assert_eq!(parse_csv_line(&line(&good_fields()[..16])).unwrap_err(), CsvError::MissingField(16));
    let cases: Vec<(usize, &str, CsvError)> = vec![
        (0, "not a date", CsvError::InvalidDatetime),
        (14, "-3", CsvError::InvalidNumber(14)),
        (1, "x", CsvError::InvalidNumber(1)),
        (1, "33", CsvError::InvalidStage),
        (3, "256", CsvError::InvalidNumber(3)),
        (4, "27", CsvError::InvalidCharacter),
        (5, "", CsvError::InvalidNumber(5)),
        (8, "99", CsvError::InvalidCharacter),
        (10, "5", CsvError::InvalidEndMethod),
        (10, "a", CsvError::InvalidNumber(10)),
    ];
    for (i, value, err) in cases {
        let mut f = good_fields();
        f[i] = value;
        assert_eq!(parse_csv_line(&line(&f)).unwrap_err(), err, "field {i} = {value:?}");
    }
}

#[test]
fn csv_file_skips_header_and_later_rows_replace_earlier() {
    let mut second = good_fields();
    second[14] = "9000";
    let mut skipped = good_fields();
    skipped[0] = "2020-01-01T00:00:00Z";
    skipped[16] = "netplay";
    let lines = vec![
        "header,line".to_string(),
        line(&good_fields()),
        line(&skipped),
        line(&second),
    ];
    let store = read_matches_from_csv(&lines).unwrap();
    assert_eq!(store.len(), 1);
    assert_eq!(store.get("csv_2023-02-03T04:05:06Z").unwrap().frames, 9000);

    let mut bad = good_fields();
    bad[1] = "40";
    let lines = vec!["header".to_string(), line(&good_fields()), line(&bad)];
    assert_eq!(read_matches_from_csv(&lines).unwrap_err(), CsvError::InvalidStage);
    assert_eq!(read_matches_from_csv(&vec![]).unwrap().len(), 0);
    assert_eq!(read_matches_from_csv(&vec!["only a header".to_string()]).unwrap().len(), 0);
}

#[test]
fn csv_line_with_a_given_start_time() {
    let (key, m) = parse_csv_line_at(&line(&good_fields()), Some(42)).unwrap().unwrap();
    assert_eq!(key, "csv_2023-02-03T04:05:06Z");
    assert_eq!(m.datetime, 42);
    assert_eq!(parse_csv_line_at(&line(&good_fields()), None).unwrap_err(), CsvError::InvalidDatetime);
}
