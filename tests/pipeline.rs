use iserv_import::codec::{decode, tokenize, Encoding};
use iserv_import::normalize::Config;
use iserv_import::output::render;
use iserv_import::pipeline::{
    is_source_file_name, process_rows, process_sources, process_text, select_source_files,
    RowError,
};
use iserv_import::record::{find_column, Column, FieldError, FieldFault, RecordIserv, RecordType};

fn strings(v: &[&str]) -> Vec<String> {
    v.iter().map(|s| s.to_string()).collect()
}

fn config() -> Config {
    Config::new(2, strings(&["11", "12", "13"]), strings(&["apple", "river"])).unwrap()
}

const ROSTER: &str = "Nachname;Vorname;Klasse;eindeutige Nummer (GUID)\n\
Schmidt;Lena;11b;g1\n\
Weber;Tom;;g2\n\
Klein;Mia;ABI;g3\n";

#[test]
fn roster_text_keeps_valid_rows_in_order() {
    let batch = process_text(ROSTER.as_bytes(), Encoding::Utf8, RecordType::Schild, &config());
    assert_eq!(batch.records.len(), 2);
    assert_eq!(batch.records[0].nachname, "Schmidt");
    assert_eq!(batch.records[0].klasse, "11");
    assert_eq!(batch.records[0].import_id, "g1");
    assert_eq!(batch.records[1].nachname, "Klein");
    assert_eq!(batch.records[1].vorname, "Mia");
    assert_eq!(batch.records[1].klasse, "ABI");
    assert_eq!(
        batch.errors,
        vec![RowError::Field {
            row: 2,
            error: FieldError { column: Column::Klasse, fault: FieldFault::EmptyValue },
        }]
    );
}

#[test]
fn guest_text_in_windows_1252() {
    let mut bytes: Vec<u8> = b"NAME, VORNAME;KLASSE;SCH".to_vec();
    bytes.push(0xDC);
    bytes.extend_from_slice(b"LERNR\n*M");
    bytes.push(0xFC);
    bytes.extend_from_slice(b"ller, Anna (G);EF;4711\n*Schulz Jan;Q1;4712\n");
    let batch = process_text(&bytes, Encoding::Windows, RecordType::Gastschueler, &config());
    assert_eq!(batch.records.len(), 1);
    assert_eq!(batch.records[0].nachname, "Müller");
    assert_eq!(batch.records[0].vorname, "Anna");
    assert_eq!(batch.records[0].klasse, "EF");
    assert_eq!(batch.records[0].import_id, "4711");
    assert_eq!(batch.errors, vec![RowError::MalformedName { row: 2 }]);
}

#[test]
fn missing_column_fails_every_row() {
    let text = "Nachname;Vorname;Klasse\nA;B;11a\nC;D;12\n";
    let batch = process_text(text.as_bytes(), Encoding::Utf8, RecordType::Schild, &config());
    assert!(batch.records.is_empty());
    let missing = FieldError { column: Column::Guid, fault: FieldFault::MissingColumn };
    assert_eq!(
        batch.errors,
        vec![RowError::Field { row: 1, error: missing }, RowError::Field { row: 2, error: missing }]
    );
}

#[test]
fn row_with_wrong_field_count_is_untokenizable() {
    let text = "NAME, VORNAME;KLASSE;SCHÜLERNR\n*A, B;5a\n*C, D;6b;9\n";
    let batch = process_text(text.as_bytes(), Encoding::Utf8, RecordType::Gastschueler, &config());
    assert_eq!(batch.records.len(), 1);
    assert_eq!(batch.records[0].nachname, "C");
    assert_eq!(batch.errors, vec![RowError::Untokenizable { row: 1 }]);
}

#[test]
fn spreadsheet_rows_are_read_by_header() {
    let rows = vec![
        Some(strings(&["Vorname", "eindeutige Nummer (GUID)", "Nachname", "Klasse"])),
        Some(strings(&["Lena", "g1", "Schmidt", "12c"])),
    ];
    let batch = process_rows(RecordType::Schild, &rows, &config());
    assert_eq!(batch.records.len(), 1);
    assert_eq!(batch.records[0].nachname, "Schmidt");
    assert_eq!(batch.records[0].vorname, "Lena");
    assert_eq!(batch.records[0].klasse, "12");
    assert_eq!(batch.records[0].import_id, "g1");
    assert!(process_rows(RecordType::Schild, &Vec::new(), &config()).records.is_empty());
}

#[test]
fn directory_skips_source_that_did_not_open() {
    let sources = vec![None, Some(ROSTER.as_bytes().to_vec())];
    let dir = process_sources(&sources, Encoding::Utf8, RecordType::Schild, &config());
    assert_eq!(dir.unopened, vec![0]);
    assert_eq!(dir.records.len(), 2);
    assert_eq!(dir.records[0].nachname, "Schmidt");
    assert_eq!(dir.records[1].nachname, "Klein");
    assert_eq!(dir.errors.len(), 1);
    assert_eq!(dir.errors[0].0, 1);
}

#[test]
fn directory_concatenates_sources_in_order() {
    let second = "Nachname;Vorname;Klasse;eindeutige Nummer (GUID)\nZ;Y;13x;g9\n";
    let sources = vec![Some(ROSTER.as_bytes().to_vec()), Some(second.as_bytes().to_vec())];
    let dir = process_sources(&sources, Encoding::Utf8, RecordType::Schild, &config());
    assert!(dir.unopened.is_empty());
    let names: Vec<&str> = dir.records.iter().map(|r| r.nachname.as_str()).collect();
    assert_eq!(names, vec!["Schmidt", "Klein", "Z"]);
    assert_eq!(dir.records[2].klasse, "13");
}

#[test]
fn source_files_match_upper_case_csv() {
    assert!(is_source_file_name("export.CSV"));
    assert!(!is_source_file_name("export.csv"));
    assert!(!is_source_file_name("CSV"));
    let names = strings(&["b.CSV", "a.csv", "notes.txt", "a.CSV"]);
    assert_eq!(select_source_files(&names), strings(&["b.CSV", "a.CSV"]));
}

#[test]
fn header_column_found_first() {
    let header = strings(&["A", "B", "A"]);
    assert_eq!(find_column(&header, "A"), Some(0));
    assert_eq!(find_column(&header, "B"), Some(1));
    assert_eq!(find_column(&header, "C"), None);
}

#[test]
fn utf8_decoding_drops_byte_order_mark() {
    assert_eq!(decode(b"\xEF\xBB\xBFab", Encoding::Utf8), "ab");
    assert_eq!(decode(b"\xE4", Encoding::Windows), "ä");
}

#[test]
fn tokenizer_splits_at_semicolons() {
    let rows = tokenize("a;b\n\"c;d\";e\n");
    assert_eq!(rows, vec![Some(strings(&["a", "b"])), Some(strings(&["c;d", "e"]))]);
}

#[test]
fn import_file_has_header_and_rows() {
    let records = vec![RecordIserv {
        nachname: "Schmidt".to_string(),
        vorname: "Lena".to_string(),
        klasse: "11".to_string(),
        import_id: "g1".to_string(),
        password: "apple-river".to_string(),
    }];
    let bytes = render(&records).unwrap();
    assert_eq!(
        String::from_utf8(bytes).unwrap(),
        "Nachname;Vorname;Klasse;Import-ID;Password\nSchmidt;Lena;11;g1;apple-river\n"
    );
    let empty = render(&Vec::new()).unwrap();
    assert_eq!(String::from_utf8(empty).unwrap(), "Nachname;Vorname;Klasse;Import-ID;Password\n");
}

#[test]
fn import_file_for_one_record_with_umlaut() {
    let records = vec![RecordIserv {
        nachname: "Müller".to_string(),
        vorname: "Anna".to_string(),
        klasse: "11".to_string(),
        import_id: "g-1".to_string(),
        password: "haus-baum".to_string(),
    }];
    let bytes = render(&records).unwrap();
    assert_eq!(
        String::from_utf8(bytes).unwrap(),
        "Nachname;Vorname;Klasse;Import-ID;Password\nMüller;Anna;11;g-1;haus-baum\n"
    );
}

#[test]
fn roster_text_renders_two_rows() {
    let batch = process_text(ROSTER.as_bytes(), Encoding::Utf8, RecordType::Schild, &config());
    let text = String::from_utf8(render(&batch.records).unwrap()).unwrap();
    let lines: Vec<&str> = text.lines().collect();
    assert_eq!(lines.len(), 3);
    assert!(lines[1].starts_with("Schmidt;Lena;11;g1;"));
    assert!(lines[2].starts_with("Klein;Mia;ABI;g3;"));
}
