use iserv_import::normalize::{
    class_bucket, normalize, split_name, Config, MalformedNameError,
};
use iserv_import::passphrase::generate;
use iserv_import::passphrase::ConfigurationError;
use iserv_import::record::{Record, RecordGastschueler, RecordIserv, RecordSchild};

fn strings(v: &[&str]) -> Vec<String> {
    v.iter().map(|s| s.to_string()).collect()
}

fn grades() -> Vec<String> {
    strings(&["11", "12", "13"])
}

fn config(word_count: usize) -> Config {
    Config::new(word_count, grades(), strings(&["apple", "river", "stone", "cloud"])).unwrap()
}

#[test]
fn class_with_grade_prefix_becomes_prefix() {
    assert_eq!(class_bucket("11b", &grades()), "11");
    assert_eq!(class_bucket("13", &grades()), "13");
    assert_eq!(class_bucket("12Q1", &grades()), "12");
}

#[test]
fn class_without_grade_prefix_is_kept() {
    assert_eq!(class_bucket("ABI", &grades()), "ABI");
    assert_eq!(class_bucket("10a", &grades()), "10a");
    assert_eq!(class_bucket("1", &grades()), "1");
    assert_eq!(class_bucket("", &grades()), "");
}

#[test]
fn class_prefixes_tried_in_order() {
    let prefixes = strings(&["1", "11"]);
    assert_eq!(class_bucket("11b", &prefixes), "1");
    assert_eq!(class_bucket("11b", &Vec::new()), "11b");
}

#[test]
fn guest_name_with_marker_is_split() {
    let (surname, given) = split_name("*Müller, Anna (G)").unwrap();
    assert_eq!(surname, "Müller");
    assert_eq!(given, "Anna");
}

#[test]
fn guest_name_first_character_is_always_dropped() {
    let (surname, given) = split_name("Müller, Anna (G)").unwrap();
    assert_eq!(surname, "üller");
    assert_eq!(given, "Anna");
}

#[test]
fn name_without_guest_marker_keeps_given_name() {
    let (surname, given) = split_name("\"Doe, John").unwrap();
    assert_eq!(surname, "Doe");
    assert_eq!(given, "John");
}

#[test]
fn name_splits_at_first_separator() {
    let (surname, given) = split_name("xA, B, C (G)").unwrap();
    assert_eq!(surname, "A");
    assert_eq!(given, "B, C");
}

#[test]
fn name_with_empty_part_is_malformed() {
    assert_eq!(split_name(", Anna"), Err(MalformedNameError));
    assert_eq!(split_name("x, Anna"), Err(MalformedNameError));
    assert_eq!(split_name("xMüller,  (G)"), Err(MalformedNameError));
    assert_eq!(split_name("xMüller, "), Err(MalformedNameError));
}

#[test]
fn name_without_separator_is_malformed() {
    assert_eq!(split_name("Müller Anna (G)"), Err(MalformedNameError));
    assert_eq!(split_name("Müller,Anna"), Err(MalformedNameError));
    assert_eq!(split_name(""), Err(MalformedNameError));
}

#[test]
fn roster_row_is_normalized() {
    let rec = Record::RecordSchild(RecordSchild {
        nachname: "Schmidt".to_string(),
        vorname: "Lena".to_string(),
        klasse: "11b".to_string(),
        guid: "g-17".to_string(),
    });
    let out = normalize(rec, &config(2)).unwrap();
    assert_eq!(out.nachname, "Schmidt");
    assert_eq!(out.vorname, "Lena");
    assert_eq!(out.klasse, "11");
    assert_eq!(out.import_id, "g-17");
    assert_eq!(out.password.split('-').count(), 2);
}

#[test]
fn guest_row_is_normalized() {
    let rec = Record::RecordGastschueler(RecordGastschueler {
        name: "*Müller, Anna (G)".to_string(),
        klasse: "EF".to_string(),
        schuelernr: "4711".to_string(),
    });
    let out = normalize(rec, &config(3)).unwrap();
    assert_eq!(out.nachname, "Müller");
    assert_eq!(out.vorname, "Anna");
    assert_eq!(out.klasse, "EF");
    assert_eq!(out.import_id, "4711");
    assert_eq!(out.password.split('-').count(), 3);
}

#[test]
fn guest_row_without_separator_fails() {
    let rec = Record::RecordGastschueler(RecordGastschueler {
        name: "Müller Anna".to_string(),
        klasse: "EF".to_string(),
        schuelernr: "4711".to_string(),
    });
    assert!(normalize(rec, &config(3)).is_err());
}

#[test]
fn config_refuses_empty_corpus_and_zero_words() {
    assert!(Config::new(0, grades(), strings(&["a"])).is_none());
    assert!(Config::new(2, grades(), Vec::new()).is_none());
    assert!(Config::new(2, grades(), strings(&["a"])).is_some());
}

#[test]
fn passphrases_have_three_corpus_words() {
    let corpus = strings(&["apple", "river", "stone", "cloud", "Tree"]);
    for _ in 0..50 {
        let p = generate(3, &corpus).unwrap();
        let words: Vec<&str> = p.split('-').collect();
        assert_eq!(words.len(), 3);
        for w in words {
            assert!(corpus.iter().any(|c| c == w));
        }
    }
}

#[test]
fn passphrase_keeps_case_of_corpus() {
    let corpus = strings(&["Tree"]);
    assert_eq!(generate(2, &corpus).unwrap(), "Tree-Tree");
    assert_eq!(generate(1, &corpus).unwrap(), "Tree");
}

#[test]
fn passphrase_from_empty_corpus_fails() {
    assert!(generate(2, &Vec::new()).is_err());
}

#[test]
fn passphrases_vary_between_calls() {
    let corpus = strings(&["apple", "river", "stone", "cloud"]);
    let first = generate(3, &corpus).unwrap();
    let differs = (0..50).any(|_| generate(3, &corpus).unwrap() != first);
    assert!(differs);
}

#[test]
fn record_with_empty_corpus_fails() {
    let empty = Config { word_count: 2, grade_prefixes: grades(), corpus: Vec::new() };
    let r = RecordIserv::new("A".to_string(), "B".to_string(), "11".to_string(), "g".to_string(), &empty);
    assert!(matches!(r, Err(ConfigurationError::EmptyCorpus)));
    let full = config(2);
    let out = RecordIserv::new("A".to_string(), "B".to_string(), "11".to_string(), "g".to_string(), &full).unwrap();
    assert_eq!(out.nachname, "A");
    assert_eq!(out.import_id, "g");
    assert_eq!(out.password.split('-').count(), 2);
}
