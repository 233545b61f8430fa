use typing_trainer::data::{lookup_hint, BuiltinMode, HintMap, ProgramData};
use typing_trainer::load::{parse_hints, parse_tasks, LoadErrorKind};

#[test]
fn lookup_normalizes_case() {
    let hints = HintMap::new().insert('ж', String::from("zhe, as in 'measure'"));
    assert_eq!(lookup_hint(&hints, 'Ж'), "zhe, as in 'measure'");
    assert_eq!(lookup_hint(&hints, 'ж'), "zhe, as in 'measure'");
}

#[test]
fn lookup_missing_key_yields_sentinel() {
    let hints = HintMap::new().insert('ж', String::from("zhe"));
    assert_eq!(lookup_hint(&hints, 'q'), "No hint for this :(");
    let empty = HintMap::new();
    assert_eq!(lookup_hint(&empty, 'ж'), "No hint for this :(");
}

#[test]
fn parse_tasks_reads_records() {
    let tasks = parse_tasks("privet~hello\nda\nslovo~word\n").unwrap();
    assert_eq!(tasks.len(), 3);
    assert_eq!(tasks[0].get_task(), "privet");
    assert_eq!(tasks[0].get_mdata(), Some("hello"));
    assert_eq!(tasks[1].get_task(), "da");
    assert_eq!(tasks[1].get_mdata(), None);
    assert_eq!(tasks[2].get_task(), "slovo");
}

#[test]
fn parse_tasks_empty_metadata_field_is_none() {
    let tasks = parse_tasks("da~").unwrap();
    assert_eq!(tasks.len(), 1);
    assert_eq!(tasks[0].get_mdata(), None);
}

#[test]
fn parse_tasks_rejects_empty_dataset() {
    let err = parse_tasks("").unwrap_err();
    assert_eq!(err.kind, LoadErrorKind::EmptyDataset);
    assert_eq!(err.line, 0);
    let err = parse_tasks("\n\n").unwrap_err();
    assert_eq!(err.kind, LoadErrorKind::EmptyDataset);
}

#[test]
fn parse_tasks_rejects_empty_text() {
    let err = parse_tasks("ok~m\n~stray").unwrap_err();
    assert_eq!(err.kind, LoadErrorKind::EmptyTaskText);
    assert_eq!(err.line, 2);
}

#[test]
fn parse_tasks_rejects_extra_fields() {
    let err = parse_tasks("a~b~c").unwrap_err();
    assert_eq!(err.kind, LoadErrorKind::MalformedRow);
    assert_eq!(err.line, 1);
}

#[test]
fn parse_hints_reads_records() {
    let hints = parse_hints("д~letter d\nа~letter a\n").unwrap();
    assert_eq!(lookup_hint(&hints, 'д'), "letter d");
    assert_eq!(lookup_hint(&hints, 'а'), "letter a");
}

#[test]
fn parse_hints_rejects_duplicate_key() {
    let err = parse_hints("а~one\nб~two\nа~three").unwrap_err();
    assert_eq!(err.kind, LoadErrorKind::DuplicateHintKey);
    assert_eq!(err.line, 3);
}

#[test]
fn parse_hints_rejects_bad_keys() {
    let err = parse_hints("ab~x").unwrap_err();
    assert_eq!(err.kind, LoadErrorKind::BadHintKey);
    assert_eq!(err.line, 1);
    let err = parse_hints("~x").unwrap_err();
    assert_eq!(err.kind, LoadErrorKind::BadHintKey);
}

#[test]
fn parse_hints_rejects_empty_value() {
    let err = parse_hints("а~").unwrap_err();
    assert_eq!(err.kind, LoadErrorKind::EmptyHintValue);
    assert_eq!(err.line, 1);
}

#[test]
fn parse_hints_rejects_missing_field() {
    let err = parse_hints("а").unwrap_err();
    assert_eq!(err.kind, LoadErrorKind::MalformedRow);
    assert_eq!(err.line, 1);
}

#[test]
fn parse_hints_rejects_empty_dataset() {
    let err = parse_hints("\n").unwrap_err();
    assert_eq!(err.kind, LoadErrorKind::EmptyDataset);
    assert_eq!(err.line, 0);
}

#[test]
fn builtin_russian_dataset_loads() {
    let data = ProgramData::new(BuiltinMode::Russian).unwrap();
    assert_eq!(data.get_content().len(), 8);
    assert_eq!(data.get_content()[0].get_task(), "привет");
    assert_eq!(data.get_content()[0].get_mdata(), Some("privet (hello)"));
    assert_eq!(lookup_hint(data.get_hints(), 'П'), "p as in 'spin'");
}

#[test]
fn builtin_greek_dataset_loads() {
    let data = ProgramData::new(BuiltinMode::Greek).unwrap();
    assert_eq!(data.get_content().len(), 6);
    assert_eq!(data.get_content()[2].get_task(), "ναι");
    assert_eq!(lookup_hint(data.get_hints(), 'κ'), "k as in 'kite'");
}
