use taskprinter::task::{resolve_codepage, Codepage, PrintTask, DEFAULT_PORT};

fn bare(message: &str) -> PrintTask {
    PrintTask {
        title: None,
        message: message.to_string(),
        date: None,
        encode: None,
        address: None,
        port: None,
        codepage: None,
    }
}

#[test]
fn every_open_field_gets_its_default() {
    let task = bare("ping").normalize_on("24/12/2031".to_string());
    assert_eq!(task.title, None);
    assert_eq!(task.message, "ping");
    assert_eq!(task.date, "24/12/2031");
    assert!(!task.encode);
    assert_eq!(task.address, "taskbob");
    assert_eq!(task.port, 9100);
    assert_eq!(task.port, DEFAULT_PORT);
    assert_eq!(task.codepage, Codepage::PC850);
}

#[test]
fn a_field_that_is_given_is_kept() {
    let task = PrintTask {
        title: Some("Alert".to_string()),
        message: "Hello".to_string(),
        date: Some("01/02/2024".to_string()),
        encode: Some(true),
        address: Some("192.168.1.100".to_string()),
        port: Some(515),
        codepage: Some("WPC1252".to_string()),
    }
    .normalize_on("24/12/2031".to_string());
    assert_eq!(task.title.as_deref(), Some("Alert"));
    assert_eq!(task.message, "Hello");
    assert_eq!(task.date, "01/02/2024");
    assert!(task.encode);
    assert_eq!(task.address, "192.168.1.100");
    assert_eq!(task.port, 515);
    assert_eq!(task.codepage, Codepage::WPC1252);
}

#[test]
fn each_field_is_resolved_by_itself() {
    let mut task = bare("m");
    task.port = Some(1);
    task.encode = Some(false);
    let task = task.normalize_on("24/12/2031".to_string());
    assert_eq!(task.port, 1);
    assert!(!task.encode);
    assert_eq!(task.address, "taskbob");
    assert_eq!(task.codepage, Codepage::PC850);
    assert_eq!(task.date, "24/12/2031");
}

#[test]
fn the_five_tables_go_by_their_names() {
    assert_eq!(Codepage::named("PC850"), Some(Codepage::PC850));
    assert_eq!(Codepage::named("ISO8859_15"), Some(Codepage::ISO8859_15));
    assert_eq!(Codepage::named("WPC1252"), Some(Codepage::WPC1252));
    assert_eq!(Codepage::named("PC437"), Some(Codepage::PC437));
    assert_eq!(Codepage::named("ISO8859_7"), Some(Codepage::ISO8859_7));
    for codepage in [
        Codepage::PC850,
        Codepage::ISO8859_15,
        Codepage::WPC1252,
        Codepage::PC437,
        Codepage::ISO8859_7,
    ] {
        assert_eq!(Codepage::named(codepage.name()), Some(codepage));
    }
}

#[test]
fn other_names_go_with_no_table() {
    for name in ["BOGUS", "", "pc850", "PC850 ", "PC8500", "ISO8859_1", "PC43"] {
        assert_eq!(Codepage::named(name), None, "table named {:?}", name);
    }
}

#[test]
fn an_unknown_codepage_resolves_as_an_absent_one() {
    let absent = resolve_codepage(&None);
    assert_eq!(absent, Codepage::PC850);
    assert_eq!(resolve_codepage(&Some("BOGUS".to_string())), absent);
    assert_eq!(resolve_codepage(&Some(String::new())), absent);
    assert_eq!(resolve_codepage(&Some("PC437".to_string())), Codepage::PC437);
    let mut bogus = bare("m");
    bogus.codepage = Some("BOGUS".to_string());
    assert_eq!(
        bogus.normalize_on(String::new()).codepage,
        bare("m").normalize_on(String::new()).codepage
    );
}

#[test]
fn the_date_of_a_task_without_one_is_read_from_the_machine() {
    let task = bare("m").normalize();
    let date: Vec<char> = task.date.chars().collect();
    assert!(date.len() >= 10);
    assert!(date[0].is_ascii_digit() && date[1].is_ascii_digit());
    assert_eq!(date[2], '/');
    assert!(date[3].is_ascii_digit() && date[4].is_ascii_digit());
    assert_eq!(date[5], '/');
    assert!(date[6..].iter().all(|c| c.is_ascii_digit()));
    assert_eq!(task.address, "taskbob");
}

#[test]
fn the_date_of_a_task_with_one_is_kept() {
    let mut task = bare("m");
    task.date = Some("someday".to_string());
    assert!(!task.lacks_date());
    assert_eq!(task.normalize().date, "someday");
    assert!(bare("m").lacks_date());
}
