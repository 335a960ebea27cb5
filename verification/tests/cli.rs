use taskprinter::cli::{run_cli_print, trim, Args, DEFAULT_API_PORT};
use taskprinter::layout::{note_box, task_box};
use taskprinter::printer::{Directive, Justify};
use taskprinter::task::Codepage;

fn args(title: Option<&str>, message: Option<&str>, encode: Option<bool>) -> Args {
    Args {
        title: title.map(String::from),
        message: message.map(String::from),
        date: Some("01/02/2024".to_string()),
        encode,
        address: None,
        port: None,
        codepage: None,
        api: false,
        api_port: DEFAULT_API_PORT,
    }
}

#[test]
fn trim_takes_the_white_space_off_both_ends() {
    assert_eq!(trim("  hello world \n"), "hello world");
    assert_eq!(trim("\t\r\n x \u{a0}\u{3000}"), "x");
    assert_eq!(trim("x"), "x");
    assert_eq!(trim("a  b"), "a  b");
}

#[test]
fn trim_leaves_nothing_of_white_space() {
    assert_eq!(trim(""), "");
    assert_eq!(trim(" "), "");
    assert_eq!(trim(" \n\t \r\n"), "");
}

#[test]
fn trim_agrees_with_the_standard_library() {
    let samples = [
        "",
        " ",
        "a",
        " a",
        "a ",
        " a b ",
        "\n\na\n\nb\n\n",
        "\u{2003}wide\u{2003}",
        "\u{200b}zero width is no white space\u{200b}",
        "│ box │",
        "\u{85}next line\u{85}",
    ];
    for sample in samples {
        assert_eq!(trim(sample), sample.trim(), "trim of {:?}", sample);
    }
}

#[test]
fn white_space_is_what_the_standard_library_takes_for_it() {
    let listed = |c: char| {
        matches!(
            c,
            '\u{9}'..='\u{d}'
                | ' '
                | '\u{85}'
                | '\u{a0}'
                | '\u{1680}'
                | '\u{2000}'..='\u{200a}'
                | '\u{2028}'
                | '\u{2029}'
                | '\u{202f}'
                | '\u{205f}'
                | '\u{3000}'
        )
    };
    let mut white = 0;
    for c in '\0'..=char::MAX {
        assert_eq!(c.is_whitespace(), listed(c), "character {:?}", c);
        if listed(c) {
            white += 1;
            let around = format!("{c}x{c}");
            assert_eq!(trim(&around), "x", "trim around {:?}", c);
        }
    }
    assert_eq!(white, 25);
    for c in ['x', '\u{200b}', '\u{180e}', '\u{feff}', '\u{1f}', '│'] {
        let kept = format!("{c} {c}");
        assert_eq!(trim(&kept), kept, "trim of {:?}", kept);
    }
}

#[test]
fn the_message_of_the_arguments_is_taken_as_it_is() {
    let given = args(None, Some("  spaced  "), None);
    assert!(!given.needs_input());
    let task = given.into_task("ignored");
    assert_eq!(task.message, "  spaced  ");
}

#[test]
fn without_a_message_the_input_is_the_message_trimmed() {
    let given = args(Some("Alert"), None, None);
    assert!(given.needs_input());
    let task = given.into_task("\n  from the pipe\nsecond line\n\n");
    assert_eq!(task.message, "from the pipe\nsecond line");
    assert_eq!(task.title.as_deref(), Some("Alert"));
    assert_eq!(task.date.as_deref(), Some("01/02/2024"));
}

#[test]
fn the_other_arguments_are_the_fields_of_the_task() {
    let task = Args {
        title: Some("T".to_string()),
        message: Some("m".to_string()),
        date: Some("d".to_string()),
        encode: Some(true),
        address: Some("a".to_string()),
        port: Some(7),
        codepage: Some("c".to_string()),
        api: true,
        api_port: 8080,
    }
    .into_task("");
    assert_eq!(task.title.as_deref(), Some("T"));
    assert_eq!(task.message, "m");
    assert_eq!(task.date.as_deref(), Some("d"));
    assert_eq!(task.encode, Some(true));
    assert_eq!(task.address.as_deref(), Some("a"));
    assert_eq!(task.port, Some(7));
    assert_eq!(task.codepage.as_deref(), Some("c"));
}

#[test]
fn the_command_line_prints_a_code_where_it_is_asked_to() {
    let job = run_cli_print(args(Some("Alert"), Some("Hello"), Some(true)), "");
    assert_eq!(job.directives[3], Directive::Justify(Justify::Center));
    assert_eq!(job.directives[4], Directive::QrCode("Hello".to_string()));
    assert_eq!(job.directives.len(), 7);
}

#[test]
fn the_command_line_prints_text_where_it_is_not() {
    let job = run_cli_print(args(Some("Alert"), Some("Hello"), Some(false)), "");
    assert_eq!(job.directives[5], Directive::Writeln(task_box("Alert", "01/02/2024", "Hello")));
    let job = run_cli_print(args(None, None, None), " piped \n");
    assert_eq!(job.directives[5], Directive::Writeln(note_box("piped")));
    assert_eq!(job.directives[1], Directive::PageCode(Codepage::PC850));
    assert_eq!(job.address, "taskbob");
    assert_eq!(job.port, 9100);
}

#[test]
fn the_service_listens_on_port_3000_by_default() {
    assert_eq!(DEFAULT_API_PORT, 3000);
}
