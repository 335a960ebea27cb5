use taskprinter::printer::{print_task, Directive, PrintJob};
use taskprinter::session::{Session, Stage, Step};
use taskprinter::task::PrintTask;

fn job(encode: bool) -> PrintJob {
    print_task(PrintTask {
        title: Some("Alert".to_string()),
        message: "Hello".to_string(),
        date: Some("01/02/2024".to_string()),
        encode: Some(encode),
        address: Some("printer.invalid".to_string()),
        port: Some(9100),
        codepage: None,
    })
}

/// Carries out `job`, where the steps go as `outcomes` says, and returns
/// what was sent, whether the connection was asked for, and the last stage.
fn carry_out(job: PrintJob, outcomes: &[bool]) -> (Vec<Directive>, usize, Stage) {
    let mut session = Session::start(job);
    let mut sent = Vec::new();
    let mut connections = 0;
    let mut outcomes = outcomes.iter();
    loop {
        match session.next() {
            Step::Connect { address, port } => {
                assert_eq!(address, "printer.invalid");
                assert_eq!(port, 9100);
                connections += 1;
            }
            Step::Issue(directive) => sent.push(directive.clone()),
            Step::Finish | Step::Abort => return (sent, connections, session.progress()),
        }
        match outcomes.next() {
            Some(ok) => session.record(*ok),
            None => return (sent, connections, session.progress()),
        }
    }
}

#[test]
fn a_session_starts_by_connecting() {
    let session = Session::start(job(false));
    assert_eq!(session.progress(), Stage::Connecting);
    assert_eq!(session.next(), Step::Connect { address: "printer.invalid", port: 9100 });
}

#[test]
fn a_job_that_goes_well_is_sent_in_order_and_finished() {
    for encode in [false, true] {
        let planned = job(encode).directives;
        let all_well = vec![true; planned.len() + 1];
        let (sent, connections, stage) = carry_out(job(encode), &all_well);
        assert_eq!(sent, planned);
        assert_eq!(connections, 1);
        assert_eq!(stage, Stage::Completed);
        assert_eq!(sent.last(), Some(&Directive::Cut));
    }
}

#[test]
fn a_failed_connection_sends_nothing() {
    let (sent, connections, stage) = carry_out(job(false), &[false, true, true, true]);
    assert_eq!(sent, Vec::<Directive>::new());
    assert_eq!(connections, 1);
    assert_eq!(stage, Stage::Failed);
    let mut session = Session::start(job(false));
    session.record(false);
    assert_eq!(session.next(), Step::Abort);
}

#[test]
fn a_failed_directive_is_the_last_one_sent() {
    let planned = job(false).directives;
    for failing in 0..planned.len() {
        let mut outcomes = vec![true; planned.len() + 1];
        outcomes[failing + 1] = false;
        let (sent, connections, stage) = carry_out(job(false), &outcomes);
        assert_eq!(sent, planned[..=failing].to_vec());
        assert_eq!(connections, 1);
        assert_eq!(stage, Stage::Failed);
        assert_eq!(sent.contains(&Directive::Cut), failing == planned.len() - 1);
    }
}

#[test]
fn the_stage_counts_the_directives_that_went_well() {
    let mut session = Session::start(job(true));
    session.record(true);
    assert_eq!(session.progress(), Stage::Sending(0));
    assert_eq!(session.next(), Step::Issue(&Directive::Init));
    session.record(true);
    assert_eq!(session.progress(), Stage::Sending(1));
    session.record(true);
    session.record(true);
    session.record(true);
    assert_eq!(session.progress(), Stage::Sending(4));
    assert_eq!(session.next(), Step::Issue(&Directive::QrCode("Hello".to_string())));
    session.record(true);
    session.record(true);
    assert_eq!(session.progress(), Stage::Sending(6));
    assert_eq!(session.next(), Step::Issue(&Directive::Cut));
    session.record(true);
    assert_eq!(session.progress(), Stage::Completed);
    assert_eq!(session.next(), Step::Finish);
}

#[test]
fn a_session_that_has_ended_stays_as_it_is() {
    let mut failed = Session::start(job(false));
    failed.record(false);
    failed.record(true);
    failed.record(true);
    assert_eq!(failed.progress(), Stage::Failed);
    let count = job(false).directives.len();
    let mut completed = Session::start(job(false));
    for _ in 0..=count {
        completed.record(true);
    }
    assert_eq!(completed.progress(), Stage::Completed);
    completed.record(false);
    assert_eq!(completed.progress(), Stage::Completed);
    assert_eq!(completed.next(), Step::Finish);
}

#[test]
fn a_job_without_directives_is_finished_once_connected() {
    let empty = PrintJob { address: "printer.invalid".to_string(), port: 9100, directives: vec![] };
    let (sent, connections, stage) = carry_out(empty, &[true]);
    assert_eq!(sent, Vec::<Directive>::new());
    assert_eq!(connections, 1);
    assert_eq!(stage, Stage::Completed);
}
