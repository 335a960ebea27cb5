//! From a task to the commands that print it: which of the three ways of
//! printing is taken, and the directives, in order, that go to the printer.

use crate::layout::rendered;
use crate::clock::local_date;
use crate::task::{
    may_be_today, normalized, resolved_address, resolved_codepage, resolved_encode,
    resolved_port, Codepage, PrintTask, PrintTaskView, ResolvedTask, ResolvedTaskView,
};
use vstd::prelude::*;

verus! {

/// The three ways in which a task is printed.
#[derive(Clone, Copy, Debug, PartialEq, Eq, Structural)]
pub enum PrintMode {
    /// The message alone, as a scannable code.
    Code,
    /// The box of a task, with title and date.
    Task,
    /// The box of a note.
    Note,
}

/// Where on the paper's width the printer sets what follows.
#[derive(Clone, Copy, Debug, PartialEq, Eq, Structural)]
pub enum Justify {
    Left,
    Center,
}

/// One command to the printer.
#[derive(Clone, Debug, PartialEq, Eq)]
pub enum Directive {
    /// Bring the printer to its initial state.
    Init,
    /// Select a character table.
    PageCode(Codepage),
    /// Switch smoothing on or off.
    Smoothing(bool),
    /// Set the justification.
    Justify(Justify),
    /// Scale the characters in width and in height.
    Size(u8, u8),
    /// Write a text, of one line or more, and end the line.
    Writeln(String),
    /// Print a text as a scannable code.
    QrCode(String),
    /// Feed one line.
    Feed,
    /// Cut the paper.
    Cut,
}

/// What a `Directive` holds.
pub enum DirectiveView {
    Init,
    PageCode(Codepage),
    Smoothing(bool),
    Justify(Justify),
    Size(u8, u8),
    Writeln(Seq<char>),
    QrCode(Seq<char>),
    Feed,
    Cut,
}

impl View for Directive {
    type V = DirectiveView;

    open spec fn view(&self) -> DirectiveView {
        match self {
            Directive::Init => DirectiveView::Init,
            Directive::PageCode(codepage) => DirectiveView::PageCode(*codepage),
            Directive::Smoothing(on) => DirectiveView::Smoothing(*on),
            Directive::Justify(justify) => DirectiveView::Justify(*justify),
            Directive::Size(width, height) => DirectiveView::Size(*width, *height),
            Directive::Writeln(text) => DirectiveView::Writeln(text@),
            Directive::QrCode(payload) => DirectiveView::QrCode(payload@),
            Directive::Feed => DirectiveView::Feed,
            Directive::Cut => DirectiveView::Cut,
        }
    }
}

/// What each directive of a sequence holds.
pub open spec fn directive_views(directives: Seq<Directive>) -> Seq<DirectiveView> {
    directives.map_values(|d: Directive| d@)
}

/// A printer to connect to, and the directives to send it, in order.
#[derive(Clone, Debug, PartialEq, Eq)]
pub struct PrintJob {
    pub address: String,
    pub port: u16,
    pub directives: Vec<Directive>,
}

/// What a `PrintJob` holds.
pub struct PrintJobView {
    pub address: Seq<char>,
    pub port: u16,
    pub directives: Seq<DirectiveView>,
}

impl View for PrintJob {
    type V = PrintJobView;

    open spec fn view(&self) -> PrintJobView {
        PrintJobView {
            address: self.address@,
            port: self.port,
            directives: directive_views(self.directives@),
        }
    }
}

/// The way a task is printed. A task that asks for a code is printed as
/// one, with or without a title; of the others, the title decides.
pub open spec fn mode_of(encode: bool, title: Option<Seq<char>>) -> PrintMode {
    if encode {
        PrintMode::Code
    } else if title is Some {
        PrintMode::Task
    } else {
        PrintMode::Note
    }
}

/// The directives that print `text`: set to the left, at twice the width
/// and twice the height, and written in one piece.
pub open spec fn text_directives(codepage: Codepage, text: Seq<char>) -> Seq<DirectiveView> {
    seq![
        DirectiveView::Init,
        DirectiveView::PageCode(codepage),
        DirectiveView::Smoothing(true),
        DirectiveView::Justify(Justify::Left),
        DirectiveView::Size(2, 2),
        DirectiveView::Writeln(text),
        DirectiveView::Feed,
        DirectiveView::Cut,
    ]
}

/// The directives that print `payload` as a scannable code, centred.
pub open spec fn code_directives(codepage: Codepage, payload: Seq<char>) -> Seq<DirectiveView> {
    seq![
        DirectiveView::Init,
        DirectiveView::PageCode(codepage),
        DirectiveView::Smoothing(true),
        DirectiveView::Justify(Justify::Center),
        DirectiveView::QrCode(payload),
        DirectiveView::Feed,
        DirectiveView::Cut,
    ]
}

/// The job that prints a task as text: its box, by the layout that its
/// title selects.
pub open spec fn text_job(task: ResolvedTaskView) -> PrintJobView {
    PrintJobView {
        address: task.address,
        port: task.port,
        directives: text_directives(task.codepage, rendered(task)),
    }
}

/// The job that prints the message of a task as a scannable code.
pub open spec fn code_job(task: ResolvedTaskView) -> PrintJobView {
    PrintJobView {
        address: task.address,
        port: task.port,
        directives: code_directives(task.codepage, task.message),
    }
}

/// The job that prints a task in the way that `mode_of` selects.
pub open spec fn job_of(task: ResolvedTaskView) -> PrintJobView {
    match mode_of(task.encode, task.title) {
        PrintMode::Code => code_job(task),
        PrintMode::Task => text_job(task),
        PrintMode::Note => text_job(task),
    }
}

/// A task that asks for a code is printed as one, with a title or without:
/// its job sends the message as the payload of a code and writes no text,
/// so that no box is made.
pub proof fn lemma_encoded_task_prints_code(task: PrintTaskView, today: Seq<char>)
    requires
        task.encode == Some(true),
    ensures
        mode_of(normalized(task, today).encode, normalized(task, today).title) == PrintMode::Code,
        job_of(normalized(task, today)).directives == code_directives(
            resolved_codepage(task.codepage),
            task.message,
        ),
        forall|i: int|
            0 <= i < job_of(normalized(task, today)).directives.len() ==> !(#[trigger] job_of(
                normalized(task, today),
            ).directives[i] is Writeln),
{
}

/// A task that does not ask for a code is printed as text, in the layout
/// that its title selects: its job writes the box in one piece and sends no
/// code.
pub proof fn lemma_plain_task_prints_text(task: PrintTaskView, today: Seq<char>)
    requires
        task.encode != Some(true),
    ensures
        mode_of(normalized(task, today).encode, normalized(task, today).title) == if task.title
            is Some {
            PrintMode::Task
        } else {
            PrintMode::Note
        },
        job_of(normalized(task, today)).directives == text_directives(
            resolved_codepage(task.codepage),
            rendered(normalized(task, today)),
        ),
        forall|i: int|
            0 <= i < job_of(normalized(task, today)).directives.len() ==> !(#[trigger] job_of(
                normalized(task, today),
            ).directives[i] is QrCode),
{
}

/// Whether the cut is the last of the directives, and only the last.
pub open spec fn cut_comes_last(directives: Seq<DirectiveView>) -> bool {
    &&& directives.len() > 0
    &&& forall|i: int|
        0 <= i < directives.len() ==> (#[trigger] directives[i] == DirectiveView::Cut <==> i
            == directives.len() - 1)
}

/// Every job ends with the cut, and cuts nowhere else.
pub proof fn lemma_cut_comes_last(task: ResolvedTaskView)
    ensures
        cut_comes_last(job_of(task).directives),
        cut_comes_last(text_job(task).directives),
        cut_comes_last(code_job(task).directives),
{
}

impl ResolvedTask {
    /// The way the task is printed.
    pub fn mode(&self) -> (mode: PrintMode)
        ensures
            mode == mode_of(self@.encode, self@.title),
    {
        if self.encode {
            PrintMode::Code
        } else if self.title.is_some() {
            PrintMode::Task
        } else {
            PrintMode::Note
        }
    }

    /// The job that prints the task as text.
    pub fn text_job(self) -> (job: PrintJob)
        ensures
            job@ == text_job(self@),
    {
        let text = self.render();
        let mut directives: Vec<Directive> = Vec::new();
        directives.push(Directive::Init);
        directives.push(Directive::PageCode(self.codepage));
        directives.push(Directive::Smoothing(true));
        directives.push(Directive::Justify(Justify::Left));
        directives.push(Directive::Size(2, 2));
        directives.push(Directive::Writeln(text));
        directives.push(Directive::Feed);
        directives.push(Directive::Cut);
        assert(directive_views(directives@) =~= text_directives(self@.codepage, rendered(self@)));
        PrintJob { address: self.address, port: self.port, directives }
    }

    /// The job that prints the message of the task as a scannable code.
    pub fn code_job(self) -> (job: PrintJob)
        ensures
            job@ == code_job(self@),
    {
        let mut directives: Vec<Directive> = Vec::new();
        directives.push(Directive::Init);
        directives.push(Directive::PageCode(self.codepage));
        directives.push(Directive::Smoothing(true));
        directives.push(Directive::Justify(Justify::Center));
        directives.push(Directive::QrCode(self.message));
        directives.push(Directive::Feed);
        directives.push(Directive::Cut);
        assert(directive_views(directives@) =~= code_directives(self@.codepage, self@.message));
        PrintJob { address: self.address, port: self.port, directives }
    }

    /// The job that prints the task in the way that its mode asks for.
    pub fn job(self) -> (job: PrintJob)
        ensures
            job@ == job_of(self@),
    {
        match self.mode() {
            PrintMode::Code => self.code_job(),
            PrintMode::Task => self.text_job(),
            PrintMode::Note => self.text_job(),
        }
    }
}

/// Whether printing `task` shows today's date: the task brings no date of
/// its own and is printed as the box of a task, which alone shows one.
pub open spec fn shows_today(task: PrintTaskView) -> bool {
    task.date is None && mode_of(resolved_encode(task.encode), task.title) == PrintMode::Task
}

/// Whether printing `task` shows today's date.
fn needs_today(task: &PrintTask) -> (needed: bool)
    ensures
        needed == shows_today(task@),
{
    let encode = match task.encode {
        Some(encode) => encode,
        None => false,
    };
    task.date.is_none() && !encode && task.title.is_some()
}

/// The job that prints `task` in the way that it asks for: as a scannable
/// code where `encode` is set, with a title or without, and else as text,
/// in the box of a task where it has a title and in the box of a note where
/// it has none. Today's date is read from the machine only where it is
/// shown: for the box of a task that brings no date.
pub fn print_task(task: PrintTask) -> (job: PrintJob)
    ensures
        exists|today: Seq<char>|
            may_be_today(task@, today) && job@ == job_of(#[trigger] normalized(task@, today)),
{
    let today = if needs_today(&task) {
        local_date()
    } else {
        String::new()
    };
    let job = task.normalize_on(today).job();
    proof {
        let shown = if shows_today(task@) {
            today@
        } else {
            seq!['0', '1', '/', '0', '1', '/', '1', '9', '7', '0']
        };
        assert(may_be_today(task@, shown));
        assert(job@ == job_of(normalized(task@, shown)));
    }
    job
}

/// The job that prints the message of `task` as a scannable code, whether
/// or not it asks for one. Title and date are not printed, and the date is
/// not read.
pub fn print_qr_code(task: PrintTask) -> (job: PrintJob)
    ensures
        job@ == (PrintJobView {
            address: resolved_address(task@.address),
            port: resolved_port(task@.port),
            directives: code_directives(resolved_codepage(task@.codepage), task@.message),
        }),
{
    task.normalize_on(String::new()).code_job()
}

} // verus!
