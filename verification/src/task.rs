//! Print tasks as they are asked for, and as they are once every field that
//! was left open has its default.

use crate::clock::{is_calendar_date, local_date};
use crate::text::same_text;
use vstd::prelude::*;

verus! {

/// The host a task is sent to when it names none.
pub open spec fn default_address() -> Seq<char> {
    "taskbob"@
}

/// The port a task is sent to when it names none.
pub const DEFAULT_PORT: u16 = 9100;

/// A character table of the printer.
#[allow(non_camel_case_types)]
#[derive(Clone, Copy, Debug, PartialEq, Eq, Structural)]
pub enum Codepage {
    PC850,
    ISO8859_15,
    WPC1252,
    PC437,
    ISO8859_7,
}

/// The table that is used when a task names none, or one that is unknown.
pub open spec fn default_codepage() -> Codepage {
    Codepage::PC850
}

/// The table that goes by `name`, if one does.
pub open spec fn codepage_named(name: Seq<char>) -> Option<Codepage> {
    if name == "PC850"@ {
        Some(Codepage::PC850)
    } else if name == "ISO8859_15"@ {
        Some(Codepage::ISO8859_15)
    } else if name == "WPC1252"@ {
        Some(Codepage::WPC1252)
    } else if name == "PC437"@ {
        Some(Codepage::PC437)
    } else if name == "ISO8859_7"@ {
        Some(Codepage::ISO8859_7)
    } else {
        None
    }
}

/// The table a task is printed with: the one it names, or the default.
pub open spec fn resolved_codepage(name: Option<Seq<char>>) -> Codepage {
    match name {
        Some(name) => match codepage_named(name) {
            Some(codepage) => codepage,
            None => default_codepage(),
        },
        None => default_codepage(),
    }
}

/// A name that belongs to no table selects the same table as no name at
/// all.
pub proof fn lemma_unknown_codepage_is_default(name: Seq<char>)
    requires
        codepage_named(name) is None,
    ensures
        resolved_codepage(Some(name)) == resolved_codepage(None),
        resolved_codepage(None) == default_codepage(),
{
}

impl Codepage {
    /// The table that goes by `name`, if one does.
    pub fn named(name: &str) -> (found: Option<Codepage>)
        ensures
            found == codepage_named(name@),
    {
        if same_text(name, "PC850") {
            Some(Codepage::PC850)
        } else if same_text(name, "ISO8859_15") {
            Some(Codepage::ISO8859_15)
        } else if same_text(name, "WPC1252") {
            Some(Codepage::WPC1252)
        } else if same_text(name, "PC437") {
            Some(Codepage::PC437)
        } else if same_text(name, "ISO8859_7") {
            Some(Codepage::ISO8859_7)
        } else {
            None
        }
    }

    /// The name that the table goes by.
    pub fn name(&self) -> (name: &'static str)
        ensures
            codepage_named(name@) == Some(*self),
    {
        proof {
            reveal_strlit("PC850");
            reveal_strlit("ISO8859_15");
            reveal_strlit("WPC1252");
            reveal_strlit("PC437");
            reveal_strlit("ISO8859_7");
            assert("PC850"@.len() == 5 && "PC850"@[2] == '8');
            assert("ISO8859_15"@.len() == 10);
            assert("WPC1252"@.len() == 7);
            assert("PC437"@.len() == 5 && "PC437"@[2] == '4');
            assert("ISO8859_7"@.len() == 9);
        }
        match self {
            Codepage::PC850 => "PC850",
            Codepage::ISO8859_15 => "ISO8859_15",
            Codepage::WPC1252 => "WPC1252",
            Codepage::PC437 => "PC437",
            Codepage::ISO8859_7 => "ISO8859_7",
        }
    }
}

/// The table a task is printed with: the one that `name` selects, or the
/// default where `name` is absent or belongs to no table.
pub fn resolve_codepage(name: &Option<String>) -> (codepage: Codepage)
    ensures
        codepage == resolved_codepage(text_of(*name)),
{
    match name {
        Some(name) => match Codepage::named(name.as_str()) {
            Some(codepage) => codepage,
            None => Codepage::PC850,
        },
        None => Codepage::PC850,
    }
}

/// What an optional string holds.
pub open spec fn text_of(s: Option<String>) -> Option<Seq<char>> {
    match s {
        Some(s) => Some(s@),
        None => None,
    }
}

/// One request to print: a message, and what may come with it.
#[derive(Debug, Clone)]
pub struct PrintTask {
    /// The title. A task with a title is printed as a task, one without as a
    /// note.
    pub title: Option<String>,
    /// The message, of one line or more.
    pub message: String,
    /// The date shown beside the title; today's where absent.
    pub date: Option<String>,
    /// Whether the message is printed as a scannable code, not as text.
    pub encode: Option<bool>,
    /// The printer's host.
    pub address: Option<String>,
    /// The printer's port.
    pub port: Option<u16>,
    /// The name of the printer's character table.
    pub codepage: Option<String>,
}

/// What a `PrintTask` holds.
pub struct PrintTaskView {
    pub title: Option<Seq<char>>,
    pub message: Seq<char>,
    pub date: Option<Seq<char>>,
    pub encode: Option<bool>,
    pub address: Option<Seq<char>>,
    pub port: Option<u16>,
    pub codepage: Option<Seq<char>>,
}

impl View for PrintTask {
    type V = PrintTaskView;

    open spec fn view(&self) -> PrintTaskView {
        PrintTaskView {
            title: text_of(self.title),
            message: self.message@,
            date: text_of(self.date),
            encode: self.encode,
            address: text_of(self.address),
            port: self.port,
            codepage: text_of(self.codepage),
        }
    }
}

/// A task with nothing left open. Only the title may still be absent: its
/// absence is what makes the task a note.
#[derive(Debug, Clone)]
pub struct ResolvedTask {
    pub title: Option<String>,
    pub message: String,
    pub date: String,
    pub encode: bool,
    pub address: String,
    pub port: u16,
    pub codepage: Codepage,
}

/// What a `ResolvedTask` holds.
pub struct ResolvedTaskView {
    pub title: Option<Seq<char>>,
    pub message: Seq<char>,
    pub date: Seq<char>,
    pub encode: bool,
    pub address: Seq<char>,
    pub port: u16,
    pub codepage: Codepage,
}

impl View for ResolvedTask {
    type V = ResolvedTaskView;

    open spec fn view(&self) -> ResolvedTaskView {
        ResolvedTaskView {
            title: text_of(self.title),
            message: self.message@,
            date: self.date@,
            encode: self.encode,
            address: self.address@,
            port: self.port,
            codepage: self.codepage,
        }
    }
}

/// The date of a task: its own, or `today` where it brings none.
pub open spec fn resolved_date(date: Option<Seq<char>>, today: Seq<char>) -> Seq<char> {
    match date {
        Some(date) => date,
        None => today,
    }
}

/// Whether a task is printed as a scannable code: only where it says so.
pub open spec fn resolved_encode(encode: Option<bool>) -> bool {
    match encode {
        Some(encode) => encode,
        None => false,
    }
}

/// The host a task is sent to: the one it names, or the default.
pub open spec fn resolved_address(address: Option<Seq<char>>) -> Seq<char> {
    match address {
        Some(address) => address,
        None => default_address(),
    }
}

/// The port a task is sent to: the one it names, or the default.
pub open spec fn resolved_port(port: Option<u16>) -> u16 {
    match port {
        Some(port) => port,
        None => DEFAULT_PORT,
    }
}

/// `task` with each field that it leaves open set to its default, field by
/// field; `today` is the default of the date.
pub open spec fn normalized(task: PrintTaskView, today: Seq<char>) -> ResolvedTaskView {
    ResolvedTaskView {
        title: task.title,
        message: task.message,
        date: resolved_date(task.date, today),
        encode: resolved_encode(task.encode),
        address: resolved_address(task.address),
        port: resolved_port(task.port),
        codepage: resolved_codepage(task.codepage),
    }
}

/// Whether `today` can be the date that the machine gives while `task` is
/// normalized: any text where the task brings a date, so that the machine
/// is not asked, and a date in shape where it brings none.
pub open spec fn may_be_today(task: PrintTaskView, today: Seq<char>) -> bool {
    task.date is None ==> is_calendar_date(today)
}

impl PrintTask {
    /// Whether the task brings no date of its own.
    pub fn lacks_date(&self) -> (lacks: bool)
        ensures
            lacks == (self@.date is None),
    {
        self.date.is_none()
    }

    /// The task with its defaults filled in, where `today` is the date of a
    /// task that brings none.
    pub fn normalize_on(self, today: String) -> (task: ResolvedTask)
        ensures
            task@ == normalized(self@, today@),
    {
        let codepage = resolve_codepage(&self.codepage);
        ResolvedTask {
            title: self.title,
            message: self.message,
            date: match self.date {
                Some(date) => date,
                None => today,
            },
            encode: match self.encode {
                Some(encode) => encode,
                None => false,
            },
            address: match self.address {
                Some(address) => address,
                None => "taskbob".to_owned(),
            },
            port: match self.port {
                Some(port) => port,
                None => DEFAULT_PORT,
            },
            codepage,
        }
    }

    /// The task with its defaults filled in, the date too: that of a task
    /// which brings none is read from the machine, so the contract fixes
    /// every field but that one, of which it gives the shape.
    pub fn normalize(self) -> (task: ResolvedTask)
        ensures
            task@ == normalized(self@, task@.date),
            may_be_today(self@, task@.date),
    {
        let today = if self.lacks_date() {
            local_date()
        } else {
            String::new()
        };
        self.normalize_on(today)
    }
}

} // verus!
