//! The HTTP service: what a request to print holds, the job it asks for,
//! and what is answered.

use crate::printer::{job_of, print_task, PrintJob};
use crate::task::{may_be_today, normalized, text_of, PrintTask, PrintTaskView};
use vstd::prelude::*;

verus! {

/// The status of an answer to a request that was served.
pub const STATUS_OK: u16 = 200;

/// The status of an answer to a request that could not be printed.
pub const STATUS_INTERNAL_SERVER_ERROR: u16 = 500;

/// The body of a request to print. Only the message must be there.
#[derive(Debug, Clone)]
pub struct PrintRequest {
    pub title: Option<String>,
    pub message: String,
    pub date: Option<String>,
    pub encode: Option<bool>,
    pub address: Option<String>,
    pub port: Option<u16>,
    pub codepage: Option<String>,
}

impl View for PrintRequest {
    type V = PrintTaskView;

    open spec fn view(&self) -> PrintTaskView {
        PrintTaskView {
            title: text_of(self.title),
            message: self.message@,
            date: text_of(self.date),
            encode: self.encode,
            address: text_of(self.address),
            port: self.port,
            codepage: text_of(self.codepage),
        }
    }
}

/// The body of the answer to a request that was printed.
#[derive(Debug, Clone, PartialEq, Eq)]
pub struct PrintResponse {
    pub success: bool,
    pub message: String,
}

/// What the answer to a printed request says.
pub open spec fn completed_message() -> Seq<char> {
    "Print job completed successfully"@
}

/// The answer to a request: a status, and a body where there is one.
#[derive(Debug, Clone, PartialEq, Eq)]
pub struct Reply {
    pub status: u16,
    pub body: Option<PrintResponse>,
}

/// What the service reports of itself.
#[derive(Debug, Clone, PartialEq, Eq)]
pub struct Health {
    pub status: String,
    pub service: String,
    pub version: String,
}

impl PrintRequest {
    /// The task that the request asks for: the same fields, as they are.
    pub fn into_task(self) -> (task: PrintTask)
        ensures
            task@ == self@,
    {
        PrintTask {
            title: self.title,
            message: self.message,
            date: self.date,
            encode: self.encode,
            address: self.address,
            port: self.port,
            codepage: self.codepage,
        }
    }
}

/// What the service reports of itself in a version `version`: that it is
/// healthy, and its name.
pub fn health_check(version: &str) -> (health: Health)
    ensures
        health.status@ == "healthy"@,
        health.service@ == "taskprinter"@,
        health.version@ == version@,
{
    Health {
        status: "healthy".to_owned(),
        service: "taskprinter".to_owned(),
        version: version.to_owned(),
    }
}

/// The job that a request asks for: its task, printed in the way that it
/// asks for.
pub fn print_handler(payload: PrintRequest) -> (job: PrintJob)
    ensures
        exists|today: Seq<char>|
            may_be_today(payload@, today) && job@ == job_of(
                #[trigger] normalized(payload@, today),
            ),
{
    print_task(payload.into_task())
}

/// The answer to a request to print: status 200 and a body that reports
/// success where the job was printed, status 500 and no body where it was
/// not.
pub fn print_reply(printed: bool) -> (reply: Reply)
    ensures
        reply.status == if printed {
            STATUS_OK
        } else {
            STATUS_INTERNAL_SERVER_ERROR
        },
        match reply.body {
            Some(body) => printed && body.success && body.message@ == completed_message(),
            None => !printed,
        },
{
    if printed {
        Reply {
            status: STATUS_OK,
            body: Some(
                PrintResponse {
                    success: true,
                    message: "Print job completed successfully".to_owned(),
                },
            ),
        }
    } else {
        Reply { status: STATUS_INTERNAL_SERVER_ERROR, body: None }
    }
}

} // verus!
