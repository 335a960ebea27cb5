//! The command line: its arguments, and the task that they and the
//! standard input make.

use crate::printer::{job_of, print_task, PrintJob};
use crate::task::{may_be_today, normalized, text_of, PrintTask, PrintTaskView};
use crate::text::{chars_of, string_of};
use vstd::prelude::*;

verus! {

/// The port that the HTTP service listens on when none is given.
pub const DEFAULT_API_PORT: u16 = 3000;

/// Whether `c` is white space: one of the 25 characters that have the
/// Unicode property `White_Space`. They are the controls from the tabulator
/// to the carriage return, the blank, the next-line control, the no-break
/// space, the Ogham space mark, the spaces of fixed width from the en quad
/// to the hair space, the line and the paragraph separator, the narrow
/// no-break space, the medium mathematical space and the ideographic space.
pub open spec fn is_whitespace(c: char) -> bool {
    ||| '\u{9}' <= c <= '\u{d}'
    ||| c == ' '
    ||| c == '\u{85}'
    ||| c == '\u{a0}'
    ||| c == '\u{1680}'
    ||| '\u{2000}' <= c <= '\u{200a}'
    ||| c == '\u{2028}'
    ||| c == '\u{2029}'
    ||| c == '\u{202f}'
    ||| c == '\u{205f}'
    ||| c == '\u{3000}'
}

/// Trusted: `char::is_whitespace` of the standard library, which is
/// documented to say whether a character has the Unicode property
/// `White_Space`. The contract writes that property out.
pub assume_specification[ char::is_whitespace ](c: char) -> (white: bool)
    ensures
        white == is_whitespace(c),
;

/// How many characters of white space `s` starts with.
pub open spec fn leading_space(s: Seq<char>) -> int
    decreases s.len(),
{
    if s.len() == 0 || !is_whitespace(s[0]) {
        0
    } else {
        1 + leading_space(s.drop_first())
    }
}

/// How many characters of white space `s` ends with.
pub open spec fn trailing_space(s: Seq<char>) -> int
    decreases s.len(),
{
    if s.len() == 0 || !is_whitespace(s.last()) {
        0
    } else {
        1 + trailing_space(s.drop_last())
    }
}

/// `s` without the white space around it. A text of white space alone
/// leaves nothing.
pub open spec fn trimmed(s: Seq<char>) -> Seq<char> {
    if leading_space(s) == s.len() {
        Seq::empty()
    } else {
        s.subrange(leading_space(s), s.len() - trailing_space(s))
    }
}

/// `leading_space(s)` is the one position that has only white space before
/// it and either holds none or is the end of `s`.
pub proof fn lemma_leading_space(s: Seq<char>, n: int)
    requires
        0 <= n <= s.len(),
        forall|j: int| 0 <= j < n ==> is_whitespace(s[j]),
        n < s.len() ==> !is_whitespace(s[n]),
    ensures
        leading_space(s) == n,
    decreases s.len(),
{
    if s.len() > 0 && is_whitespace(s[0]) {
        lemma_leading_space(s.drop_first(), n - 1);
    }
}

/// `trailing_space(s)` is the one length of a tail of `s` that is white
/// space throughout and has none before it, unless it is all of `s`.
pub proof fn lemma_trailing_space(s: Seq<char>, n: int)
    requires
        0 <= n <= s.len(),
        forall|j: int| s.len() - n <= j < s.len() ==> is_whitespace(s[j]),
        n < s.len() ==> !is_whitespace(s[s.len() - n - 1]),
    ensures
        trailing_space(s) == n,
    decreases s.len(),
{
    if s.len() > 0 && is_whitespace(s.last()) {
        lemma_trailing_space(s.drop_last(), n - 1);
    }
}

/// The text without the white space around it.
pub fn trim(text: &str) -> (inner: String)
    ensures
        inner@ == trimmed(text@),
{
    let chars = chars_of(text);
    let mut from: usize = 0;
    while from < chars.len() && chars[from].is_whitespace()
        invariant
            from <= chars.len(),
            forall|j: int| 0 <= j < from ==> is_whitespace(chars@[j]),
        decreases chars.len() - from,
    {
        from += 1;
    }
    proof {
        lemma_leading_space(chars@, from as int);
    }
    if from == chars.len() {
        return String::new();
    }
    let mut to: usize = chars.len();
    while to > from && chars[to - 1].is_whitespace()
        invariant
            from <= to <= chars.len(),
            from < chars.len(),
            !is_whitespace(chars@[from as int]),
            forall|j: int| to <= j < chars.len() ==> is_whitespace(chars@[j]),
        decreases to,
    {
        to -= 1;
    }
    proof {
        lemma_trailing_space(chars@, chars.len() - to);
    }
    string_of(&chars, from, to)
}

/// The arguments of the command line.
#[derive(Debug, Clone)]
pub struct Args {
    pub title: Option<String>,
    /// The message. Where it is absent, the standard input is the message.
    pub message: Option<String>,
    pub date: Option<String>,
    pub encode: Option<bool>,
    pub address: Option<String>,
    pub port: Option<u16>,
    pub codepage: Option<String>,
    /// Whether to serve HTTP requests in place of printing one task.
    pub api: bool,
    /// The port that the HTTP service listens on.
    pub api_port: u16,
}

/// What `Args` holds.
pub struct ArgsView {
    pub title: Option<Seq<char>>,
    pub message: Option<Seq<char>>,
    pub date: Option<Seq<char>>,
    pub encode: Option<bool>,
    pub address: Option<Seq<char>>,
    pub port: Option<u16>,
    pub codepage: Option<Seq<char>>,
    pub api: bool,
    pub api_port: u16,
}

impl View for Args {
    type V = ArgsView;

    open spec fn view(&self) -> ArgsView {
        ArgsView {
            title: text_of(self.title),
            message: text_of(self.message),
            date: text_of(self.date),
            encode: self.encode,
            address: text_of(self.address),
            port: self.port,
            codepage: text_of(self.codepage),
            api: self.api,
            api_port: self.api_port,
        }
    }
}

/// The task that the command line asks for: its message is the one given
/// as an argument or, without one, all of the standard input, trimmed. The
/// other fields are taken as they are.
pub open spec fn task_of_args(args: ArgsView, input: Seq<char>) -> PrintTaskView {
    PrintTaskView {
        title: args.title,
        message: match args.message {
            Some(message) => message,
            None => trimmed(input),
        },
        date: args.date,
        encode: args.encode,
        address: args.address,
        port: args.port,
        codepage: args.codepage,
    }
}

impl Args {
    /// Whether the message has to be read from the standard input.
    pub fn needs_input(&self) -> (needed: bool)
        ensures
            needed == (self@.message is None),
    {
        self.message.is_none()
    }

    /// The task that the arguments ask for, where `input` is what the
    /// standard input held.
    pub fn into_task(self, input: &str) -> (task: PrintTask)
        ensures
            task@ == task_of_args(self@, input@),
    {
        let message = match self.message {
            Some(message) => message,
            None => trim(input),
        };
        PrintTask {
            title: self.title,
            message,
            date: self.date,
            encode: self.encode,
            address: self.address,
            port: self.port,
            codepage: self.codepage,
        }
    }
}

/// The job that the command line asks for, where `input` is what the
/// standard input held: the task of the arguments, printed in the way that
/// it asks for.
pub fn run_cli_print(args: Args, input: &str) -> (job: PrintJob)
    ensures
        exists|today: Seq<char>|
            may_be_today(task_of_args(args@, input@), today) && job@ == job_of(
                #[trigger] normalized(task_of_args(args@, input@), today),
            ),
{
    print_task(args.into_task(input))
}

} // verus!
