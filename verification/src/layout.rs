//! The bordered box that a message is printed in: a frame of 24 columns
//! with a header row, and under it the message, one row for each segment of
//! each of its lines.

use crate::clock::{is_calendar_date, local_date};
use crate::task::{PrintTask, ResolvedTask, ResolvedTaskView};
use crate::text::{
    blanks, chars_of, left_field, lemma_left_field, lemma_line_end, lemma_lines_hold_no_line_feed,
    lemma_right_field, lemma_single_line, lines_of, push_left_field, push_right_field,
    right_field, split_lines, texts,
};
use vstd::prelude::*;
use vstd::string::StringExecFns;

verus! {

/// The columns of the title in the header of a task.
pub const TITLE_WIDTH: usize = 14;

/// The columns of the date in the header of a task.
pub const DATE_WIDTH: usize = 5;

/// The columns of a body row that show the message.
pub const BODY_WIDTH: usize = 20;

/// The most characters of a line that go into one segment, and so onto one
/// body row.
pub const SEGMENT_WIDTH: usize = 24;

/// A horizontal border: `left`, 22 bars, `right`.
pub open spec fn border(left: char, right: char) -> Seq<char> {
    seq![left] + Seq::new(22, |i: int| '─') + seq![right]
}

/// The first row of a box.
pub open spec fn top_border() -> Seq<char> {
    border('┌', '┐')
}

/// The row between the header and the body.
pub open spec fn separator() -> Seq<char> {
    border('├', '┤')
}

/// The last row of a box.
pub open spec fn bottom_border() -> Seq<char> {
    border('└', '┘')
}

/// The header of a task: the title in a left field of 14 columns and the
/// first five characters of the date in a right field of 5.
pub open spec fn task_header(title: Seq<char>, date: Seq<char>) -> Seq<char> {
    seq!['│', ' '] + left_field(title, 14) + seq![' '] + right_field(date, 5) + seq![' ', '│']
}

/// The header of a note: the label `NOTE`, after 8 blanks and before 10.
pub open spec fn note_header() -> Seq<char> {
    seq!['│'] + blanks(8) + seq!['N', 'O', 'T', 'E'] + blanks(10) + seq!['│']
}

/// The body row of one segment: the segment in a left field of 20 columns.
/// A segment may hold up to 24 characters; what lies beyond the 20th is not
/// shown.
pub open spec fn body_row(segment: Seq<char>) -> Seq<char> {
    seq!['│', ' '] + left_field(segment, 20) + seq![' ', '│']
}

/// How many segments a line of `len` characters is cut into.
pub open spec fn segment_count(len: nat) -> nat {
    (len + 23) / 24
}

/// Segment `i` of a line: its characters from `24 * i` on, 24 of them or as
/// many as are left.
pub open spec fn segment(line: Seq<char>, i: int) -> Seq<char> {
    line.subrange(
        24 * i,
        if 24 * i + 24 <= line.len() {
            24 * i + 24
        } else {
            line.len() as int
        },
    )
}

/// The segments of a line, in order. An empty line has none.
pub open spec fn segments_of(line: Seq<char>) -> Seq<Seq<char>> {
    Seq::new(segment_count(line.len()), |i: int| segment(line, i))
}

/// The body rows of one line.
pub open spec fn rows_of_line(line: Seq<char>) -> Seq<Seq<char>> {
    segments_of(line).map_values(|s: Seq<char>| body_row(s))
}

/// The body rows of a message: those of its lines, one line after the
/// other.
pub open spec fn body_rows(message: Seq<char>) -> Seq<Seq<char>> {
    lines_of(message).map_values(|line: Seq<char>| rows_of_line(line)).flatten()
}

/// The rows of a box with the given header row around `message`.
pub open spec fn boxed(header: Seq<char>, message: Seq<char>) -> Seq<Seq<char>> {
    seq![top_border(), header, separator()] + body_rows(message) + seq![bottom_border()]
}

/// The rows as one text: a line feed between each two, none at the end.
pub open spec fn joined(rows: Seq<Seq<char>>) -> Seq<char>
    decreases rows.len(),
{
    if rows.len() == 0 {
        Seq::empty()
    } else if rows.len() == 1 {
        rows[0]
    } else {
        joined(rows.drop_last()) + seq!['\n'] + rows.last()
    }
}

/// The box of a task, as text.
pub open spec fn task_text(title: Seq<char>, date: Seq<char>, message: Seq<char>) -> Seq<char> {
    joined(boxed(task_header(title, date), message))
}

/// The box of a note, as text.
pub open spec fn note_text(message: Seq<char>) -> Seq<char> {
    joined(boxed(note_header(), message))
}

/// The title in the header of a task: its own, or `NOTE` where it has
/// none.
pub open spec fn shown_title(title: Option<Seq<char>>) -> Seq<char> {
    match title {
        Some(title) => title,
        None => seq!['N', 'O', 'T', 'E'],
    }
}

/// The text that a task with nothing left open is printed as: the box of a
/// task where it has a title, the box of a note where it has none.
pub open spec fn rendered(task: ResolvedTaskView) -> Seq<char> {
    match task.title {
        Some(title) => task_text(title, task.date, task.message),
        None => note_text(task.message),
    }
}

/// The header of a task is 24 columns wide. Columns 2 to 15 show the title:
/// cut to 14 characters where it is longer, followed by blanks where it is
/// shorter. Columns 17 to 21 show the first five characters of the date,
/// after blanks where it has fewer.
pub proof fn lemma_task_header(title: Seq<char>, date: Seq<char>)
    ensures
        task_header(title, date).len() == 24,
        task_header(title, date).subrange(2, 16) == left_field(title, 14),
        title.len() >= 14 ==> left_field(title, 14) == title.take(14),
        title.len() <= 14 ==> left_field(title, 14) == title + blanks((14 - title.len()) as nat),
        task_header(title, date).subrange(17, 22) == right_field(date, 5),
        date.len() >= 5 ==> right_field(date, 5) == date.take(5),
        date.len() <= 5 ==> right_field(date, 5) == blanks((5 - date.len()) as nat) + date,
{
    lemma_left_field(title, 14);
    lemma_right_field(date, 5);
    assert(task_header(title, date).subrange(2, 16) =~= left_field(title, 14));
    assert(task_header(title, date).subrange(17, 22) =~= right_field(date, 5));
}

/// A body row is 24 columns wide. Columns 2 to 21 show the segment: its
/// first 20 characters, followed by blanks where it has fewer.
pub proof fn lemma_body_row(segment: Seq<char>)
    ensures
        body_row(segment).len() == 24,
        body_row(segment).subrange(2, 22) == left_field(segment, 20),
        segment.len() >= 20 ==> left_field(segment, 20) == segment.take(20),
        segment.len() <= 20 ==> left_field(segment, 20) == segment + blanks(
            (20 - segment.len()) as nat,
        ),
{
    lemma_left_field(segment, 20);
    assert(body_row(segment).subrange(2, 22) =~= left_field(segment, 20));
}

/// A line is cut into segments of 24 characters, but for the last, which
/// holds what is left, and the segments together are the line.
pub proof fn lemma_segments(line: Seq<char>)
    ensures
        segments_of(line).len() == (line.len() + 23) / 24,
        forall|i: int|
            0 <= i < segments_of(line).len() - 1 ==> (#[trigger] segments_of(line)[i]).len() == 24,
        line.len() > 0 ==> segments_of(line).last().len() == line.len() - 24 * (segments_of(
            line,
        ).len() - 1),
        line.len() > 0 ==> 0 < segments_of(line).last().len() <= 24,
        segments_of(line).flatten() == line,
{
    let segments = segments_of(line);
    assert forall|k: int| 0 <= k <= segments.len() implies #[trigger] segments.take(k).flatten()
        == line.take(
        if 24 * k <= line.len() {
            24 * k
        } else {
            line.len() as int
        },
    ) by {
        lemma_segments_up_to(line, k);
    }
    assert(segments.take(segments.len() as int) =~= segments);
    assert(line.take(line.len() as int) =~= line);
}

proof fn lemma_segments_up_to(line: Seq<char>, k: int)
    requires
        0 <= k <= segments_of(line).len(),
    ensures
        segments_of(line).take(k).flatten() == line.take(
            if 24 * k <= line.len() {
                24 * k
            } else {
                line.len() as int
            },
        ),
    decreases k,
{
    let segments = segments_of(line);
    if k == 0 {
        assert(segments.take(0) =~= Seq::<Seq<char>>::empty());
        assert(line.take(0) =~= Seq::<char>::empty());
    } else {
        lemma_segments_up_to(line, k - 1);
        assert(segments.take(k) =~= segments.take(k - 1).push(segments[k - 1]));
        segments.take(k - 1).lemma_flatten_push(segments[k - 1]);
        assert(line.take(24 * (k - 1)) + segment(line, k - 1) =~= line.take(
            if 24 * k <= line.len() {
                24 * k
            } else {
                line.len() as int
            },
        ));
    }
}

/// A message of one line takes one body row for each segment of the line:
/// one row for every 24 characters, and one for what is left.
pub proof fn lemma_rows_of_one_line(message: Seq<char>)
    requires
        !message.contains('\n'),
    ensures
        body_rows(message) == rows_of_line(message),
        body_rows(message).len() == (message.len() + 23) / 24,
        forall|i: int|
            0 <= i < body_rows(message).len() ==> #[trigger] body_rows(message)[i] == body_row(
                segment(message, i),
            ),
{
    lemma_single_line(message);
    let per_line = lines_of(message).map_values(|line: Seq<char>| rows_of_line(line));
    if message.len() == 0 {
        assert(per_line =~= Seq::<Seq<Seq<char>>>::empty());
        assert(rows_of_line(message) =~= Seq::<Seq<char>>::empty());
    } else {
        assert(per_line =~= seq![rows_of_line(message)]);
        per_line.lemma_flatten_one_element();
    }
}

/// A line of 48 characters fills two body rows, and a line of 49 takes a
/// third row for its last character.
pub proof fn lemma_full_and_partial_rows(line: Seq<char>)
    requires
        !line.contains('\n'),
        line.len() == 48 || line.len() == 49,
    ensures
        line.len() == 48 ==> body_rows(line) == seq![
            body_row(line.subrange(0, 24)),
            body_row(line.subrange(24, 48)),
        ],
        line.len() == 49 ==> body_rows(line) == seq![
            body_row(line.subrange(0, 24)),
            body_row(line.subrange(24, 48)),
            body_row(seq![line[48]]),
        ],
{
    lemma_rows_of_one_line(line);
    let rows = body_rows(line);
    assert(rows[0] == body_row(segment(line, 0)));
    assert(rows[1] == body_row(segment(line, 1)));
    if line.len() == 48 {
        assert(rows =~= seq![body_row(line.subrange(0, 24)), body_row(line.subrange(24, 48))]);
    } else {
        assert(rows[2] == body_row(segment(line, 2)));
        assert(segment(line, 2) =~= seq![line[48]]);
        assert(rows =~= seq![
            body_row(line.subrange(0, 24)),
            body_row(line.subrange(24, 48)),
            body_row(seq![line[48]]),
        ]);
    }
}

/// An empty message takes no body row: its box is the header between the
/// borders and the separator.
pub proof fn lemma_empty_message(header: Seq<char>)
    ensures
        body_rows(Seq::<char>::empty()).len() == 0,
        boxed(header, Seq::<char>::empty()) == seq![
            top_border(),
            header,
            separator(),
            bottom_border(),
        ],
{
    assert(!Seq::<char>::empty().contains('\n'));
    lemma_rows_of_one_line(Seq::<char>::empty());
    assert(boxed(header, Seq::<char>::empty()) =~= seq![
        top_border(),
        header,
        separator(),
        bottom_border(),
    ]);
}

/// The box of a task whose message is one line of 20 characters or fewer,
/// and of one at least, has five rows: the top border, the header, the
/// separator, one body row with the message, and the bottom border.
pub proof fn lemma_short_message_takes_five_rows(
    title: Seq<char>,
    date: Seq<char>,
    message: Seq<char>,
)
    requires
        0 < message.len() <= 20,
        !message.contains('\n'),
    ensures
        boxed(task_header(title, date), message).len() == 5,
        boxed(task_header(title, date), message) == seq![
            top_border(),
            task_header(title, date),
            separator(),
            body_row(message),
            bottom_border(),
        ],
        body_row(message) == seq!['│', ' '] + message + blanks((20 - message.len()) as nat) + seq![
            ' ',
            '│',
        ],
{
    lemma_rows_of_one_line(message);
    assert(segment(message, 0) =~= message);
    assert(body_rows(message) =~= seq![body_row(message)]);
    lemma_left_field(message, 20);
    assert(boxed(task_header(title, date), message) =~= seq![
        top_border(),
        task_header(title, date),
        separator(),
        body_row(message),
        bottom_border(),
    ]);
}

/// The second row of the box of a note is the row with the label `NOTE`,
/// whatever the message.
pub proof fn lemma_note_label_row(message: Seq<char>)
    ensures
        boxed(note_header(), message).len() >= 4,
        boxed(note_header(), message)[1] == note_header(),
        lines_of(note_text(message)) == boxed(note_header(), message),
        lines_of(note_text(message))[1] == note_header(),
{
    assert(note_header().len() == 24);
    assert(note_header().last() == '│');
    assert(!note_header().contains('\n')) by {
        assert forall|i: int| 0 <= i < note_header().len() implies note_header()[i] != '\n' by {}
    }
    lemma_lines_of_box(note_header(), message);
}

/// Whether a row can stand in a text of which it is to be one line: it is
/// not empty, holds no line feed, and does not end in a carriage return.
pub open spec fn is_one_line(row: Seq<char>) -> bool {
    &&& row.len() > 0
    &&& !row.contains('\n')
    &&& row.last() != '\r'
}

/// The first row of several is followed in the text by a line feed and the
/// text of the others.
pub proof fn lemma_joined_first(first: Seq<char>, rest: Seq<Seq<char>>)
    requires
        rest.len() > 0,
    ensures
        joined(seq![first] + rest) == first + seq!['\n'] + joined(rest),
    decreases rest.len(),
{
    let rows = seq![first] + rest;
    assert(rows.drop_last() =~= seq![first] + rest.drop_last());
    assert(rows.last() == rest.last());
    if rest.len() == 1 {
        assert(rows.drop_last() =~= seq![first]);
        assert(joined(rows.drop_last()) == first);
        assert(joined(rest) == rest[0]);
    } else {
        lemma_joined_first(first, rest.drop_last());
        assert(joined(rows) =~= first + seq!['\n'] + joined(rest));
    }
}

/// Rows that can each stand as one line are the lines of their text.
pub proof fn lemma_lines_of_joined(rows: Seq<Seq<char>>)
    requires
        rows.len() > 0,
        forall|i: int| 0 <= i < rows.len() ==> is_one_line(#[trigger] rows[i]),
    ensures
        lines_of(joined(rows)) == rows,
    decreases rows.len(),
{
    let first = rows[0];
    assert(is_one_line(first));
    assert forall|j: int| 0 <= j < first.len() implies first[j] != '\n' by {
        assert(first.contains(first[j]));
    }
    if rows.len() == 1 {
        lemma_single_line(first);
    } else {
        let rest = rows.drop_first();
        assert(rows =~= seq![first] + rest);
        lemma_joined_first(first, rest);
        assert forall|i: int| 0 <= i < rest.len() implies is_one_line(#[trigger] rest[i]) by {
            assert(rest[i] == rows[i + 1]);
        }
        lemma_lines_of_joined(rest);
        let text = joined(rows);
        lemma_line_end(text, first.len() as int);
        assert(text.take(first.len() as int) =~= first);
        assert(text.skip(first.len() as int + 1) =~= joined(rest));
    }
}

/// Every body row can stand as one line.
pub proof fn lemma_body_rows_are_lines(message: Seq<char>, i: int)
    requires
        0 <= i < body_rows(message).len(),
    ensures
        is_one_line(body_rows(message)[i]),
{
    let lines = lines_of(message);
    let per_line = lines.map_values(|line: Seq<char>| rows_of_line(line));
    assert forall|j: int, k: int|
        0 <= j < per_line.len() && 0 <= k < per_line[j].len() implies is_one_line(
        #[trigger] per_line[j][k],
    ) by {
        lemma_lines_hold_no_line_feed(message, j);
        let line = lines[j];
        let shown = left_field(segment(line, k), 20);
        let row = body_row(segment(line, k));
        assert(per_line[j][k] == row);
        assert forall|c: int| 0 <= c < row.len() implies row[c] != '\n' by {
            if 2 <= c < 22 {
                assert(row[c] == shown[c - 2]);
                if c - 2 < segment(line, k).len() {
                    assert(line.contains(line[24 * k + c - 2]));
                }
            }
        }
    }
    lemma_flattened_rows(per_line, i);
}

proof fn lemma_flattened_rows(per_line: Seq<Seq<Seq<char>>>, i: int)
    requires
        forall|j: int, k: int|
            0 <= j < per_line.len() && 0 <= k < per_line[j].len() ==> is_one_line(
                #[trigger] per_line[j][k],
            ),
        0 <= i < per_line.flatten().len(),
    ensures
        is_one_line(per_line.flatten()[i]),
    decreases per_line.len(),
{
    if per_line.len() > 0 {
        let first = per_line.first();
        let rest = per_line.drop_first();
        if i < first.len() {
            assert(per_line.flatten()[i] == per_line[0][i]);
        } else {
            assert forall|j: int, k: int|
                0 <= j < rest.len() && 0 <= k < rest[j].len() implies is_one_line(
                #[trigger] rest[j][k],
            ) by {
                assert(rest[j][k] == per_line[j + 1][k]);
            }
            lemma_flattened_rows(rest, i - first.len());
        }
    }
}

/// The lines of the text of a box are its rows, where the header can stand
/// as one line.
pub proof fn lemma_lines_of_box(header: Seq<char>, message: Seq<char>)
    requires
        is_one_line(header),
    ensures
        boxed(header, message).len() == 4 + body_rows(message).len(),
        boxed(header, message)[0] == top_border(),
        boxed(header, message)[1] == header,
        boxed(header, message)[2] == separator(),
        boxed(header, message).last() == bottom_border(),
        lines_of(joined(boxed(header, message))) == boxed(header, message),
{
    let rows = boxed(header, message);
    assert forall|i: int| 0 <= i < rows.len() implies is_one_line(#[trigger] rows[i]) by {
        if i == 0 {
            lemma_border_is_one_line('┌', '┐');
        } else if i == 1 {
        } else if i == 2 {
            lemma_border_is_one_line('├', '┤');
        } else if i == rows.len() - 1 {
            lemma_border_is_one_line('└', '┘');
        } else {
            assert(rows[i] == body_rows(message)[i - 3]);
            lemma_body_rows_are_lines(message, i - 3);
        }
    }
    lemma_lines_of_joined(rows);
}

proof fn lemma_border_is_one_line(left: char, right: char)
    requires
        left != '\n',
        right != '\n',
        right != '\r',
    ensures
        is_one_line(border(left, right)),
        border(left, right).len() == 24,
{
    let row = border(left, right);
    assert forall|i: int| 0 <= i < row.len() implies row[i] != '\n' by {}
}

/// The text of the box of a task whose message is one line of 20
/// characters or fewer, and of one at least, has five lines, where the
/// columns of the header that show title and date hold no line feed.
pub proof fn lemma_short_message_takes_five_lines(
    title: Seq<char>,
    date: Seq<char>,
    message: Seq<char>,
)
    requires
        0 < message.len() <= 20,
        !message.contains('\n'),
        !left_field(title, 14).contains('\n'),
        !right_field(date, 5).contains('\n'),
    ensures
        lines_of(task_text(title, date, message)) == seq![
            top_border(),
            task_header(title, date),
            separator(),
            body_row(message),
            bottom_border(),
        ],
{
    let header = task_header(title, date);
    assert forall|i: int| 0 <= i < header.len() implies header[i] != '\n' by {
        if 2 <= i < 16 {
            assert(left_field(title, 14).contains(left_field(title, 14)[i - 2]));
        } else if 17 <= i < 22 {
            assert(right_field(date, 5).contains(right_field(date, 5)[i - 17]));
        }
    }
    lemma_lines_of_box(header, message);
    lemma_short_message_takes_five_rows(title, date, message);
}

fn border_row(left: char, right: char) -> (row: String)
    ensures
        row@ == border(left, right),
{
    let mut row = String::new();
    row.push(left);
    let mut i: usize = 0;
    while i < 22
        invariant
            i <= 22,
            row@ == seq![left] + Seq::new(i as nat, |i: int| '─'),
        decreases 22 - i,
    {
        row.push('─');
        assert(row@ =~= seq![left] + Seq::new((i + 1) as nat, |i: int| '─'));
        i += 1;
    }
    row.push(right);
    row
}

fn push_blanks(row: &mut String, n: usize)
    ensures
        final(row)@ == old(row)@ + blanks(n as nat),
{
    let mut i: usize = 0;
    assert(row@ =~= old(row)@ + blanks(0));
    while i < n
        invariant
            i <= n,
            row@ == old(row)@ + blanks(i as nat),
        decreases n - i,
    {
        row.push(' ');
        assert(row@ =~= old(row)@ + blanks((i + 1) as nat));
        i += 1;
    }
}

fn task_header_row(title: &str, date: &str) -> (row: String)
    ensures
        row@ == task_header(title@, date@),
{
    let title = chars_of(title);
    let date = chars_of(date);
    let mut row = String::new();
    row.push('│');
    row.push(' ');
    assert(title@.subrange(0, title.len() as int) =~= title@);
    push_left_field(&mut row, &title, 0, title.len(), TITLE_WIDTH);
    row.push(' ');
    push_right_field(&mut row, &date, DATE_WIDTH);
    row.push(' ');
    row.push('│');
    assert(row@ =~= task_header(title@, date@));
    row
}

fn note_header_row() -> (row: String)
    ensures
        row@ == note_header(),
{
    let mut row = String::new();
    row.push('│');
    push_blanks(&mut row, 8);
    row.push('N');
    row.push('O');
    row.push('T');
    row.push('E');
    push_blanks(&mut row, 10);
    row.push('│');
    assert(row@ =~= note_header());
    row
}

fn body_row_of(line: &Vec<char>, from: usize, to: usize) -> (row: String)
    requires
        from <= to <= line.len(),
    ensures
        row@ == body_row(line@.subrange(from as int, to as int)),
{
    let mut row = String::new();
    row.push('│');
    row.push(' ');
    push_left_field(&mut row, line, from, to, BODY_WIDTH);
    row.push(' ');
    row.push('│');
    assert(row@ =~= body_row(line@.subrange(from as int, to as int)));
    row
}

/// Appends to `rows` the body rows of one line.
fn push_rows_of_line(rows: &mut Vec<String>, line: &str)
    ensures
        texts(final(rows)@) == texts(old(rows)@) + rows_of_line(line@),
{
    let chars = chars_of(line);
    let ghost before = texts(rows@);
    let ghost all = rows_of_line(line@);
    let ghost mut k: int = 0;
    let mut start: usize = 0;
    assert(texts(rows@) =~= before + all.take(0));
    while start < chars.len()
        invariant
            chars@ == line@,
            all == rows_of_line(line@),
            0 <= k <= segment_count(chars@.len()),
            start == (if 24 * k <= chars.len() {
                24 * k
            } else {
                chars.len() as int
            }),
            texts(rows@) == before + all.take(k),
        decreases chars.len() - start,
    {
        let end = if chars.len() - start > SEGMENT_WIDTH {
            start + SEGMENT_WIDTH
        } else {
            chars.len()
        };
        let ghost done = rows@;
        let row = body_row_of(&chars, start, end);
        rows.push(row);
        proof {
            assert(chars@.subrange(start as int, end as int) == segment(line@, k));
            assert(all[k] == body_row(segment(line@, k)));
            assert(texts(rows@) =~= texts(done).push(row@));
            assert(all.take(k + 1) =~= all.take(k).push(all[k]));
            assert(texts(rows@) =~= before + all.take(k + 1));
            k = k + 1;
        }
        start = end;
    }
    assert(all.take(k) =~= all);
}

/// The body rows of a message.
pub fn body_rows_of(message: &str) -> (rows: Vec<String>)
    ensures
        texts(rows@) == body_rows(message@),
{
    let mut rows: Vec<String> = Vec::new();
    push_body_rows(&mut rows, message);
    assert(texts(rows@) =~= body_rows(message@));
    rows
}

fn push_body_rows(rows: &mut Vec<String>, message: &str)
    ensures
        texts(final(rows)@) == texts(old(rows)@) + body_rows(message@),
{
    let lines = split_lines(message);
    let ghost before = texts(rows@);
    let ghost per_line = texts(lines@).map_values(|line: Seq<char>| rows_of_line(line));
    let mut i: usize = 0;
    assert(per_line.take(0) =~= Seq::<Seq<Seq<char>>>::empty());
    assert(texts(rows@) =~= before + per_line.take(0).flatten());
    while i < lines.len()
        invariant
            i <= lines.len(),
            texts(lines@) == lines_of(message@),
            per_line == texts(lines@).map_values(|line: Seq<char>| rows_of_line(line)),
            texts(rows@) == before + per_line.take(i as int).flatten(),
        decreases lines.len() - i,
    {
        let ghost done = texts(rows@);
        push_rows_of_line(rows, lines[i].as_str());
        proof {
            assert(per_line[i as int] == rows_of_line(lines@[i as int]@));
            assert(per_line.take(i + 1) =~= per_line.take(i as int).push(per_line[i as int]));
            per_line.take(i as int).lemma_flatten_push(per_line[i as int]);
            assert(texts(rows@) =~= before + per_line.take(i + 1).flatten());
        }
        i += 1;
    }
    assert(per_line.take(i as int) =~= per_line);
}

fn boxed_rows(header: String, message: &str) -> (rows: Vec<String>)
    ensures
        texts(rows@) == boxed(header@, message@),
{
    let mut rows: Vec<String> = Vec::new();
    rows.push(border_row('┌', '┐'));
    rows.push(header);
    rows.push(border_row('├', '┤'));
    assert(texts(rows@) =~= seq![top_border(), header@, separator()]);
    push_body_rows(&mut rows, message);
    let ghost upper = texts(rows@);
    rows.push(border_row('└', '┘'));
    assert(texts(rows@) =~= upper.push(bottom_border()));
    assert(texts(rows@) =~= boxed(header@, message@));
    rows
}

/// The rows of the box of a task.
pub fn task_rows(title: &str, date: &str, message: &str) -> (rows: Vec<String>)
    ensures
        texts(rows@) == boxed(task_header(title@, date@), message@),
{
    boxed_rows(task_header_row(title, date), message)
}

/// The rows of the box of a note.
pub fn note_rows(message: &str) -> (rows: Vec<String>)
    ensures
        texts(rows@) == boxed(note_header(), message@),
{
    boxed_rows(note_header_row(), message)
}

/// The rows as one text, a line feed between each two.
pub fn join_rows(rows: &Vec<String>) -> (text: String)
    ensures
        text@ == joined(texts(rows@)),
{
    let mut text = String::new();
    let mut i: usize = 0;
    assert(texts(rows@).take(0) =~= Seq::<Seq<char>>::empty());
    while i < rows.len()
        invariant
            i <= rows.len(),
            text@ == joined(texts(rows@).take(i as int)),
        decreases rows.len() - i,
    {
        if i > 0 {
            text.push('\n');
        }
        text.append(rows[i].as_str());
        proof {
            let upto = texts(rows@).take(i + 1);
            assert(upto.drop_last() =~= texts(rows@).take(i as int));
            assert(upto.last() == rows@[i as int]@);
            if i == 0 {
                assert(text@ =~= upto[0]);
            }
        }
        i += 1;
    }
    assert(texts(rows@).take(i as int) =~= texts(rows@));
    text
}

/// The box of a task as text: the title and the day and month of `date` in
/// the header, and `message` in the body.
pub fn task_box(title: &str, date: &str, message: &str) -> (text: String)
    ensures
        text@ == task_text(title@, date@, message@),
{
    let rows = task_rows(title, date, message);
    join_rows(&rows)
}

/// The box of a note as text: the label `NOTE` in the header, and `message`
/// in the body.
pub fn note_box(message: &str) -> (text: String)
    ensures
        text@ == note_text(message@),
{
    let rows = note_rows(message);
    join_rows(&rows)
}

/// The box of a note around the message of `task`. Nothing else of the
/// task is read.
pub fn generate_note_string(task: &PrintTask) -> (text: String)
    ensures
        text@ == note_text(task@.message),
{
    note_box(task.message.as_str())
}

/// The box of a task for `task`: its title in the header, or `NOTE` where it
/// has none, beside its date, or today's where it has none. Today's date is
/// read from the machine, so of a task without a date the contract says
/// that the box is the one for some date of the right shape.
pub fn generate_task_string(task: &PrintTask) -> (text: String)
    ensures
        match task@.date {
            Some(date) => text@ == task_text(shown_title(task@.title), date, task@.message),
            None => exists|today: Seq<char>|
                is_calendar_date(today) && text@ == task_text(
                    shown_title(task@.title),
                    today,
                    task@.message,
                ),
        },
{
    proof {
        reveal_strlit("NOTE");
        assert("NOTE"@ =~= seq!['N', 'O', 'T', 'E']);
    }
    let title = match &task.title {
        Some(title) => title.as_str(),
        None => "NOTE",
    };
    match &task.date {
        Some(date) => task_box(title, date.as_str(), task.message.as_str()),
        None => {
            let today = local_date();
            let text = task_box(title, today.as_str(), task.message.as_str());
            assert(is_calendar_date(today@) && text@ == task_text(
                shown_title(task@.title),
                today@,
                task@.message,
            ));
            text
        },
    }
}

impl ResolvedTask {
    /// The text that the task is printed as where it is printed as text.
    pub fn render(&self) -> (text: String)
        ensures
            text@ == rendered(self@),
    {
        match &self.title {
            Some(title) => task_box(title.as_str(), self.date.as_str(), self.message.as_str()),
            None => note_box(self.message.as_str()),
        }
    }
}

} // verus!
