//! Character sequences: strings taken apart and put together, fields of a
//! fixed width, and text cut into lines.

use vstd::prelude::*;

verus! {

broadcast use vstd::string::group_string_axioms;

/// Trusted: `String::push` of the standard library, which is documented to
/// append the given character to the end of the string.
pub assume_specification[ String::push ](s: &mut String, c: char)
    ensures
        final(s)@ == old(s)@.push(c),
;

/// What each string of a sequence holds.
pub open spec fn texts(rows: Seq<String>) -> Seq<Seq<char>> {
    rows.map_values(|row: String| row@)
}

/// A field of `width` columns that shows `s` from the left edge on: the
/// columns that `s` does not reach are blank, and what of `s` does not fit
/// is cut off.
pub open spec fn left_field(s: Seq<char>, width: nat) -> Seq<char> {
    Seq::new(
        width,
        |i: int|
            if i < s.len() {
                s[i]
            } else {
                ' '
            },
    )
}

/// A field of `width` columns that shows the first `width` characters of `s`
/// against the right edge: the columns before them are blank.
pub open spec fn right_field(s: Seq<char>, width: nat) -> Seq<char> {
    let shown = if s.len() < width {
        s.len()
    } else {
        width
    };
    Seq::new(
        width,
        |i: int|
            if i < width - shown {
                ' '
            } else {
                s[i - (width - shown)]
            },
    )
}

/// `n` blanks.
pub open spec fn blanks(n: nat) -> Seq<char> {
    Seq::new(n, |i: int| ' ')
}

/// A left field shows a long text cut to the width, and a short one followed
/// by blanks.
pub proof fn lemma_left_field(s: Seq<char>, width: nat)
    ensures
        left_field(s, width).len() == width,
        s.len() >= width ==> left_field(s, width) == s.take(width as int),
        s.len() <= width ==> left_field(s, width) == s + blanks((width - s.len()) as nat),
{
    if s.len() >= width {
        assert(left_field(s, width) =~= s.take(width as int));
    }
    if s.len() <= width {
        assert(left_field(s, width) =~= s + blanks((width - s.len()) as nat));
    }
}

/// A right field shows a long text cut to the width, and a short one after
/// blanks.
pub proof fn lemma_right_field(s: Seq<char>, width: nat)
    ensures
        right_field(s, width).len() == width,
        s.len() >= width ==> right_field(s, width) == s.take(width as int),
        s.len() <= width ==> right_field(s, width) == blanks((width - s.len()) as nat) + s,
{
    if s.len() >= width {
        assert(right_field(s, width) =~= s.take(width as int));
    }
    if s.len() <= width {
        assert(right_field(s, width) =~= blanks((width - s.len()) as nat) + s);
    }
}

/// The characters of a string, in order.
pub fn chars_of(s: &str) -> (chars: Vec<char>)
    ensures
        chars@ == s@,
{
    let mut chars: Vec<char> = Vec::new();
    for c in it: s.chars()
        invariant
            it.seq() == s@,
            chars@ == it.seq().take(it.index() as int),
    {
        chars.push(c);
    }
    chars
}

/// The string made of `chars[from..to]`.
pub fn string_of(chars: &Vec<char>, from: usize, to: usize) -> (s: String)
    requires
        from <= to <= chars.len(),
    ensures
        s@ == chars@.subrange(from as int, to as int),
{
    let mut s = String::new();
    let mut i: usize = from;
    while i < to
        invariant
            from <= i <= to <= chars.len(),
            s@ == chars@.subrange(from as int, i as int),
        decreases to - i,
    {
        s.push(chars[i]);
        i += 1;
    }
    s
}

/// Whether two strings hold the same characters.
pub fn same_text(a: &str, b: &str) -> (same: bool)
    ensures
        same == (a@ == b@),
{
    let x = chars_of(a);
    let y = chars_of(b);
    if x.len() != y.len() {
        return false;
    }
    let mut i: usize = 0;
    while i < x.len()
        invariant
            i <= x.len(),
            x.len() == y.len(),
            x@ == a@,
            y@ == b@,
            forall|j: int| 0 <= j < i ==> x@[j] == y@[j],
        decreases x.len() - i,
    {
        if x[i] != y[i] {
            assert(x@[i as int] != y@[i as int]);
            return false;
        }
        i += 1;
    }
    assert(x@ =~= y@);
    true
}

/// Appends to `out` the left field of `width` columns for
/// `chars[from..to]`.
pub fn push_left_field(out: &mut String, chars: &Vec<char>, from: usize, to: usize, width: usize)
    requires
        from <= to <= chars.len(),
    ensures
        final(out)@ == old(out)@ + left_field(
            chars@.subrange(from as int, to as int),
            width as nat,
        ),
{
    let ghost shown = chars@.subrange(from as int, to as int);
    let mut i: usize = 0;
    while i < width
        invariant
            i <= width,
            from <= to <= chars.len(),
            shown == chars@.subrange(from as int, to as int),
            out@ == old(out)@ + left_field(shown, width as nat).take(i as int),
        decreases width - i,
    {
        let c = if i < to - from {
            chars[from + i]
        } else {
            ' '
        };
        out.push(c);
        assert(left_field(shown, width as nat).take(i + 1) =~= left_field(
            shown,
            width as nat,
        ).take(i as int).push(c));
        i += 1;
    }
    assert(left_field(shown, width as nat).take(width as int) =~= left_field(shown, width as nat));
}

/// Appends to `out` the right field of `width` columns for `chars`.
pub fn push_right_field(out: &mut String, chars: &Vec<char>, width: usize)
    ensures
        final(out)@ == old(out)@ + right_field(chars@, width as nat),
{
    let shown = if chars.len() < width {
        chars.len()
    } else {
        width
    };
    let mut i: usize = 0;
    while i < width
        invariant
            i <= width,
            shown <= width,
            shown <= chars.len(),
            shown == (if chars.len() < width {
                chars.len()
            } else {
                width
            }),
            out@ == old(out)@ + right_field(chars@, width as nat).take(i as int),
        decreases width - i,
    {
        let c = if i < width - shown {
            ' '
        } else {
            chars[i - (width - shown)]
        };
        out.push(c);
        assert(right_field(chars@, width as nat).take(i + 1) =~= right_field(
            chars@,
            width as nat,
        ).take(i as int).push(c));
        i += 1;
    }
    assert(right_field(chars@, width as nat).take(width as int) =~= right_field(
        chars@,
        width as nat,
    ));
}

/// How many characters stand before the first line feed of `s`; its length
/// where it holds none.
pub open spec fn line_end(s: Seq<char>) -> int
    decreases s.len(),
{
    if s.len() == 0 || s[0] == '\n' {
        0
    } else {
        1 + line_end(s.drop_first())
    }
}

/// `line` without the carriage return at its end, where it has one.
pub open spec fn without_cr(line: Seq<char>) -> Seq<char> {
    if line.len() > 0 && line.last() == '\r' {
        line.drop_last()
    } else {
        line
    }
}

/// The lines of a text. A line feed ends a line, and a carriage return
/// directly before it belongs to the break. What follows the last line feed
/// is a line as it stands, unless nothing follows.
pub open spec fn lines_of(s: Seq<char>) -> Seq<Seq<char>>
    decreases s.len(),
{
    let end = line_end(s);
    if s.len() == 0 {
        Seq::empty()
    } else if 0 <= end < s.len() {
        seq![without_cr(s.take(end))] + lines_of(s.skip(end + 1))
    } else {
        seq![s]
    }
}

/// `line_end(s)` is the one position that has no line feed before it and
/// either holds one or is the end of `s`.
pub proof fn lemma_line_end(s: Seq<char>, end: int)
    requires
        0 <= end <= s.len(),
        forall|j: int| 0 <= j < end ==> s[j] != '\n',
        end < s.len() ==> s[end] == '\n',
    ensures
        line_end(s) == end,
    decreases s.len(),
{
    if s.len() > 0 && s[0] != '\n' {
        lemma_line_end(s.drop_first(), end - 1);
    }
}

/// No line holds a line feed.
pub proof fn lemma_lines_hold_no_line_feed(s: Seq<char>, i: int)
    requires
        0 <= i < lines_of(s).len(),
    ensures
        !lines_of(s)[i].contains('\n'),
    decreases s.len(),
{
    let end = line_end(s);
    lemma_line_end_bounds(s);
    if end < s.len() {
        if i > 0 {
            lemma_lines_hold_no_line_feed(s.skip(end + 1), i - 1);
        }
    }
}

/// Before `line_end(s)` stands no line feed, and at it one does unless `s`
/// ends there.
pub proof fn lemma_line_end_bounds(s: Seq<char>)
    ensures
        0 <= line_end(s) <= s.len(),
        forall|j: int| 0 <= j < line_end(s) ==> s[j] != '\n',
        line_end(s) < s.len() ==> s[line_end(s)] == '\n',
    decreases s.len(),
{
    if s.len() > 0 && s[0] != '\n' {
        let rest = s.drop_first();
        lemma_line_end_bounds(rest);
        assert forall|j: int| 0 <= j < line_end(s) implies s[j] != '\n' by {
            if j > 0 {
                assert(s[j] == rest[j - 1]);
            }
        }
    }
}

/// A text without a line feed is one line, and an empty text has none.
pub proof fn lemma_single_line(s: Seq<char>)
    requires
        !s.contains('\n'),
    ensures
        lines_of(s) == if s.len() == 0 {
            Seq::<Seq<char>>::empty()
        } else {
            seq![s]
        },
{
    assert forall|j: int| 0 <= j < s.len() implies s[j] != '\n' by {
        assert(s.contains(s[j]));
    }
    lemma_line_end(s, s.len() as int);
}

/// Cuts a text into its lines.
pub fn split_lines(text: &str) -> (lines: Vec<String>)
    ensures
        texts(lines@) == lines_of(text@),
{
    let chars = chars_of(text);
    let mut lines: Vec<String> = Vec::new();
    let mut pos: usize = 0;
    assert(chars@.skip(0) =~= chars@);
    assert(texts(lines@) =~= Seq::<Seq<char>>::empty());
    while pos < chars.len()
        invariant
            pos <= chars.len(),
            chars@ == text@,
            texts(lines@) + lines_of(chars@.skip(pos as int)) == lines_of(chars@),
        decreases chars.len() - pos,
    {
        let ghost rest = chars@.skip(pos as int);
        let ghost done = lines@;
        let mut end: usize = pos;
        while end < chars.len() && chars[end] != '\n'
            invariant
                pos <= end <= chars.len(),
                forall|j: int| pos <= j < end ==> chars@[j] != '\n',
            decreases chars.len() - end,
        {
            end += 1;
        }
        proof {
            lemma_line_end(rest, end - pos);
        }
        let ended = end < chars.len();
        let stop = if ended && pos < end && chars[end - 1] == '\r' {
            end - 1
        } else {
            end
        };
        let line = string_of(&chars, pos, stop);
        lines.push(line);
        proof {
            assert(texts(lines@) =~= texts(done).push(line@));
            if ended {
                assert(rest.take(end - pos) =~= chars@.subrange(pos as int, end as int));
                assert(line@ =~= without_cr(rest.take(end - pos)));
                assert(rest.skip(end - pos + 1) =~= chars@.skip(end + 1));
                assert(texts(done).push(line@) + lines_of(chars@.skip(end + 1)) =~= texts(done)
                    + lines_of(rest));
            } else {
                assert(line@ =~= rest);
                assert(lines_of(chars@.skip(end as int)) =~= Seq::<Seq<char>>::empty());
                assert(texts(done).push(line@) + lines_of(chars@.skip(end as int)) =~= texts(done)
                    + lines_of(rest));
            }
        }
        pos = if ended {
            end + 1
        } else {
            end
        };
    }
    assert(lines_of(chars@.skip(pos as int)) =~= Seq::<Seq<char>>::empty());
    assert(texts(lines@) + Seq::<Seq<char>>::empty() =~= texts(lines@));
    lines
}

} // verus!
