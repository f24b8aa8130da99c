//! The text of a log line, built from plain values.
use vstd::prelude::*;

use crate::foreign::decimal_text;

verus! {

/// The ASCII digit of `d`, for `d < 10`.
pub open spec fn digit(d: nat) -> char {
    if d == 0 { '0' }
    else if d == 1 { '1' }
    else if d == 2 { '2' }
    else if d == 3 { '3' }
    else if d == 4 { '4' }
    else if d == 5 { '5' }
    else if d == 6 { '6' }
    else if d == 7 { '7' }
    else if d == 8 { '8' }
    else { '9' }
}

/// `n` written in base ten, without sign or leading zeros.
pub open spec fn decimal(n: nat) -> Seq<char>
    decreases n,
{
    if n < 10 {
        seq![digit(n)]
    } else {
        decimal(n / 10).push(digit(n % 10))
    }
}

/// What a newline inside a message becomes, so that continuation lines start under the
/// location column.
pub const LINE_CONTINUATION: &'static str = "\n     ";

/// Width that a sequence number is padded to.
pub const NUMBER_WIDTH: usize = 4;

/// `s` preceded by as many spaces as bring it to `width` characters.
pub open spec fn pad_left(s: Seq<char>, width: nat) -> Seq<char> {
    if s.len() >= width {
        s
    } else {
        Seq::new((width - s.len()) as nat, |i: int| ' ') + s
    }
}

/// How a sequence number is shown: right-aligned in four columns.
pub open spec fn number_text(n: nat) -> Seq<char> {
    pad_left(decimal(n), NUMBER_WIDTH as nat)
}

/// `msg` with every newline replaced by `sep`.
pub open spec fn continued(msg: Seq<char>, sep: Seq<char>) -> Seq<char>
    decreases msg.len(),
{
    if msg.len() == 0 {
        Seq::empty()
    } else if msg.last() == '\n' {
        continued(msg.drop_last(), sep) + sep
    } else {
        continued(msg.drop_last(), sep).push(msg.last())
    }
}

/// The file shown under a record: its path, or nothing.
pub open spec fn file_text(file: Option<&str>) -> Seq<char> {
    match file {
        Some(f) => f@,
        None => Seq::empty(),
    }
}

/// The line suffix shown after the file: `:n` only when both file and line are known.
pub open spec fn line_text(file: Option<&str>, line: Option<u32>) -> Seq<char> {
    match (file, line) {
        (Some(_), Some(n)) => seq![':'] + decimal(n as nat),
        _ => Seq::empty(),
    }
}

/// Number, time and severity token, one space between each.
pub open spec fn prefix_layout(number: Seq<char>, timestamp: Seq<char>, token: Seq<char>) -> Seq<char> {
    number + seq![' '] + timestamp + seq![' '] + token
}

/// What stands before the file on the second line of a record.
pub open spec fn location_indent() -> Seq<char> {
    seq![' ', ' ', ' ', ' ', ' ']
}

/// A whole record: prefix and body on one line, file and line suffix on the next.
pub open spec fn line_layout(prefix: Seq<char>, body: Seq<char>, file: Seq<char>, line: Seq<char>) -> Seq<char> {
    prefix + seq![' '] + body + seq!['\n'] + location_indent() + file + line + seq!['\n']
}

/// Renders `n` as the sequence-number column.
pub fn pad_number(n: u64) -> (r: String)
    ensures
        r@ == number_text(n as nat),
{
    let digits = decimal_text(n);
    let len = digits.as_str().unicode_len();
    let mut out = String::new();
    let mut i: usize = len;
    while i < NUMBER_WIDTH
        invariant
            len == digits@.len(),
            len <= i <= NUMBER_WIDTH || (len > NUMBER_WIDTH && i == len),
            out@ == Seq::new((i - len) as nat, |k: int| ' '),
        decreases NUMBER_WIDTH - i,
    {
        out.append(" ");
        proof {
            reveal_strlit(" ");
        }
        assert(out@ =~= Seq::new((i + 1 - len) as nat, |k: int| ' '));
        i = i + 1;
    }
    out.append(digits.as_str());
    assert(out@ =~= number_text(n as nat));
    out
}

/// Replaces every newline of `message` by `sep`, so that continuation lines line up.
pub fn continue_lines(message: &str, sep: &str) -> (r: String)
    ensures
        r@ == continued(message@, sep@),
{
    let len = message.unicode_len();
    let mut out = String::new();
    let mut i: usize = 0;
    while i < len
        invariant
            len == message@.len(),
            i <= len,
            out@ == continued(message@.subrange(0, i as int), sep@),
        decreases len - i,
    {
        let c = message.get_char(i);
        assert(message@.subrange(0, i + 1).drop_last() =~= message@.subrange(0, i as int));
        if c == '\n' {
            out.append(sep);
        } else {
            out.append(message.substring_char(i, i + 1));
            assert(message@.subrange(i as int, i + 1) =~= seq![c]);
        }
        i = i + 1;
    }
    assert(message@.subrange(0, len as int) =~= message@);
    out
}

/// The file column and the line suffix of a record's location.
pub fn location(file: Option<&str>, line: Option<u32>) -> (r: (String, String))
    ensures
        r.0@ == file_text(file),
        r.1@ == line_text(file, line),
        file is None ==> r.0@.len() == 0 && r.1@.len() == 0,
        line is None ==> r.1@.len() == 0,
{
    match file {
        Some(f) => {
            let suffix = match line {
                Some(n) => {
                    proof {
                        reveal_strlit(":");
                    }
                    let s = String::from_str(":").concat(decimal_text(n as u64).as_str());
                    assert(s@ =~= line_text(file, line));
                    s
                },
                None => String::new(),
            };
            (String::from_str(f), suffix)
        },
        None => (String::new(), String::new()),
    }
}

/// Joins the three prefix columns.
pub fn render_prefix(number: &str, timestamp: &str, token: &str) -> (r: String)
    ensures
        r@ == prefix_layout(number@, timestamp@, token@),
{
    proof {
        reveal_strlit(" ");
    }
    let out = String::from_str(number).concat(" ").concat(timestamp).concat(" ").concat(token);
    assert(out@ =~= prefix_layout(number@, timestamp@, token@));
    out
}

/// Joins a prefix, a body and a location into the text of one record.
pub fn render_line(prefix: &str, body: &str, file: &str, line: &str) -> (r: String)
    ensures
        r@ == line_layout(prefix@, body@, file@, line@),
{
    proof {
        reveal_strlit(" ");
        reveal_strlit("\n     ");
        reveal_strlit("\n");
    }
    let out = String::from_str(prefix).concat(" ").concat(body).concat("\n     ").concat(
        file,
    ).concat(line).concat("\n");
    assert(out@ =~= line_layout(prefix@, body@, file@, line@));
    out
}

} // verus!
