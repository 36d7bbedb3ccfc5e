//! The save-file format: a header line with the width, the height and the
//! boundary mode, then one line with a character for every cell.
//!
//! ```text
//! 8 8 false
//! 0000000000011000000110000000000000000000000000000000000000000000
//! ```

use vstd::prelude::*;

verus! {

/// The smallest width and height that a saved board may have.
pub const MIN_BOARD_SIZE: usize = 8;

/// The largest width and height that a saved board may have.
pub const MAX_BOARD_SIZE: usize = 64;

/// Why a text is not a saved board.
#[derive(Clone, Copy, Debug, PartialEq, Eq, Structural)]
pub enum ImportError {
    /// A line or a field of the header is missing.
    InvalidFormat,
    /// A field of the header is there but is not a number or a boolean.
    InvalidHeader,
    /// The width or the height lies outside the allowed range.
    InvalidBoardSize,
    /// The cell line does not hold one character for every cell.
    InvalidCellCount,
}

/// What a save file holds.
pub struct Snapshot {
    pub width: usize,
    pub height: usize,
    pub periodic: bool,
    pub cells: Vec<bool>,
}

/// What a save file holds, as a mathematical value.
pub struct SnapshotModel {
    pub width: nat,
    pub height: nat,
    pub periodic: bool,
    pub cells: Seq<bool>,
}

impl View for Snapshot {
    type V = SnapshotModel;

    open spec fn view(&self) -> SnapshotModel {
        SnapshotModel {
            width: self.width as nat,
            height: self.height as nat,
            periodic: self.periodic,
            cells: self.cells@,
        }
    }
}

/// White space in the sense of Unicode's `White_Space` property.
pub open spec fn is_whitespace(c: char) -> bool {
    let u = c as u32;
    ||| 0x09 <= u <= 0x0d
    ||| u == 0x20
    ||| u == 0x85
    ||| u == 0xa0
    ||| u == 0x1680
    ||| 0x2000 <= u <= 0x200a
    ||| u == 0x2028
    ||| u == 0x2029
    ||| u == 0x202f
    ||| u == 0x205f
    ||| u == 0x3000
}

/// A decimal digit.
pub open spec fn is_digit(c: char) -> bool {
    '0' <= c <= '9'
}

/// The value of a decimal digit.
pub open spec fn digit_value(c: char) -> nat {
    (c as u32 - '0' as u32) as nat
}

/// The character for a value below ten.
pub open spec fn digit_char(d: nat) -> char {
    (d + '0' as u32) as char
}

/// Whether every character is a decimal digit.
pub open spec fn all_digits(s: Seq<char>) -> bool {
    forall|i: int| 0 <= i < s.len() ==> is_digit(#[trigger] s[i])
}

/// The number that a sequence of decimal digits writes.
pub open spec fn decimal_value(digits: Seq<char>) -> nat
    decreases digits.len(),
{
    if digits.len() == 0 {
        0
    } else {
        decimal_value(digits.drop_last()) * 10 + digit_value(digits.last())
    }
}

/// A number in decimal digits, without leading zeros.
pub open spec fn decimal_digits(n: nat) -> Seq<char>
    decreases n,
{
    if n < 10 {
        seq![digit_char(n)]
    } else {
        decimal_digits(n / 10).push(digit_char(n % 10))
    }
}

/// The number that a header field writes, if it writes one: decimal digits,
/// at least one, after at most one plus sign, for a value that a `usize` holds.
pub open spec fn parse_number(token: Seq<char>) -> Option<usize> {
    let digits = if token.len() > 0 && token[0] == '+' {
        token.subrange(1, token.len() as int)
    } else {
        token
    };
    if digits.len() > 0 && all_digits(digits) && decimal_value(digits) <= usize::MAX {
        Some(decimal_value(digits) as usize)
    } else {
        None
    }
}

/// The boolean that a header field writes, if it writes one.
pub open spec fn parse_bool(token: Seq<char>) -> Option<bool> {
    if token == seq!['t', 'r', 'u', 'e'] {
        Some(true)
    } else if token == seq!['f', 'a', 'l', 's', 'e'] {
        Some(false)
    } else {
        None
    }
}

/// The first position at or after `i` that holds no white space.
pub open spec fn skip_whitespace(line: Seq<char>, i: int) -> int
    decreases line.len() - i,
{
    if 0 <= i < line.len() && is_whitespace(line[i]) {
        skip_whitespace(line, i + 1)
    } else {
        i
    }
}

/// The first position at or after `i` that holds white space, or the end.
pub open spec fn token_end(line: Seq<char>, i: int) -> int
    decreases line.len() - i,
{
    if 0 <= i < line.len() && !is_whitespace(line[i]) {
        token_end(line, i + 1)
    } else {
        i
    }
}

/// Where the next field at or after position `from` begins and ends, if
/// there is one: fields are runs of characters between white space.
pub open spec fn next_token(line: Seq<char>, from: int) -> Option<(int, int)> {
    let begin = skip_whitespace(line, from);
    if begin < line.len() {
        Some((begin, token_end(line, begin)))
    } else {
        None
    }
}

/// The position of the first line feed at or after `i`, or the end of the text.
pub open spec fn line_end(text: Seq<char>, i: int) -> int
    decreases text.len() - i,
{
    if 0 <= i < text.len() && text[i] != '\n' {
        line_end(text, i + 1)
    } else {
        i
    }
}

/// The line that begins at position `start`. It ends before the next line
/// feed, and a carriage return just before that line feed is not part of it.
/// A last line that no line feed ends runs up to the end of the text, and a
/// carriage return at its end is a character of the line like any other.
pub open spec fn line_at(text: Seq<char>, start: int) -> Seq<char> {
    let end = line_end(text, start);
    let raw = text.subrange(start, end);
    if end < text.len() && raw.len() > 0 && raw.last() == '\r' {
        raw.drop_last()
    } else {
        raw
    }
}

/// The three fields of a header line.
pub open spec fn parse_header(line: Seq<char>) -> Result<(usize, usize, bool), ImportError> {
    match next_token(line, 0) {
        None => Err(ImportError::InvalidFormat),
        Some((b1, e1)) => match parse_number(line.subrange(b1, e1)) {
            None => Err(ImportError::InvalidHeader),
            Some(width) => match next_token(line, e1) {
                None => Err(ImportError::InvalidFormat),
                Some((b2, e2)) => match parse_number(line.subrange(b2, e2)) {
                    None => Err(ImportError::InvalidHeader),
                    Some(height) => match next_token(line, e2) {
                        None => Err(ImportError::InvalidFormat),
                        Some((b3, e3)) => match parse_bool(line.subrange(b3, e3)) {
                            None => Err(ImportError::InvalidHeader),
                            Some(periodic) => Ok((width, height, periodic)),
                        },
                    },
                },
            },
        },
    }
}

/// Whether a width or a height is allowed in a save file.
pub open spec fn valid_board_size(n: int) -> bool {
    MIN_BOARD_SIZE <= n <= MAX_BOARD_SIZE
}

/// The cells that a cell line writes: `'1'` is alive, anything else is dead.
pub open spec fn parse_cells(line: Seq<char>) -> Seq<bool> {
    Seq::new(line.len(), |i: int| line[i] == '1')
}

/// What a text holds as a saved board, or why it holds none. The checks come
/// in this order: the header line and its fields, the range of width and
/// height, the presence of the cell line, the number of its characters.
pub open spec fn parse_snapshot(text: Seq<char>) -> Result<SnapshotModel, ImportError> {
    if text.len() == 0 {
        Err(ImportError::InvalidFormat)
    } else {
        match parse_header(line_at(text, 0)) {
            Err(e) => Err(e),
            Ok((width, height, periodic)) => {
                let second = line_end(text, 0) + 1;
                if !valid_board_size(width as int) || !valid_board_size(height as int) {
                    Err(ImportError::InvalidBoardSize)
                } else if second >= text.len() {
                    Err(ImportError::InvalidFormat)
                } else if line_at(text, second).len() != width * height {
                    Err(ImportError::InvalidCellCount)
                } else {
                    Ok(
                        SnapshotModel {
                            width: width as nat,
                            height: height as nat,
                            periodic,
                            cells: parse_cells(line_at(text, second)),
                        },
                    )
                }
            },
        }
    }
}

/// The cell line of a grid: `'1'` for a live cell, `'0'` for a dead one.
pub open spec fn cells_text(cells: Seq<bool>) -> Seq<char> {
    Seq::new(
        cells.len(),
        |i: int|
            if cells[i] {
                '1'
            } else {
                '0'
            },
    )
}

/// How a boolean is written.
pub open spec fn bool_text(b: bool) -> Seq<char> {
    if b {
        seq!['t', 'r', 'u', 'e']
    } else {
        seq!['f', 'a', 'l', 's', 'e']
    }
}

/// The text of a save file.
pub open spec fn snapshot_text(snapshot: SnapshotModel) -> Seq<char> {
    decimal_digits(snapshot.width) + seq![' '] + decimal_digits(snapshot.height) + seq![' ']
        + bool_text(snapshot.periodic) + seq!['\n'] + cells_text(snapshot.cells)
}

/// Whether a width or a height is allowed in a save file.
pub fn is_valid_board_size(n: usize) -> (valid: bool)
    ensures
        valid == valid_board_size(n as int),
{
    MIN_BOARD_SIZE <= n && n <= MAX_BOARD_SIZE
}

/// The characters of a text, one by one.
pub fn text_chars(text: &str) -> (chars: Vec<char>)
    ensures
        chars@ == text@,
{
    let mut chars: Vec<char> = Vec::new();
    for c in it: text.chars()
        invariant
            it.seq() == text@,
            chars@ == text@.take(it.index() as int),
    {
        chars.push(c);
    }
    chars
}

fn char_is_whitespace(c: char) -> (ws: bool)
    ensures
        ws == is_whitespace(c),
{
    let u = c as u32;
    (0x09 <= u && u <= 0x0d) || u == 0x20 || u == 0x85 || u == 0xa0 || u == 0x1680 || (0x2000 <= u
        && u <= 0x200a) || u == 0x2028 || u == 0x2029 || u == 0x202f || u == 0x205f || u == 0x3000
}

/// The line that begins at `start`, and the position at which it ends.
fn read_line(chars: &Vec<char>, start: usize) -> (found: (Vec<char>, usize))
    requires
        start <= chars.len(),
    ensures
        found.0@ == line_at(chars@, start as int),
        found.1 == line_end(chars@, start as int),
        start <= found.1 <= chars.len(),
{
    let mut end: usize = start;
    while end < chars.len() && chars[end] != '\n'
        invariant
            start <= end <= chars.len(),
            line_end(chars@, start as int) == line_end(chars@, end as int),
        decreases chars.len() - end,
    {
        end += 1;
    }
    let stop = if end < chars.len() && end > start && chars[end - 1] == '\r' {
        end - 1
    } else {
        end
    };
    let mut line: Vec<char> = Vec::new();
    let mut i: usize = start;
    while i < stop
        invariant
            start <= i <= stop <= chars.len(),
            line@ == chars@.subrange(start as int, i as int),
        decreases stop - i,
    {
        line.push(chars[i]);
        assert(chars@.subrange(start as int, i as int).push(chars@[i as int])
            =~= chars@.subrange(start as int, i + 1));
        i += 1;
    }
    proof {
        let raw = chars@.subrange(start as int, end as int);
        if end < chars.len() && end > start && chars[end - 1] == '\r' {
            assert(raw.drop_last() =~= chars@.subrange(start as int, stop as int));
        }
    }
    (line, end)
}

/// Where the next field at or after `from` begins and ends.
fn find_token(line: &Vec<char>, from: usize) -> (found: Option<(usize, usize)>)
    requires
        from <= line.len(),
    ensures
        match found {
            Some((begin, end)) => next_token(line@, from as int) == Some((begin as int, end as int))
                && from <= begin < end <= line.len(),
            None => next_token(line@, from as int) is None,
        },
{
    let mut begin: usize = from;
    while begin < line.len() && char_is_whitespace(line[begin])
        invariant
            from <= begin <= line.len(),
            skip_whitespace(line@, from as int) == skip_whitespace(line@, begin as int),
        decreases line.len() - begin,
    {
        begin += 1;
    }
    if begin >= line.len() {
        return None;
    }
    let mut end: usize = begin + 1;
    assert(token_end(line@, begin as int) == token_end(line@, end as int));
    while end < line.len() && !char_is_whitespace(line[end])
        invariant
            begin < end <= line.len(),
            token_end(line@, begin as int) == token_end(line@, end as int),
        decreases line.len() - end,
    {
        end += 1;
    }
    Some((begin, end))
}

/// The prefix of a sequence of digits writes no more than the whole.
pub proof fn lemma_decimal_value_prefix(digits: Seq<char>, k: int)
    requires
        0 <= k <= digits.len(),
    ensures
        decimal_value(digits.take(k)) <= decimal_value(digits),
    decreases digits.len(),
{
    if k < digits.len() {
        lemma_decimal_value_prefix(digits.drop_last(), k);
        assert(digits.drop_last().take(k) =~= digits.take(k));
    } else {
        assert(digits.take(k) =~= digits);
    }
}

/// The number that the field `line[begin..end]` writes.
fn read_number(line: &Vec<char>, begin: usize, end: usize) -> (number: Option<usize>)
    requires
        begin < end <= line.len(),
    ensures
        number == parse_number(line@.subrange(begin as int, end as int)),
{
    let ghost token = line@.subrange(begin as int, end as int);
    let first = if line[begin] == '+' {
        begin + 1
    } else {
        begin
    };
    let ghost digits = line@.subrange(first as int, end as int);
    assert(digits =~= if token.len() > 0 && token[0] == '+' {
        token.subrange(1, token.len() as int)
    } else {
        token
    });
    if first == end {
        return None;
    }
    let mut value: usize = 0;
    let mut i: usize = first;
    while i < end
        invariant
            first <= i <= end <= line.len(),
            first < end,
            token == line@.subrange(begin as int, end as int),
            digits == line@.subrange(first as int, end as int),
            digits == (if token.len() > 0 && token[0] == '+' {
                token.subrange(1, token.len() as int)
            } else {
                token
            }),
            all_digits(digits.take(i - first)),
            value == decimal_value(digits.take(i - first)),
        decreases end - i,
    {
        let c = line[i];
        if !(c >= '0' && c <= '9') {
            assert(!is_digit(digits[i - first]));
            return None;
        }
        let d = (c as u32 - '0' as u32) as usize;
        proof {
            let next = digits.take(i - first + 1);
            assert(next.drop_last() =~= digits.take(i - first));
            assert(next.last() == c);
            assert(all_digits(next)) by {
                assert forall|j: int| 0 <= j < next.len() implies is_digit(#[trigger] next[j]) by {
                    if j < i - first {
                        assert(digits.take(i - first)[j] == next[j]);
                    }
                }
            }
            lemma_decimal_value_prefix(digits, i - first + 1);
        }
        if value > (usize::MAX - d) / 10 {
            return None;
        }
        value = value * 10 + d;
        i += 1;
    }
    assert(digits.take(end - first) =~= digits);
    Some(value)
}

/// The boolean that the field `line[begin..end]` writes.
fn read_bool(line: &Vec<char>, begin: usize, end: usize) -> (value: Option<bool>)
    requires
        begin < end <= line.len(),
    ensures
        value == parse_bool(line@.subrange(begin as int, end as int)),
{
    let ghost token = line@.subrange(begin as int, end as int);
    if end - begin == 4 && line[begin] == 't' && line[begin + 1] == 'r' && line[begin + 2] == 'u'
        && line[begin + 3] == 'e' {
        assert(token =~= seq!['t', 'r', 'u', 'e']);
        Some(true)
    } else if end - begin == 5 && line[begin] == 'f' && line[begin + 1] == 'a' && line[begin + 2]
        == 'l' && line[begin + 3] == 's' && line[begin + 4] == 'e' {
        assert(token =~= seq!['f', 'a', 'l', 's', 'e']);
        Some(false)
    } else {
        proof {
            let t = seq!['t', 'r', 'u', 'e'];
            let f = seq!['f', 'a', 'l', 's', 'e'];
            if token == t {
                assert(token.len() == 4);
                assert(token[0] == t[0] && token[1] == t[1] && token[2] == t[2] && token[3] == t[3]);
            }
            if token == f {
                assert(token.len() == 5);
                assert(token[0] == f[0] && token[1] == f[1] && token[2] == f[2] && token[3] == f[3]
                    && token[4] == f[4]);
            }
        }
        None
    }
}

/// The three fields of a header line.
fn read_header(line: &Vec<char>) -> (header: Result<(usize, usize, bool), ImportError>)
    ensures
        header == parse_header(line@),
{
    let (b1, e1) = match find_token(line, 0) {
        Some(bounds) => bounds,
        None => { return Err(ImportError::InvalidFormat); },
    };
    let width = match read_number(line, b1, e1) {
        Some(width) => width,
        None => { return Err(ImportError::InvalidHeader); },
    };
    let (b2, e2) = match find_token(line, e1) {
        Some(bounds) => bounds,
        None => { return Err(ImportError::InvalidFormat); },
    };
    let height = match read_number(line, b2, e2) {
        Some(height) => height,
        None => { return Err(ImportError::InvalidHeader); },
    };
    let (b3, e3) = match find_token(line, e2) {
        Some(bounds) => bounds,
        None => { return Err(ImportError::InvalidFormat); },
    };
    match read_bool(line, b3, e3) {
        Some(periodic) => Ok((width, height, periodic)),
        None => Err(ImportError::InvalidHeader),
    }
}

/// Reads a saved board from the text of a save file.
pub fn read_snapshot(text: &str) -> (snapshot: Result<Snapshot, ImportError>)
    ensures
        match snapshot {
            Ok(s) => parse_snapshot(text@) == Ok::<SnapshotModel, ImportError>(s@),
            Err(e) => parse_snapshot(text@) == Err::<SnapshotModel, ImportError>(e),
        },
{
    let chars = text_chars(text);
    if chars.len() == 0 {
        return Err(ImportError::InvalidFormat);
    }
    let (header_line, header_end) = read_line(&chars, 0);
    let (width, height, periodic) = match read_header(&header_line) {
        Ok(header) => header,
        Err(e) => { return Err(e); },
    };
    if !is_valid_board_size(width) || !is_valid_board_size(height) {
        return Err(ImportError::InvalidBoardSize);
    }
    if header_end >= chars.len() - 1 {
        return Err(ImportError::InvalidFormat);
    }
    let (cell_line, _) = read_line(&chars, header_end + 1);
    assert(width * height <= 64 * 64) by (nonlinear_arith)
        requires
            width <= 64,
            height <= 64,
    ;
    if cell_line.len() != width * height {
        return Err(ImportError::InvalidCellCount);
    }
    let mut cells: Vec<bool> = Vec::new();
    let mut i: usize = 0;
    while i < cell_line.len()
        invariant
            i <= cell_line.len(),
            cells@ == parse_cells(cell_line@).take(i as int),
        decreases cell_line.len() - i,
    {
        cells.push(cell_line[i] == '1');
        assert(parse_cells(cell_line@).take(i as int).push(cell_line@[i as int] == '1')
            =~= parse_cells(cell_line@).take(i + 1));
        i += 1;
    }
    assert(parse_cells(cell_line@).take(cell_line.len() as int) =~= parse_cells(cell_line@));
    Ok(Snapshot { width, height, periodic, cells })
}

/// The one-character text of a value below ten.
fn digit_text(d: usize) -> (text: &'static str)
    requires
        d < 10,
    ensures
        text@ == seq![digit_char(d as nat)],
{
    proof {
        reveal_strlit("0");
        reveal_strlit("1");
        reveal_strlit("2");
        reveal_strlit("3");
        reveal_strlit("4");
        reveal_strlit("5");
        reveal_strlit("6");
        reveal_strlit("7");
        reveal_strlit("8");
        reveal_strlit("9");
    }
    let text = match d {
        0 => "0",
        1 => "1",
        2 => "2",
        3 => "3",
        4 => "4",
        5 => "5",
        6 => "6",
        7 => "7",
        8 => "8",
        _ => "9",
    };
    assert(text@ =~= seq![digit_char(d as nat)]);
    text
}

/// Appends a number in decimal digits.
pub fn append_decimal(out: &mut String, n: usize)
    ensures
        final(out)@ == old(out)@ + decimal_digits(n as nat),
    decreases n,
{
    if n >= 10 {
        append_decimal(out, n / 10);
    }
    out.append(digit_text(n % 10));
    proof {
        if n >= 10 {
            assert(old(out)@ + decimal_digits(n as nat / 10).push(digit_char(n as nat % 10))
                =~= old(out)@ + decimal_digits(n as nat / 10) + seq![digit_char(n as nat % 10)]);
        }
    }
}

/// Writes a board as the text of a save file.
pub fn write_snapshot(width: usize, height: usize, periodic: bool, cells: &Vec<bool>) -> (text:
    String)
    ensures
        text@ == snapshot_text(
            SnapshotModel { width: width as nat, height: height as nat, periodic, cells: cells@ },
        ),
{
    let mut text = String::new();
    append_decimal(&mut text, width);
    proof {
        reveal_strlit(" ");
        reveal_strlit("true");
        reveal_strlit("false");
        reveal_strlit("\n");
        reveal_strlit("0");
        reveal_strlit("1");
    }
    text.append(" ");
    append_decimal(&mut text, height);
    text.append(" ");
    if periodic {
        text.append("true");
    } else {
        text.append("false");
    }
    text.append("\n");
    let ghost head = text@;
    assert(head =~= decimal_digits(width as nat) + seq![' '] + decimal_digits(height as nat)
        + seq![' '] + bool_text(periodic) + seq!['\n']);
    let mut i: usize = 0;
    while i < cells.len()
        invariant
            i <= cells.len(),
            text@ == head + cells_text(cells@).take(i as int),
        decreases cells.len() - i,
    {
        proof {
            reveal_strlit("0");
            reveal_strlit("1");
        }
        if cells[i] {
            text.append("1");
        } else {
            text.append("0");
        }
        assert(text@ =~= head + cells_text(cells@).take(i + 1));
        i += 1;
    }
    assert(cells_text(cells@).take(cells.len() as int) =~= cells_text(cells@));
    text
}

/// The decimal digits of a number are digits, at least one, and write that number.
pub proof fn lemma_decimal_digits(n: nat)
    ensures
        decimal_digits(n).len() > 0,
        all_digits(decimal_digits(n)),
        decimal_value(decimal_digits(n)) == n,
    decreases n,
{
    let d = decimal_digits(n);
    if n < 10 {
        assert(d.drop_last() =~= Seq::<char>::empty());
        assert(decimal_value(d.drop_last()) == 0);
        assert(d.last() == digit_char(n));
    } else {
        lemma_decimal_digits(n / 10);
        assert(d.drop_last() =~= decimal_digits(n / 10));
        assert(d.last() == digit_char(n % 10));
        assert forall|i: int| 0 <= i < d.len() implies is_digit(#[trigger] d[i]) by {
            if i < d.len() - 1 {
                assert(d[i] == decimal_digits(n / 10)[i]);
            }
        }
    }
}

/// A field runs from its first character up to the next white space.
proof fn lemma_token_end(line: Seq<char>, from: int, to: int)
    requires
        0 <= from <= to <= line.len(),
        forall|i: int| from <= i < to ==> !is_whitespace(#[trigger] line[i]),
        to == line.len() || is_whitespace(line[to]),
    ensures
        token_end(line, from) == to,
    decreases to - from,
{
    if from < to {
        lemma_token_end(line, from + 1, to);
    }
}

/// A line runs from its first character up to the next line feed.
proof fn lemma_line_end(text: Seq<char>, from: int, to: int)
    requires
        0 <= from <= to <= text.len(),
        forall|i: int| from <= i < to ==> #[trigger] text[i] != '\n',
        to == text.len() || text[to] == '\n',
    ensures
        line_end(text, from) == to,
    decreases to - from,
{
    if from < to {
        lemma_line_end(text, from + 1, to);
    }
}

/// A field that is made of digits, or is a written boolean, begins where the
/// search for it begins, when that is at its first character or at the single
/// space before it.
proof fn lemma_next_token(line: Seq<char>, from: int, begin: int, end: int)
    requires
        0 <= from <= begin < end <= line.len(),
        begin == from || (begin == from + 1 && line[from] == ' '),
        forall|i: int| begin <= i < end ==> !is_whitespace(#[trigger] line[i]),
        end == line.len() || is_whitespace(line[end]),
    ensures
        next_token(line, from) == Some((begin, end)),
{
    lemma_token_end(line, begin, end);
    assert(!is_whitespace(line[begin]));
    assert(skip_whitespace(line, begin) == begin);
    if begin == from + 1 {
        assert(is_whitespace(line[from]));
        assert(skip_whitespace(line, from) == skip_whitespace(line, from + 1));
    }
}

/// Writing a board and reading the text back gives the same board: the same
/// width, height and boundary mode, and every cell as it was. This holds of
/// every board that a save file may hold, that is of every width and height
/// in the allowed range.
pub proof fn lemma_snapshot_round_trip(snapshot: SnapshotModel)
    requires
        valid_board_size(snapshot.width as int),
        valid_board_size(snapshot.height as int),
        snapshot.cells.len() == snapshot.width * snapshot.height,
    ensures
        parse_snapshot(snapshot_text(snapshot)) == Ok::<SnapshotModel, ImportError>(snapshot),
{
    let d1 = decimal_digits(snapshot.width);
    let d2 = decimal_digits(snapshot.height);
    let b = bool_text(snapshot.periodic);
    let c = cells_text(snapshot.cells);
    let header = d1 + seq![' '] + d2 + seq![' '] + b;
    let text = snapshot_text(snapshot);
    lemma_decimal_digits(snapshot.width);
    lemma_decimal_digits(snapshot.height);
    assert(snapshot.width * snapshot.height >= 64) by (nonlinear_arith)
        requires
            snapshot.width >= 8,
            snapshot.height >= 8,
    ;
    let e1 = d1.len() as int;
    let b2 = e1 + 1;
    let e2 = b2 + d2.len();
    let b3 = e2 + 1;
    let e3 = b3 + b.len();
    assert(header.len() == e3);
    assert(text =~= header + seq!['\n'] + c);
    assert forall|i: int| 0 <= i < e1 implies header[i] == d1[i] && is_digit(header[i]) by {}
    assert forall|i: int| b2 <= i < e2 implies header[i] == d2[i - b2] && is_digit(header[i]) by {
        assert(is_digit(d2[i - b2]));
    }
    assert forall|i: int| b3 <= i < e3 implies header[i] == b[i - b3] && !is_whitespace(
        header[i],
    ) && header[i] != '\n' && header[i] != '\r' by {}
    assert(header[e1] == ' ');
    assert(header[e2] == ' ');
    // The header line.
    assert forall|i: int| 0 <= i < e3 implies #[trigger] text[i] != '\n' by {
        assert(text[i] == header[i]);
        if i < e1 {
            assert(is_digit(header[i]));
        } else if b2 <= i < e2 {
            assert(is_digit(header[i]));
        } else if b3 <= i {
            assert(header[i] == b[i - b3]);
        }
    }
    assert(text[e3] == '\n');
    lemma_line_end(text, 0, e3);
    assert(text.subrange(0, e3) =~= header);
    assert(header.last() == b[b.len() - 1]);
    assert(line_at(text, 0) == header);
    // Its three fields.
    assert forall|i: int| 0 <= i < e1 implies !is_whitespace(#[trigger] header[i]) by {
        assert(is_digit(header[i]));
    }
    lemma_next_token(header, 0, 0, e1);
    assert(header.subrange(0, e1) =~= d1);
    assert(d1[0] != '+') by {
        assert(is_digit(d1[0]));
    }
    assert(parse_number(d1) == Some(snapshot.width as usize));
    assert forall|i: int| b2 <= i < e2 implies !is_whitespace(#[trigger] header[i]) by {
        assert(is_digit(header[i]));
    }
    lemma_next_token(header, e1, b2, e2);
    assert(header.subrange(b2, e2) =~= d2);
    assert(d2[0] != '+') by {
        assert(is_digit(d2[0]));
    }
    assert(parse_number(d2) == Some(snapshot.height as usize));
    lemma_next_token(header, e2, b3, e3);
    assert(header.subrange(b3, e3) =~= b);
    assert(parse_bool(b) == Some(snapshot.periodic)) by {
        let t = seq!['t', 'r', 'u', 'e'];
        let f = seq!['f', 'a', 'l', 's', 'e'];
        assert(t.len() != f.len());
    }
    assert(parse_header(header) == Ok::<(usize, usize, bool), ImportError>(
        (snapshot.width as usize, snapshot.height as usize, snapshot.periodic),
    ));
    // The cell line.
    let second = e3 + 1;
    assert(text.len() == second + c.len());
    assert forall|i: int| second <= i < text.len() implies #[trigger] text[i] != '\n' by {
        assert(text[i] == c[i - second]);
    }
    lemma_line_end(text, second, text.len() as int);
    assert(text.subrange(second, text.len() as int) =~= c);
    assert(line_at(text, second) == c);
    assert(parse_cells(c) =~= snapshot.cells);
}

/// A text holds a saved board exactly when it has a header line whose three
/// fields parse, a width and a height within the allowed range, both ends
/// included, and after the header line a cell line with exactly one character
/// for every cell. Lines are told apart by line feeds alone.
pub proof fn lemma_parse_succeeds_exactly_when(text: Seq<char>)
    ensures
        parse_snapshot(text) is Ok <==> {
            &&& text.len() > 0
            &&& parse_header(line_at(text, 0)) is Ok
            &&& {
                let (width, height, periodic) = parse_header(line_at(text, 0))->Ok_0;
                &&& MIN_BOARD_SIZE <= width <= MAX_BOARD_SIZE
                &&& MIN_BOARD_SIZE <= height <= MAX_BOARD_SIZE
                &&& line_end(text, 0) + 1 < text.len()
                &&& line_at(text, line_end(text, 0) + 1).len() == width * height
            }
        },
{
}

} // verus!
