//! Recognition of a single control line: the operation-name run, the
//! whitespace that follows it, the argument bytes, and the CR LF
//! terminator that closes the line.

use vstd::prelude::*;

verus! {

/// A byte is a valid operation-name character: an uppercase ASCII
/// letter, `+`, or `-`.
pub open spec fn op_char(c: u8) -> bool {
    (0x41 <= c && c <= 0x5a) || c == 0x2d || c == 0x2b
}

/// Recognizes the characters that may begin and form a protocol
/// operation name.
pub fn is_valid_op_char(c: u8) -> (r: bool)
    ensures
        r == op_char(c),
{
    (c >= 0x41 && c <= 0x5a) || c == 0x2d || c == 0x2b
}

/// A byte that may separate the operation name from its arguments:
/// an ASCII space or tab.
pub open spec fn ws_char(c: u8) -> bool {
    c == 0x20 || c == 0x09
}

/// The index just past the run of operation-name characters that
/// starts at `i`.
pub open spec fn op_run_end(s: Seq<u8>, i: int) -> int
    decreases s.len() - i
    when 0 <= i <= s.len()
{
    if i < s.len() && op_char(s[i]) {
        op_run_end(s, i + 1)
    } else {
        i
    }
}

/// The index just past the run of whitespace characters that starts
/// at `i`.
pub open spec fn ws_run_end(s: Seq<u8>, i: int) -> int
    decreases s.len() - i
    when 0 <= i <= s.len()
{
    if i < s.len() && ws_char(s[i]) {
        ws_run_end(s, i + 1)
    } else {
        i
    }
}

/// A CR LF pair begins at index `i`.
pub open spec fn crlf_at(s: Seq<u8>, i: int) -> bool {
    0 <= i && i + 2 <= s.len() && s[i] == 0x0d && s[i + 1] == 0x0a
}

/// The first index at or after `i` where a CR LF pair begins, if any.
pub open spec fn find_crlf(s: Seq<u8>, i: int) -> Option<int>
    decreases s.len() - i
    when 0 <= i <= s.len()
{
    if i + 2 > s.len() {
        None
    } else if crlf_at(s, i) {
        Some(i)
    } else {
        find_crlf(s, i + 1)
    }
}

/// How a buffer relates to the control-line grammar: no complete line
/// has arrived yet, the leading byte cannot start an operation name,
/// or a full line stands at the front, described by its boundaries.
pub enum LineShape {
    Incomplete,
    Malformed,
    Line { op_end: int, args_start: int, args_end: int, end: int },
}

/// The shape of the control line at the front of `s`: the operation
/// name is the longest leading run of operation-name characters, the
/// arguments are the bytes between the whitespace after the name and
/// the first CR LF, and `end` is the count of bytes the whole line
/// occupies.  Until the terminator has arrived the line is incomplete;
/// a leading byte outside the operation alphabet is malformed.
pub open spec fn line_shape(s: Seq<u8>) -> LineShape {
    if s.len() == 0 {
        LineShape::Incomplete
    } else if !op_char(s[0]) {
        LineShape::Malformed
    } else {
        let oe = op_run_end(s, 0);
        if oe == s.len() {
            LineShape::Incomplete
        } else {
            let ws = ws_run_end(s, oe);
            if ws == s.len() {
                LineShape::Incomplete
            } else {
                match find_crlf(s, ws) {
                    None => LineShape::Incomplete,
                    Some(p) => LineShape::Line {
                        op_end: oe,
                        args_start: ws,
                        args_end: p,
                        end: p + 2,
                    },
                }
            }
        }
    }
}

/// The end of a character run never lies before its start nor past
/// the end of the buffer.
pub proof fn lemma_op_run_end_bounds(s: Seq<u8>, i: int)
    requires
        0 <= i <= s.len(),
    ensures
        i <= op_run_end(s, i) <= s.len(),
    decreases s.len() - i,
{
    if i < s.len() && op_char(s[i]) {
        lemma_op_run_end_bounds(s, i + 1);
    }
}

/// The end of a whitespace run never lies before its start nor past
/// the end of the buffer.
pub proof fn lemma_ws_run_end_bounds(s: Seq<u8>, i: int)
    requires
        0 <= i <= s.len(),
    ensures
        i <= ws_run_end(s, i) <= s.len(),
    decreases s.len() - i,
{
    if i < s.len() && ws_char(s[i]) {
        lemma_ws_run_end_bounds(s, i + 1);
    }
}

/// A terminator that is found lies at or after the search start, and
/// the two terminator bytes lie inside the buffer.
pub proof fn lemma_find_crlf_bounds(s: Seq<u8>, i: int)
    requires
        0 <= i <= s.len(),
    ensures
        find_crlf(s, i) matches Some(p) ==> i <= p && p + 2 <= s.len(),
    decreases s.len() - i,
{
    if i + 2 <= s.len() && !crlf_at(s, i) {
        lemma_find_crlf_bounds(s, i + 1);
    }
}

/// The boundaries of a complete line stand in order inside the
/// buffer, and the operation name is never empty.
pub proof fn lemma_line_shape_bounds(s: Seq<u8>)
    ensures
        line_shape(s) matches LineShape::Line { op_end, args_start, args_end, end } ==> {
            &&& 0 < op_end <= args_start <= args_end
            &&& args_end + 2 == end
            &&& end <= s.len()
        },
{
    if line_shape(s) is Line {
        lemma_op_run_end_bounds(s, 1);
        let oe = op_run_end(s, 0);
        lemma_ws_run_end_bounds(s, oe);
        let ws = ws_run_end(s, oe);
        lemma_find_crlf_bounds(s, ws);
    }
}

/// The executable counterpart of [`LineShape`], with machine indices.
pub enum Tokenized {
    Incomplete,
    Malformed,
    Line { op_end: usize, args_start: usize, args_end: usize, end: usize },
}

/// The shape a [`Tokenized`] value denotes.
pub open spec fn tokenized_shape(t: Tokenized) -> LineShape {
    match t {
        Tokenized::Incomplete => LineShape::Incomplete,
        Tokenized::Malformed => LineShape::Malformed,
        Tokenized::Line { op_end, args_start, args_end, end } => LineShape::Line {
            op_end: op_end as int,
            args_start: args_start as int,
            args_end: args_end as int,
            end: end as int,
        },
    }
}

/// Splits the control line at the front of `buf` into its operation
/// name, argument bytes, and terminator, or reports that the line is
/// not complete yet or cannot start an operation name.
pub fn tokenize_line(buf: &[u8]) -> (t: Tokenized)
    ensures
        tokenized_shape(t) == line_shape(buf@),
{
    let n = buf.len();
    if n == 0 {
        return Tokenized::Incomplete;
    }
    if !is_valid_op_char(buf[0]) {
        return Tokenized::Malformed;
    }
    let mut i: usize = 1;
    while i < n && is_valid_op_char(buf[i])
        invariant
            1 <= i <= n,
            n == buf@.len(),
            op_char(buf@[0]),
            op_run_end(buf@, 0) == op_run_end(buf@, i as int),
        decreases n - i,
    {
        i = i + 1;
    }
    assert(op_run_end(buf@, i as int) == i);
    if i == n {
        return Tokenized::Incomplete;
    }
    let mut w: usize = i;
    while w < n && (buf[w] == 0x20 || buf[w] == 0x09)
        invariant
            i <= w <= n,
            n == buf@.len(),
            ws_run_end(buf@, i as int) == ws_run_end(buf@, w as int),
        decreases n - w,
    {
        w = w + 1;
    }
    assert(ws_run_end(buf@, w as int) == w);
    if w == n {
        return Tokenized::Incomplete;
    }
    let mut j: usize = w;
    while n - j >= 2 && !(buf[j] == 0x0d && buf[j + 1] == 0x0a)
        invariant
            w <= j <= n,
            n == buf@.len(),
            find_crlf(buf@, w as int) == find_crlf(buf@, j as int),
        decreases n - j,
    {
        j = j + 1;
    }
    if n - j < 2 {
        assert(find_crlf(buf@, j as int) is None);
        return Tokenized::Incomplete;
    }
    assert(crlf_at(buf@, j as int));
    assert(find_crlf(buf@, j as int) == Some(j as int));
    Tokenized::Line { op_end: i, args_start: w, args_end: j, end: j + 2 }
}

} // verus!
