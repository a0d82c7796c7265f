//! Text helpers on UTF-8 strings, addressed by byte offsets.

use vstd::prelude::*;
use vstd::utf8::*;
use vstd::string::*;

verus! {

/// The UTF-8 bytes of a text.
pub open spec fn bytes_of(text: Seq<char>) -> Seq<u8> {
    encode_utf8(text)
}

/// `prefix` is an initial part of `bytes`.
pub open spec fn has_prefix(bytes: Seq<u8>, prefix: Seq<u8>) -> bool {
    prefix.len() <= bytes.len() && bytes.subrange(0, prefix.len() as int) == prefix
}

/// `suffix` is a final part of `bytes`.
pub open spec fn has_suffix(bytes: Seq<u8>, suffix: Seq<u8>) -> bool {
    suffix.len() <= bytes.len() && bytes.subrange(bytes.len() - suffix.len(), bytes.len() as int)
        == suffix
}

/// `part` occurs in `bytes` at offset `at`.
pub open spec fn occurs_at(bytes: Seq<u8>, part: Seq<u8>, at: int) -> bool {
    0 <= at && at + part.len() <= bytes.len() && bytes.subrange(at, at + part.len()) == part
}

/// `part` occurs somewhere in `bytes`.
pub open spec fn has_part(bytes: Seq<u8>, part: Seq<u8>) -> bool {
    exists|at: int| occurs_at(bytes, part, at)
}

/// Both ends of `[from, to)` lie inside `bytes` and on character boundaries.
pub open spec fn valid_span(bytes: Seq<u8>, from: int, to: int) -> bool {
    0 <= from <= to <= bytes.len() && is_char_boundary(bytes, from) && is_char_boundary(bytes, to)
}

/// The text that the bytes `[from, to)` of `text` spell.
pub open spec fn span_text(text: Seq<char>, from: int, to: int) -> Seq<char> {
    decode_utf8(bytes_of(text).subrange(from, to))
}

/// Two texts with the same bytes are the same text.
pub proof fn lemma_bytes_determine_text(a: Seq<char>, b: Seq<char>)
    requires
        bytes_of(a) == bytes_of(b),
    ensures
        a == b,
{
    encode_utf8_decode_utf8(a);
    encode_utf8_decode_utf8(b);
}

/// The bytes of two texts put together are the bytes of the one followed by the bytes
/// of the other.
pub proof fn lemma_bytes_of_concat(a: Seq<char>, b: Seq<char>)
    ensures
        bytes_of(a + b) == bytes_of(a) + bytes_of(b),
    decreases a.len(),
{
    if a.len() == 0 {
        assert(a + b =~= b);
        assert(bytes_of(a) + bytes_of(b) =~= bytes_of(b));
    } else {
        lemma_bytes_of_concat(a.drop_first(), b);
        assert((a + b).drop_first() =~= a.drop_first() + b);
        assert((a + b)[0] == a[0]);
        assert(bytes_of(a + b) =~= bytes_of(a) + bytes_of(b));
    }
}

/// A character boundary of a text is one of each prefix that reaches it.
pub proof fn lemma_boundary_in_prefix(bytes: Seq<u8>, from: int, to: int)
    requires
        valid_utf8(bytes),
        valid_span(bytes, from, to),
    ensures
        valid_utf8(bytes.subrange(0, to)),
        is_char_boundary(bytes.subrange(0, to), from),
{
    valid_utf8_split(bytes, to);
    let head = bytes.subrange(0, to);
    if from == to {
        is_char_boundary_start_end_of_seq(head);
    } else {
        is_char_boundary_iff_not_is_continuation_byte(bytes, from);
        is_char_boundary_iff_not_is_continuation_byte(head, from);
    }
}

fn bytes_match(a: &[u8], at: usize, b: &[u8]) -> (r: bool)
    requires
        at + b@.len() <= a@.len(),
    ensures
        r == (a@.subrange(at as int, at + b@.len()) == b@),
{
    let n = b.len();
    let total = a.len();
    let mut i: usize = 0;
    while i < n
        invariant
            n == b@.len(),
            total == a@.len(),
            at + n <= a@.len(),
            0 <= i <= n,
            forall|k: int| 0 <= k < i ==> a@[at + k] == b@[k],
        decreases n - i,
    {
        if a[at + i] != b[i] {
            assert(a@.subrange(at as int, at + n)[i as int] != b@[i as int]);
            return false;
        }
        i = i + 1;
    }
    assert(a@.subrange(at as int, at + n) =~= b@);
    true
}

/// Whether two texts are equal.
pub fn str_eq(a: &str, b: &str) -> (r: bool)
    ensures
        r == (a@ == b@),
{
    let x = a.as_bytes();
    let y = b.as_bytes();
    if x.len() != y.len() {
        return false;
    }
    let same = bytes_match(x, 0, y);
    proof {
        assert(x@.subrange(0, x@.len() as int) =~= x@);
        if same {
            lemma_bytes_determine_text(a@, b@);
        }
    }
    same
}

/// Whether `text` begins with `prefix`.
pub fn starts_with(text: &str, prefix: &str) -> (r: bool)
    ensures
        r == has_prefix(bytes_of(text@), bytes_of(prefix@)),
{
    let x = text.as_bytes();
    let y = prefix.as_bytes();
    if y.len() > x.len() {
        return false;
    }
    bytes_match(x, 0, y)
}

/// Whether `text` ends with `suffix`.
pub fn ends_with(text: &str, suffix: &str) -> (r: bool)
    ensures
        r == has_suffix(bytes_of(text@), bytes_of(suffix@)),
{
    let x = text.as_bytes();
    let y = suffix.as_bytes();
    if y.len() > x.len() {
        return false;
    }
    bytes_match(x, x.len() - y.len(), y)
}

/// Whether `part` occurs in `text`.
pub fn contains(text: &str, part: &str) -> (r: bool)
    ensures
        r == has_part(bytes_of(text@), bytes_of(part@)),
{
    let x = text.as_bytes();
    let y = part.as_bytes();
    if y.len() > x.len() {
        assert(forall|at: int| !occurs_at(x@, y@, at));
        return false;
    }
    let total = x.len();
    let last = total - y.len();
    let mut at: usize = 0;
    while at < total && at <= last
        invariant
            x@ == bytes_of(text@),
            y@ == bytes_of(part@),
            total == x@.len(),
            last == x@.len() - y@.len(),
            0 <= at <= total,
            forall|k: int| 0 <= k < at ==> !occurs_at(x@, y@, k),
        decreases total - at,
    {
        if bytes_match(x, at, y) {
            assert(occurs_at(x@, y@, at as int));
            return true;
        }
        at = at + 1;
    }
    if at <= last {
        // only the empty part can start at the very end
        let found = bytes_match(x, at, y);
        assert(found == occurs_at(x@, y@, at as int));
        assert(forall|k: int| k != at ==> !occurs_at(x@, y@, k));
        assert(found == has_part(x@, y@));
        return found;
    }
    assert(forall|k: int| !occurs_at(x@, y@, k));
    false
}

/// Whether `[from, to)` can be cut out of `text`.
pub fn is_valid_span(text: &str, from: usize, to: usize) -> (r: bool)
    ensures
        r == valid_span(bytes_of(text@), from as int, to as int),
{
    let total = text.as_bytes().len();
    from <= to && to <= total && text.is_char_boundary(from) && text.is_char_boundary(to)
}

/// The part of `text` between the byte offsets `from` and `to`.
pub fn span<'a>(text: &'a str, from: usize, to: usize) -> (r: &'a str)
    requires
        valid_span(bytes_of(text@), from as int, to as int),
    ensures
        bytes_of(r@) == bytes_of(text@).subrange(from as int, to as int),
        r@ == span_text(text@, from as int, to as int),
{
    proof {
        encode_utf8_valid_utf8(text@);
        lemma_boundary_in_prefix(bytes_of(text@), from as int, to as int);
    }
    let (head, _) = text.split_at(to);
    let (_, part) = head.split_at(from);
    proof {
        assert(bytes_of(head@).subrange(from as int, to as int) =~= bytes_of(text@).subrange(
            from as int,
            to as int,
        ));
        encode_utf8_decode_utf8(part@);
    }
    part
}

pub const LINE_FEED: u8 = 10;

pub const CARRIAGE_RETURN: u8 = 13;

/// The first index at or after `i` that holds a line feed, or the end of `bytes`.
pub open spec fn line_end(bytes: Seq<u8>, i: int) -> int
    decreases bytes.len() - i,
{
    if 0 <= i < bytes.len() && bytes[i] != LINE_FEED {
        line_end(bytes, i + 1)
    } else {
        i
    }
}

/// A line without the carriage return that stood before its line feed.
pub open spec fn without_carriage_return(line: Seq<u8>) -> Seq<u8> {
    if line.len() > 0 && line.last() == CARRIAGE_RETURN {
        line.drop_last()
    } else {
        line
    }
}

/// The lines of `bytes` from offset `i` on. A line ends at a line feed, or at a carriage
/// return followed by one; neither belongs to the line. After the last line feed
/// only a non-empty rest counts as a line.
pub open spec fn lines_from(bytes: Seq<u8>, i: int) -> Seq<Seq<char>>
    decreases bytes.len() - i,
    via lines_from_decreases
{
    if 0 <= i < bytes.len() {
        let e = line_end(bytes, i);
        if e < bytes.len() {
            seq![decode_utf8(without_carriage_return(bytes.subrange(i, e)))] + lines_from(
                bytes,
                e + 1,
            )
        } else {
            seq![decode_utf8(bytes.subrange(i, e))]
        }
    } else {
        seq![]
    }
}

#[via_fn]
proof fn lines_from_decreases(bytes: Seq<u8>, i: int) {
    if 0 <= i < bytes.len() {
        lemma_line_end(bytes, i);
    }
}

/// The lines of a text.
pub open spec fn line_texts(source: Seq<char>) -> Seq<Seq<char>> {
    lines_from(bytes_of(source), 0)
}

/// Where a line ends: at the first line feed, with none before it.
pub proof fn lemma_line_end(bytes: Seq<u8>, i: int)
    requires
        0 <= i <= bytes.len(),
    ensures
        i <= line_end(bytes, i) <= bytes.len(),
        line_end(bytes, i) < bytes.len() ==> bytes[line_end(bytes, i)] == LINE_FEED,
        forall|k: int| i <= k < line_end(bytes, i) ==> bytes[k] != LINE_FEED,
    decreases bytes.len() - i,
{
    if i < bytes.len() && bytes[i] != LINE_FEED {
        lemma_line_end(bytes, i + 1);
    }
}

/// The offset after a one-byte character is a character boundary.
pub proof fn lemma_boundary_after_ascii(bytes: Seq<u8>, i: int)
    requires
        valid_utf8(bytes),
        0 <= i < bytes.len(),
        is_char_boundary(bytes, i),
        bytes[i] < 0x80,
    ensures
        is_char_boundary(bytes, i + 1),
    decreases bytes.len(),
{
    reveal_with_fuel(is_char_boundary, 2);
    let tail = pop_first_scalar(bytes);
    let width = length_of_first_scalar(bytes);
    if i == 0 {
        assert(width == 1);
        assert(is_char_boundary(tail, 0));
    } else {
        assert(is_char_boundary(tail, i - width));
        assert(i - width >= 0);
        assert(tail[i - width] == bytes[i]);
        lemma_boundary_after_ascii(tail, i - width);
    }
}

/// An offset that holds a one-byte character is a character boundary.
pub proof fn lemma_boundary_at_ascii(bytes: Seq<u8>, i: int)
    requires
        valid_utf8(bytes),
        0 <= i < bytes.len(),
        bytes[i] < 0x80,
    ensures
        is_char_boundary(bytes, i),
{
    is_char_boundary_iff_not_is_continuation_byte(bytes, i);
}

/// The lines of `source`, as `str::lines` gives them.
pub fn split_lines(source: &str) -> (r: Vec<String>)
    ensures
        r.deep_view() == line_texts(source@),
{
    let bytes = source.as_bytes();
    let n = bytes.len();
    let mut out: Vec<String> = Vec::new();
    let mut i: usize = 0;
    proof {
        encode_utf8_valid_utf8(source@);
        is_char_boundary_start_end_of_seq(bytes@);
        assert(out.deep_view() =~= Seq::<Seq<char>>::empty());
    }
    while i < n
        invariant
            bytes@ == bytes_of(source@),
            valid_utf8(bytes@),
            n == bytes@.len(),
            0 <= i <= n,
            is_char_boundary(bytes@, i as int),
            is_char_boundary(bytes@, n as int),
            out.deep_view() + lines_from(bytes@, i as int) == lines_from(bytes@, 0),
        decreases n - i,
    {
        let mut e: usize = i;
        while e < n && bytes[e] != LINE_FEED
            invariant
                n == bytes@.len(),
                i <= e <= n,
                line_end(bytes@, i as int) == line_end(bytes@, e as int),
            decreases n - e,
        {
            e = e + 1;
        }
        let ghost before = out.deep_view();
        if e < n {
            let stop = if e > i && bytes[e - 1] == CARRIAGE_RETURN {
                e - 1
            } else {
                e
            };
            proof {
                lemma_boundary_at_ascii(bytes@, e as int);
                lemma_boundary_after_ascii(bytes@, e as int);
                if stop < e {
                    lemma_boundary_at_ascii(bytes@, stop as int);
                }
                assert(bytes@.subrange(i as int, stop as int) =~= without_carriage_return(
                    bytes@.subrange(i as int, e as int),
                ));
            }
            let line = span(source, i, stop).to_owned();
            out.push(line);
            proof {
                assert(out.deep_view() =~= before.push(line@));
                assert(before.push(line@) + lines_from(bytes@, e + 1) =~= before + (seq![line@]
                    + lines_from(bytes@, e + 1)));
            }
            i = e + 1;
        } else {
            let line = span(source, i, n).to_owned();
            out.push(line);
            proof {
                assert(out.deep_view() =~= before.push(line@));
                assert(before.push(line@) + lines_from(bytes@, n as int) =~= before + seq![line@]);
            }
            i = n;
        }
    }
    proof {
        assert(out.deep_view() + lines_from(bytes@, n as int) =~= out.deep_view());
    }
    out
}

/// The lines above line `row`, at most `range` of them.
pub open spec fn context_before(lines: Seq<Seq<char>>, row: int, range: int) -> Seq<Seq<char>> {
    let stop = if row < lines.len() {
        row
    } else {
        lines.len() as int
    };
    let start = if row - range < 0 {
        0
    } else if row - range < stop {
        row - range
    } else {
        stop
    };
    lines.subrange(start, stop)
}

/// The lines below line `row`, at most `range` of them.
pub open spec fn context_after(lines: Seq<Seq<char>>, row: int, range: int) -> Seq<Seq<char>> {
    if row + 1 < lines.len() {
        let stop = if row + range + 1 < lines.len() {
            row + range + 1
        } else {
            lines.len() as int
        };
        lines.subrange(row + 1, stop)
    } else {
        seq![]
    }
}

/// A copy of the lines `[from, to)`.
pub fn copy_range(lines: &Vec<String>, from: usize, to: usize) -> (r: Vec<String>)
    requires
        from <= to <= lines.len(),
    ensures
        r.deep_view() == lines.deep_view().subrange(from as int, to as int),
{
    let mut out: Vec<String> = Vec::new();
    let mut i: usize = from;
    while i < to
        invariant
            from <= i <= to <= lines.len(),
            out.len() == i - from,
            forall|k: int| 0 <= k < out.len() ==> out[k]@ == lines[from + k]@,
        decreases to - i,
    {
        out.push(lines[i].clone());
        i = i + 1;
    }
    assert(out.deep_view() =~= lines.deep_view().subrange(from as int, to as int));
    out
}

/// The lines around line `line_idx`, which is counted from 0: up to `range` lines above
/// it and up to `range` lines below it, never the line itself.
pub fn get_context(lines: &Vec<String>, line_idx: usize, range: usize) -> (r: (
    Vec<String>,
    Vec<String>,
))
    ensures
        r.0.deep_view() == context_before(lines.deep_view(), line_idx as int, range as int),
        r.1.deep_view() == context_after(lines.deep_view(), line_idx as int, range as int),
{
    let total = lines.len();
    let stop = if line_idx < total {
        line_idx
    } else {
        total
    };
    let start = if line_idx < range {
        0
    } else if line_idx - range < stop {
        line_idx - range
    } else {
        stop
    };
    let before = copy_range(lines, start, stop);
    let after = if line_idx < total && line_idx + 1 < total {
        let end = if range < total - line_idx - 1 {
            line_idx + range + 1
        } else {
            total
        };
        copy_range(lines, line_idx + 1, end)
    } else {
        let empty: Vec<String> = Vec::new();
        assert(empty.deep_view() =~= Seq::<Seq<char>>::empty());
        empty
    };
    (before, after)
}

/// The text that `str::trim` returns for `text`: `text` without its leading and trailing
/// white space.
pub uninterp spec fn trimmed(text: Seq<char>) -> Seq<char>;

/// `str::trim` of std: the part of `text` that is left when leading and trailing white
/// space (Unicode `White_Space`) is removed. The contract only names the result.
#[verifier::external_body]
pub(crate) fn trim<'a>(text: &'a str) -> (r: &'a str)
    ensures
        r@ == trimmed(text@),
{
    text.trim()
}

} // verus!
