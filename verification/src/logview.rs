//! The log view of the interface: how output bytes become log text, how
//! much of a log is kept, and where the view scrolls.

use crate::text::{chars_of, extend, find_char, first_at, slice_of, text_of, texts};
use vstd::prelude::*;
use vstd::utf8::{decode_utf8, valid_utf8};

verus! {

/// Most lines of a log that are kept.
pub const MAX_LOG_LINES: usize = 2000;

/// Which stretch of a log the view shows.
#[derive(Clone, Copy, Debug, PartialEq, Eq)]
pub struct VisibleRange {
    /// Number of the first line shown, counted from 1.
    pub top: usize,
    /// Number of the last line shown.
    pub bottom: usize,
    /// How far through the log the last line shown is, in percent.
    pub percent: usize,
}

/// The text that `String::from_utf8_lossy` makes of bytes: the bytes
/// decoded as UTF-8, with a replacement character in place of whatever is
/// not valid.
pub uninterp spec fn lossy_text(bytes: Seq<u8>) -> Seq<char>;

/// `String::from_utf8_lossy`, as an owned string: the bytes as text, with
/// replacement characters for invalid sequences; valid UTF-8 is decoded
/// as it stands.
#[verifier::external_body]
fn decode_lossy(data: &[u8]) -> (r: String)
    ensures
        r@ == lossy_text(data@),
        valid_utf8(data@) ==> r@ == decode_utf8(data@),
{
    String::from_utf8_lossy(data).into_owned()
}

/// The text with every line ending made a line feed: a carriage return
/// directly before a line feed is dropped, any other becomes a line feed.
pub open spec fn unified_newlines(s: Seq<char>) -> Seq<char>
    decreases s.len(),
{
    if s.len() == 0 {
        Seq::empty()
    } else if s[0] == '\r' && s.len() > 1 && s[1] == '\n' {
        seq!['\n'] + unified_newlines(s.skip(2))
    } else if s[0] == '\r' {
        seq!['\n'] + unified_newlines(s.drop_first())
    } else {
        seq![s[0]] + unified_newlines(s.drop_first())
    }
}

/// A line without the carriage return that stood before its line feed.
pub open spec fn without_cr(line: Seq<char>) -> Seq<char> {
    if line.len() > 0 && line.last() == '\r' {
        line.drop_last()
    } else {
        line
    }
}

/// The lines of a text. A line ends at a line feed, which is left out
/// together with a carriage return directly before it; text after the last
/// line feed is a line of its own; an empty text has no line.
pub open spec fn text_lines(s: Seq<char>) -> Seq<Seq<char>>
    decreases s.len(),
{
    if s.len() == 0 {
        Seq::empty()
    } else {
        let k = first_at(s, '\n');
        if 0 <= k < s.len() {
            seq![without_cr(s.take(k))] + text_lines(s.skip(k + 1))
        } else {
            seq![s]
        }
    }
}

/// The lines joined by line feeds.
pub open spec fn joined_lines(lines: Seq<Seq<char>>) -> Seq<char>
    decreases lines.len(),
{
    if lines.len() == 0 {
        Seq::empty()
    } else if lines.len() == 1 {
        lines[0]
    } else {
        joined_lines(lines.drop_last()) + seq!['\n'] + lines.last()
    }
}

/// The log cut to its last `max_lines` lines: a log of more lines becomes
/// those lines joined by line feeds, any other stays as it is.
pub open spec fn capped(s: Seq<char>, max_lines: nat) -> Seq<char> {
    let lines = text_lines(s);
    if lines.len() > max_lines {
        joined_lines(lines.skip(lines.len() - max_lines))
    } else {
        s
    }
}

/// The furthest that a view of `view_height` lines scrolls into a log of
/// `line_count` lines. The count is taken modulo 65536.
pub open spec fn furthest_scroll(line_count: nat, view_height: u16) -> u16 {
    let shown = line_count % 0x10000;
    if shown <= view_height {
        0u16
    } else {
        (shown - view_height) as u16
    }
}

/// Where the view stands once output has arrived: at the end when it
/// follows the output or stood at or beyond the end, else where it stood.
pub open spec fn scroll_settled(scroll: u16, furthest: u16, follow: bool) -> u16 {
    if follow || scroll >= furthest {
        furthest
    } else {
        scroll
    }
}

/// The text of `text` with every line ending made a line feed.
pub fn normalize_newlines(text: &str) -> (r: String)
    ensures
        r@ == unified_newlines(text@),
{
    let all = chars_of(text);
    let n = all.len();
    let mut out: Vec<char> = Vec::new();
    let mut i: usize = 0;
    assert(all@.skip(0) =~= all@);
    while i < n
        invariant
            i <= n,
            n == all@.len(),
            unified_newlines(all@) == out@ + unified_newlines(all@.skip(i as int)),
        decreases n - i,
    {
        let ghost rest = all@.skip(i as int);
        let c = all[i];
        if c == '\r' && n - i > 1 && all[i + 1] == '\n' {
            out.push('\n');
            assert(rest.skip(2) =~= all@.skip(i + 2));
            i += 2;
        } else {
            let put = if c == '\r' {
                '\n'
            } else {
                c
            };
            out.push(put);
            assert(rest.drop_first() =~= all@.skip(i + 1));
            i += 1;
        }
    }
    text_of(&out)
}

/// The log text of a chunk of output: the bytes read as UTF-8, with a
/// replacement character for whatever is not, and every line ending made
/// a line feed.
pub fn sanitize_log_chunk(data: &[u8]) -> (r: String)
    ensures
        r@ == unified_newlines(lossy_text(data@)),
        valid_utf8(data@) ==> r@ == unified_newlines(decode_utf8(data@)),
{
    let text = decode_lossy(data);
    normalize_newlines(text.as_str())
}

/// The lines of `text`.
pub fn split_lines(text: &Vec<char>) -> (lines: Vec<Vec<char>>)
    ensures
        texts(lines@) == text_lines(text@),
{
    let n = text.len();
    let mut lines: Vec<Vec<char>> = Vec::new();
    let mut start: usize = 0;
    assert(text@.skip(0) =~= text@);
    while start < n
        invariant
            start <= n,
            n == text@.len(),
            text_lines(text@) == texts(lines@) + text_lines(text@.skip(start as int)),
        decreases n - start,
    {
        let ghost rest = text@.skip(start as int);
        let k = find_char(text, start, '\n');
        if k < n - start {
            let mut end = start + k;
            if end > start && text[end - 1] == '\r' {
                end = end - 1;
            }
            let line = slice_of(text, start, end);
            assert(line@ =~= without_cr(rest.take(k as int)));
            lines.push(line);
            assert(rest.skip(k + 1) =~= text@.skip(start + k + 1));
            start = start + k + 1;
        } else {
            let line = slice_of(text, start, n);
            lines.push(line);
            start = n;
        }
    }
    lines
}

/// Number of lines of `text`.
pub fn count_lines(text: &str) -> (count: usize)
    ensures
        count == text_lines(text@).len(),
{
    let chars = chars_of(text);
    split_lines(&chars).len()
}

/// The log cut to its last `max_lines` lines.
pub fn cap_lines(text: &str, max_lines: usize) -> (r: String)
    ensures
        r@ == capped(text@, max_lines as nat),
{
    let chars = chars_of(text);
    let lines = split_lines(&chars);
    let count = lines.len();
    if count <= max_lines {
        return text_of(&chars);
    }
    let first = count - max_lines;
    let ghost kept = texts(lines@).skip(first as int);
    let mut out: Vec<char> = Vec::new();
    let mut i: usize = first;
    while i < count
        invariant
            first <= i <= count,
            count == lines@.len(),
            kept == texts(lines@).skip(first as int),
            out@ == joined_lines(kept.take(i - first)),
        decreases count - i,
    {
        let ghost seen = kept.take(i - first);
        let ghost now = kept.take(i - first + 1);
        assert(now.drop_last() =~= seen);
        if i > first {
            out.push('\n');
        }
        extend(&mut out, &lines[i]);
        i += 1;
    }
    assert(kept.take(count - first) =~= kept);
    text_of(&out)
}

/// The furthest that a view of `view_height` lines scrolls into a log of
/// `line_count` lines.
pub fn max_scroll(line_count: usize, view_height: u16) -> (furthest: u16)
    ensures
        furthest == furthest_scroll(line_count as nat, view_height),
{
    let shown: u16 = (line_count % 0x10000) as u16;
    if shown <= view_height {
        0
    } else {
        shown - view_height
    }
}

/// Where the view stands once output has arrived.
pub fn settle_scroll(scroll: u16, furthest: u16, follow: bool) -> (r: u16)
    ensures
        r == scroll_settled(scroll, furthest, follow),
{
    if follow || scroll >= furthest {
        furthest
    } else {
        scroll
    }
}

/// The view scrolled `by` lines towards the end, no further than
/// `furthest`.
pub fn scroll_down(scroll: u16, by: u16, furthest: u16) -> (r: u16)
    ensures
        r == if scroll + by <= furthest {
            (scroll + by) as u16
        } else {
            furthest
        },
{
    if by <= furthest && scroll <= furthest - by {
        scroll + by
    } else {
        furthest
    }
}

/// The view scrolled `by` lines towards the start, no further than the
/// first line.
pub fn scroll_up(scroll: u16, by: u16) -> (r: u16)
    ensures
        r == if scroll >= by {
            (scroll - by) as u16
        } else {
            0u16
        },
{
    if scroll >= by {
        scroll - by
    } else {
        0
    }
}

/// Takes a chunk of output into a log and lets the view follow: the chunk
/// is made log text and appended, the log is cut to its last
/// `MAX_LOG_LINES` lines, and the view settles at the end when it follows
/// the output or stood at or beyond the end.
pub fn refresh_log(logs: &mut String, scroll: &mut u16, data: &[u8], view_height: u16, follow: bool)
    ensures
        final(logs)@ == capped(
            old(logs)@ + unified_newlines(lossy_text(data@)),
            MAX_LOG_LINES as nat,
        ),
        *final(scroll) == scroll_settled(
            *old(scroll),
            furthest_scroll(text_lines(final(logs)@).len(), view_height),
            follow,
        ),
{
    let chunk = sanitize_log_chunk(data);
    let mut all = chars_of(logs.as_str());
    let more = chars_of(chunk.as_str());
    extend(&mut all, &more);
    let joined = text_of(&all);
    *logs = cap_lines(joined.as_str(), MAX_LOG_LINES);
    let count = count_lines(logs.as_str());
    *scroll = settle_scroll(*scroll, max_scroll(count, view_height), follow);
}

/// Which stretch of a log of `line_count` lines a view of `height` lines
/// shows when it stands at `scroll`, and how far through the log that is.
pub fn visible_range(scroll: u16, height: u16, line_count: usize) -> (r: VisibleRange)
    ensures
        r.top == scroll + 1,
        r.bottom == if scroll + height <= line_count {
            (scroll + height) as usize
        } else {
            line_count
        },
        r.percent == if line_count == 0 {
            0
        } else {
            (r.bottom * 100) / (line_count as int)
        },
        r.percent <= 100,
{
    let reach: u32 = scroll as u32 + height as u32;
    let bottom: usize = if (reach as u64) <= (line_count as u64) {
        reach as usize
    } else {
        line_count
    };
    let percent: usize = if line_count == 0 {
        0
    } else {
        let p: u128 = (bottom as u128 * 100) / (line_count as u128);
        assert(p <= 100) by (nonlinear_arith)
            requires
                p == (bottom as int * 100) / (line_count as int),
                bottom <= line_count,
                line_count > 0,
        ;
        p as usize
    };
    VisibleRange { top: scroll as usize + 1, bottom: bottom, percent: percent }
}

} // verus!
