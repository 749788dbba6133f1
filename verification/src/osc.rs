//! Incremental scanner for terminal title sequences:
//! `ESC ] ('0' | '2') ; payload BEL`. It is fed the output stream chunk by
//! chunk and hands out the payload of every sequence that a chunk completes.

use crate::text::strings_view;
use vstd::prelude::*;
use vstd::utf8::{decode_utf8, valid_utf8};

verus! {

/// Most bytes of a payload that are kept; the rest of a longer payload is
/// dropped while the scan goes on to the terminator.
pub const OSC_TITLE_LIMIT: usize = 2048;

/// Where the scanner stands within a title sequence.
#[derive(Clone, Copy, Debug, PartialEq, Eq)]
pub enum OscState {
    /// Outside any sequence.
    Idle,
    /// After `ESC`.
    Esc,
    /// After `ESC ]`.
    Osc,
    /// After `ESC ]` and the code `0` or `2`.
    OscCode,
    /// Inside the payload.
    Collect,
}

/// What a scanner holds: its place in a sequence and the payload gathered.
pub struct OscModel {
    pub state: OscState,
    pub buf: Seq<u8>,
}

/// The scanner.
pub struct OscParser {
    state: OscState,
    buf: Vec<u8>,
}

impl View for OscParser {
    type V = OscModel;

    closed spec fn view(&self) -> OscModel {
        OscModel { state: self.state, buf: self.buf@ }
    }
}

/// The scanner after the byte `b`.
pub open spec fn osc_next(p: OscModel, b: u8) -> OscModel {
    match p.state {
        OscState::Idle => if b == 0x1b {
            OscModel { state: OscState::Esc, ..p }
        } else {
            p
        },
        OscState::Esc => if b == 0x5d {
            OscModel { state: OscState::Osc, ..p }
        } else if b != 0x1b {
            OscModel { state: OscState::Idle, ..p }
        } else {
            p
        },
        OscState::Osc => if b == 0x30 || b == 0x32 {
            OscModel { state: OscState::OscCode, ..p }
        } else {
            OscModel { state: OscState::Idle, ..p }
        },
        OscState::OscCode => if b == 0x3b {
            OscModel { state: OscState::Collect, buf: Seq::empty() }
        } else {
            OscModel { state: OscState::Idle, ..p }
        },
        OscState::Collect => if b == 0x07 {
            OscModel { state: OscState::Idle, buf: Seq::empty() }
        } else if p.buf.len() < OSC_TITLE_LIMIT {
            OscModel { buf: p.buf.push(b), ..p }
        } else {
            p
        },
    }
}

/// The payload that the byte `b` completes, if it completes one.
pub open spec fn osc_completed(p: OscModel, b: u8) -> Option<Seq<u8>> {
    if p.state == OscState::Collect && b == 0x07 {
        Some(p.buf)
    } else {
        None
    }
}

/// The scanner after the bytes `data`.
pub open spec fn osc_fed(p: OscModel, data: Seq<u8>) -> OscModel
    decreases data.len(),
{
    if data.len() == 0 {
        p
    } else {
        osc_next(osc_fed(p, data.drop_last()), data.last())
    }
}

/// The payloads that the bytes `data` complete, in order.
pub open spec fn osc_payloads(p: OscModel, data: Seq<u8>) -> Seq<Seq<u8>>
    decreases data.len(),
{
    if data.len() == 0 {
        Seq::empty()
    } else {
        let before = osc_payloads(p, data.drop_last());
        match osc_completed(osc_fed(p, data.drop_last()), data.last()) {
            Some(payload) => before.push(payload),
            None => before,
        }
    }
}

/// The payloads that are valid UTF-8, decoded, in order; the others are
/// left out.
pub open spec fn decoded_titles(payloads: Seq<Seq<u8>>) -> Seq<Seq<char>>
    decreases payloads.len(),
{
    if payloads.len() == 0 {
        Seq::empty()
    } else {
        let before = decoded_titles(payloads.drop_last());
        if valid_utf8(payloads.last()) {
            before.push(decode_utf8(payloads.last()))
        } else {
            before
        }
    }
}

/// The titles that the bytes `data` complete, in order.
pub open spec fn osc_titles(p: OscModel, data: Seq<u8>) -> Seq<Seq<char>> {
    decoded_titles(osc_payloads(p, data))
}

/// Decoding goes payload by payload.
pub proof fn lemma_decoded_concat(a: Seq<Seq<u8>>, b: Seq<Seq<u8>>)
    ensures
        decoded_titles(a + b) == decoded_titles(a) + decoded_titles(b),
    decreases b.len(),
{
    if b.len() > 0 {
        lemma_decoded_concat(a, b.drop_last());
        assert((a + b).drop_last() =~= a + b.drop_last());
    }
}

/// However the stream is cut into chunks, the scanner ends in the same
/// state and completes the same titles: feeding `a` and then `b` is feeding
/// `a + b`.
pub proof fn lemma_feed_in_chunks(p: OscModel, a: Seq<u8>, b: Seq<u8>)
    ensures
        osc_fed(osc_fed(p, a), b) == osc_fed(p, a + b),
        osc_payloads(p, a) + osc_payloads(osc_fed(p, a), b) == osc_payloads(p, a + b),
        osc_titles(p, a) + osc_titles(osc_fed(p, a), b) == osc_titles(p, a + b),
    decreases b.len(),
{
    if b.len() > 0 {
        lemma_feed_in_chunks(p, a, b.drop_last());
        assert((a + b).drop_last() =~= a + b.drop_last());
    }
    lemma_decoded_concat(osc_payloads(p, a), osc_payloads(osc_fed(p, a), b));
}

/// The scanner never holds more than the payload limit.
pub proof fn lemma_fed_within_limit(p: OscModel, data: Seq<u8>)
    requires
        p.buf.len() <= OSC_TITLE_LIMIT,
    ensures
        osc_fed(p, data).buf.len() <= OSC_TITLE_LIMIT,
    decreases data.len(),
{
    if data.len() > 0 {
        lemma_fed_within_limit(p, data.drop_last());
    }
}

/// A byte sequence that is not UTF-8.
#[verifier::external_type_specification]
#[verifier::external_body]
pub struct ExUtf8Error(std::str::Utf8Error);

/// `std::str::from_utf8`: the bytes as text when they are valid UTF-8, an
/// error when they are not.
#[verifier::external_body]
fn utf8_text<'a>(bytes: &'a [u8]) -> (r: Result<&'a str, std::str::Utf8Error>)
    ensures
        r is Ok <==> valid_utf8(bytes@),
        r matches Ok(s) ==> s@ == decode_utf8(bytes@),
{
    std::str::from_utf8(bytes)
}

impl OscParser {
    /// Holds of every scanner that `new` made, whatever it was fed: the
    /// payload gathered is within the limit.
    pub closed spec fn wf(&self) -> bool {
        self.buf@.len() <= OSC_TITLE_LIMIT
    }

    /// A scanner outside any sequence.
    pub fn new() -> (p: Self)
        ensures
            p.wf(),
            p@ == (OscModel { state: OscState::Idle, buf: Seq::empty() }),
    {
        Self { state: OscState::Idle, buf: Vec::new() }
    }

    /// Where the scanner stands.
    pub fn state(&self) -> (s: OscState)
        ensures
            s == self@.state,
    {
        self.state
    }

    /// Takes one byte; hands out the title that it completes, if any.
    fn step(&mut self, b: u8) -> (title: Option<String>)
        requires
            old(self).wf(),
        ensures
            final(self).wf(),
            final(self)@ == osc_next(old(self)@, b),
            match osc_completed(old(self)@, b) {
                Some(payload) => if valid_utf8(payload) {
                    title matches Some(t) && t@ == decode_utf8(payload)
                } else {
                    title is None
                },
                None => title is None,
            },
    {
        let state = self.state;
        let mut title: Option<String> = None;
        match state {
            OscState::Idle => {
                if b == 0x1b {
                    self.state = OscState::Esc;
                }
            },
            OscState::Esc => {
                if b == 0x5d {
                    self.state = OscState::Osc;
                } else if b != 0x1b {
                    self.state = OscState::Idle;
                }
            },
            OscState::Osc => {
                if b == 0x30 || b == 0x32 {
                    self.state = OscState::OscCode;
                } else {
                    self.state = OscState::Idle;
                }
            },
            OscState::OscCode => {
                if b == 0x3b {
                    self.buf.clear();
                    self.state = OscState::Collect;
                } else {
                    self.state = OscState::Idle;
                }
            },
            OscState::Collect => {
                if b == 0x07 {
                    match utf8_text(self.buf.as_slice()) {
                        Ok(text) => {
                            title = Some(text.to_owned());
                        },
                        Err(_) => {},
                    }
                    self.buf.clear();
                    self.state = OscState::Idle;
                } else if self.buf.len() < OSC_TITLE_LIMIT {
                    self.buf.push(b);
                }
            },
        }
        title
    }

    /// Feeds `data` to the scanner and appends to `titles` the payload of
    /// every title sequence that `data` completes, decoded as UTF-8, in
    /// order. A payload that is not valid UTF-8 is dropped. A sequence may
    /// begin in one chunk and end in a later one.
    pub fn collect_titles(&mut self, data: &[u8], titles: &mut Vec<String>)
        requires
            old(self).wf(),
        ensures
            final(self).wf(),
            final(self)@ == osc_fed(old(self)@, data@),
            strings_view(final(titles)@) == strings_view(old(titles)@) + osc_titles(
                old(self)@,
                data@,
            ),
    {
        let n = data.len();
        let mut i: usize = 0;
        while i < n
            invariant
                i <= n,
                n == data@.len(),
                self.wf(),
                self@ == osc_fed(old(self)@, data@.take(i as int)),
                strings_view(titles@) == strings_view(old(titles)@) + osc_titles(
                    old(self)@,
                    data@.take(i as int),
                ),
            decreases n - i,
        {
            let ghost seen = data@.take(i as int);
            let ghost now = data@.take(i + 1);
            let ghost had = strings_view(titles@);
            assert(now.drop_last() =~= seen);
            proof {
                let before = osc_payloads(old(self)@, seen);
                match osc_completed(osc_fed(old(self)@, seen), data@[i as int]) {
                    Some(payload) => {
                        assert(before.push(payload).drop_last() =~= before);
                    },
                    None => {},
                }
            }
            match self.step(data[i]) {
                Some(t) => {
                    titles.push(t);
                    assert(strings_view(titles@) =~= had.push(t@));
                },
                None => {},
            }
            i += 1;
        }
        assert(data@.take(n as int) =~= data@);
    }
}

} // verus!
