//! Turns text interleaved with SGR escape sequences (`ESC [ params m`) into
//! lines of styled runs. One style accumulator is carried through the text.

use crate::text::{chars_of, find_char, first_at, i64_of, parse_i64, slice_of, split, split_on, text_of, texts};
use vstd::prelude::*;

verus! {

/// A display colour: the sixteen named ones, a palette index, or direct RGB.
#[derive(Clone, Copy, Debug, PartialEq, Eq)]
pub enum Color {
    Black,
    Red,
    Green,
    Yellow,
    Blue,
    Magenta,
    Cyan,
    Gray,
    DarkGray,
    LightRed,
    LightGreen,
    LightYellow,
    LightBlue,
    LightMagenta,
    LightCyan,
    White,
    Indexed(u8),
    Rgb(u8, u8, u8),
}

/// A text attribute that SGR can switch on and off.
#[derive(Clone, Copy, Debug, PartialEq, Eq)]
pub enum Attribute {
    Bold,
    Dim,
    Italic,
    Underlined,
    Reversed,
    CrossedOut,
}

/// A set of text attributes.
#[derive(Clone, Copy, Debug, PartialEq, Eq)]
pub struct Modifiers {
    pub bold: bool,
    pub dim: bool,
    pub italic: bool,
    pub underlined: bool,
    pub reversed: bool,
    pub crossed_out: bool,
}

/// The style accumulator: colours, the attributes switched on, and the
/// attributes switched off explicitly. No attribute is in both sets.
#[derive(Clone, Copy, Debug, PartialEq, Eq)]
pub struct Style {
    pub fg: Option<Color>,
    pub bg: Option<Color>,
    pub add_modifier: Modifiers,
    pub sub_modifier: Modifiers,
}

/// A run of text in one style.
#[derive(Clone, Debug, PartialEq, Eq)]
pub struct StyledRun {
    pub text: String,
    pub style: Style,
}

/// What a `StyledRun` holds.
pub struct RunModel {
    pub text: Seq<char>,
    pub style: Style,
}

impl View for StyledRun {
    type V = RunModel;

    open spec fn view(&self) -> RunModel {
        RunModel { text: self.text@, style: self.style }
    }
}

/// What a list of runs holds.
pub open spec fn runs_view(runs: Seq<StyledRun>) -> Seq<RunModel> {
    Seq::new(runs.len(), |i: int| runs[i]@)
}

/// What a list of lines of runs holds.
pub open spec fn lines_view(lines: Seq<Vec<StyledRun>>) -> Seq<Seq<RunModel>> {
    Seq::new(lines.len(), |i: int| runs_view(lines[i]@))
}

impl Modifiers {
    /// The empty set.
    pub open spec fn nothing() -> Modifiers {
        Modifiers {
            bold: false,
            dim: false,
            italic: false,
            underlined: false,
            reversed: false,
            crossed_out: false,
        }
    }

    /// Whether `attr` is in the set.
    pub open spec fn has(self, attr: Attribute) -> bool {
        match attr {
            Attribute::Bold => self.bold,
            Attribute::Dim => self.dim,
            Attribute::Italic => self.italic,
            Attribute::Underlined => self.underlined,
            Attribute::Reversed => self.reversed,
            Attribute::CrossedOut => self.crossed_out,
        }
    }

    /// The set with `attr` put in (`on`) or taken out.
    pub open spec fn put(self, attr: Attribute, on: bool) -> Modifiers {
        match attr {
            Attribute::Bold => Modifiers { bold: on, ..self },
            Attribute::Dim => Modifiers { dim: on, ..self },
            Attribute::Italic => Modifiers { italic: on, ..self },
            Attribute::Underlined => Modifiers { underlined: on, ..self },
            Attribute::Reversed => Modifiers { reversed: on, ..self },
            Attribute::CrossedOut => Modifiers { crossed_out: on, ..self },
        }
    }

    /// The empty set.
    pub fn empty() -> (m: Modifiers)
        ensures
            m == Modifiers::nothing(),
    {
        Modifiers {
            bold: false,
            dim: false,
            italic: false,
            underlined: false,
            reversed: false,
            crossed_out: false,
        }
    }

    /// Whether `attr` is in the set.
    pub fn contains(&self, attr: Attribute) -> (b: bool)
        ensures
            b == self.has(attr),
    {
        match attr {
            Attribute::Bold => self.bold,
            Attribute::Dim => self.dim,
            Attribute::Italic => self.italic,
            Attribute::Underlined => self.underlined,
            Attribute::Reversed => self.reversed,
            Attribute::CrossedOut => self.crossed_out,
        }
    }

    /// The set with `attr` put in (`on`) or taken out.
    pub fn with(self, attr: Attribute, on: bool) -> (m: Modifiers)
        ensures
            m == self.put(attr, on),
    {
        let mut m = self;
        match attr {
            Attribute::Bold => {
                m.bold = on;
            },
            Attribute::Dim => {
                m.dim = on;
            },
            Attribute::Italic => {
                m.italic = on;
            },
            Attribute::Underlined => {
                m.underlined = on;
            },
            Attribute::Reversed => {
                m.reversed = on;
            },
            Attribute::CrossedOut => {
                m.crossed_out = on;
            },
        }
        m
    }
}

impl Style {
    /// The default style: no colours, no attribute on or off.
    pub open spec fn plain() -> Style {
        Style {
            fg: None,
            bg: None,
            add_modifier: Modifiers::nothing(),
            sub_modifier: Modifiers::nothing(),
        }
    }

    /// The style with `attr` switched on.
    pub open spec fn switched_on(self, attr: Attribute) -> Style {
        Style {
            add_modifier: self.add_modifier.put(attr, true),
            sub_modifier: self.sub_modifier.put(attr, false),
            ..self
        }
    }

    /// The style with `attr` switched off.
    pub open spec fn switched_off(self, attr: Attribute) -> Style {
        Style {
            add_modifier: self.add_modifier.put(attr, false),
            sub_modifier: self.sub_modifier.put(attr, true),
            ..self
        }
    }

    /// The style with the foreground (`is_fg`) or the background set.
    pub open spec fn coloured(self, is_fg: bool, color: Option<Color>) -> Style {
        if is_fg {
            Style { fg: color, ..self }
        } else {
            Style { bg: color, ..self }
        }
    }

    /// No attribute is switched both on and off.
    pub open spec fn consistent(self) -> bool {
        forall|attr: Attribute| !(self.add_modifier.has(attr) && self.sub_modifier.has(attr))
    }

    /// The style with `attr` switched on.
    pub fn add_modifier(self, attr: Attribute) -> (s: Style)
        ensures
            s == self.switched_on(attr),
    {
        Style {
            fg: self.fg,
            bg: self.bg,
            add_modifier: self.add_modifier.with(attr, true),
            sub_modifier: self.sub_modifier.with(attr, false),
        }
    }

    /// The style with `attr` switched off.
    pub fn remove_modifier(self, attr: Attribute) -> (s: Style)
        ensures
            s == self.switched_off(attr),
    {
        Style {
            fg: self.fg,
            bg: self.bg,
            add_modifier: self.add_modifier.with(attr, false),
            sub_modifier: self.sub_modifier.with(attr, true),
        }
    }

    /// The style with the foreground (`is_fg`) or the background set.
    pub fn with_color(self, is_fg: bool, color: Option<Color>) -> (s: Style)
        ensures
            s == self.coloured(is_fg, color),
    {
        if is_fg {
            Style { fg: color, bg: self.bg, add_modifier: self.add_modifier, sub_modifier: self.sub_modifier }
        } else {
            Style { fg: self.fg, bg: color, add_modifier: self.add_modifier, sub_modifier: self.sub_modifier }
        }
    }
}

impl Default for Style {
    fn default() -> (s: Style)
        ensures
            s == Style::plain(),
    {
        Style {
            fg: None,
            bg: None,
            add_modifier: Modifiers::empty(),
            sub_modifier: Modifiers::empty(),
        }
    }
}

/// `value` forced into `0..=255`.
pub open spec fn clamped(value: int) -> u8 {
    if value < 0 {
        0u8
    } else if value > 255 {
        255u8
    } else {
        value as u8
    }
}

/// The named colour of a foreground code `30..=37` or `90..=97`.
pub open spec fn named_color(code: int) -> Option<Color> {
    if code == 30 {
        Some(Color::Black)
    } else if code == 31 {
        Some(Color::Red)
    } else if code == 32 {
        Some(Color::Green)
    } else if code == 33 {
        Some(Color::Yellow)
    } else if code == 34 {
        Some(Color::Blue)
    } else if code == 35 {
        Some(Color::Magenta)
    } else if code == 36 {
        Some(Color::Cyan)
    } else if code == 37 {
        Some(Color::Gray)
    } else if code == 90 {
        Some(Color::DarkGray)
    } else if code == 91 {
        Some(Color::LightRed)
    } else if code == 92 {
        Some(Color::LightGreen)
    } else if code == 93 {
        Some(Color::LightYellow)
    } else if code == 94 {
        Some(Color::LightBlue)
    } else if code == 95 {
        Some(Color::LightMagenta)
    } else if code == 96 {
        Some(Color::LightCyan)
    } else if code == 97 {
        Some(Color::White)
    } else {
        None
    }
}

/// The style after one parameter that stands alone. The extended colour
/// introducers `38` and `48` change nothing here, nor does a number that SGR
/// gives no meaning.
pub open spec fn code_applied(style: Style, code: int) -> Style {
    if code == 0 {
        Style::plain()
    } else if code == 1 {
        style.switched_on(Attribute::Bold)
    } else if code == 2 {
        style.switched_on(Attribute::Dim)
    } else if code == 3 {
        style.switched_on(Attribute::Italic)
    } else if code == 4 {
        style.switched_on(Attribute::Underlined)
    } else if code == 7 {
        style.switched_on(Attribute::Reversed)
    } else if code == 9 {
        style.switched_on(Attribute::CrossedOut)
    } else if code == 22 {
        style.switched_off(Attribute::Bold).switched_off(Attribute::Dim)
    } else if code == 23 {
        style.switched_off(Attribute::Italic)
    } else if code == 24 {
        style.switched_off(Attribute::Underlined)
    } else if code == 27 {
        style.switched_off(Attribute::Reversed)
    } else if code == 29 {
        style.switched_off(Attribute::CrossedOut)
    } else if (30 <= code <= 37) || (90 <= code <= 97) {
        style.coloured(true, named_color(code))
    } else if (40 <= code <= 47) || (100 <= code <= 107) {
        style.coloured(false, named_color(code - 10))
    } else if code == 39 {
        style.coloured(true, None)
    } else if code == 49 {
        style.coloured(false, None)
    } else {
        style
    }
}

/// Whether an indexed colour (`38;5;N` or `48;5;N`) starts at `i`.
pub open spec fn indexed_at(codes: Seq<i64>, i: int) -> bool {
    (codes[i] == 38 || codes[i] == 48) && i + 2 < codes.len() && codes[i + 1] == 5
}

/// Whether a direct colour (`38;2;R;G;B` or `48;2;R;G;B`) starts at `i`.
pub open spec fn rgb_at(codes: Seq<i64>, i: int) -> bool {
    (codes[i] == 38 || codes[i] == 48) && i + 4 < codes.len() && codes[i + 1] == 2
}

/// The style after the parameters `codes[i..]`, left to right.
pub open spec fn codes_applied(codes: Seq<i64>, i: int, style: Style) -> Style
    decreases codes.len() - i,
{
    if i < 0 || i >= codes.len() {
        style
    } else if indexed_at(codes, i) {
        codes_applied(
            codes,
            i + 3,
            style.coloured(codes[i] == 38, Some(Color::Indexed(clamped(codes[i + 2] as int)))),
        )
    } else if rgb_at(codes, i) {
        codes_applied(
            codes,
            i + 5,
            style.coloured(
                codes[i] == 38,
                Some(
                    Color::Rgb(
                        clamped(codes[i + 2] as int),
                        clamped(codes[i + 3] as int),
                        clamped(codes[i + 4] as int),
                    ),
                ),
            ),
        )
    } else {
        codes_applied(codes, i + 1, code_applied(style, codes[i] as int))
    }
}

/// The numbers among `parts`, in order; a part that is no number is skipped.
pub open spec fn numbers_of(parts: Seq<Seq<char>>) -> Seq<i64>
    decreases parts.len(),
{
    if parts.len() == 0 {
        Seq::empty()
    } else {
        match i64_of(parts.last()) {
            Some(n) => numbers_of(parts.drop_last()).push(n),
            None => numbers_of(parts.drop_last()),
        }
    }
}

/// The parameters that the text between `ESC [` and `m` writes: a lone `0`
/// when it is empty, else its `;`-separated numbers.
pub open spec fn sgr_codes(sequence: Seq<char>) -> Seq<i64> {
    if sequence.len() == 0 {
        seq![0i64]
    } else {
        numbers_of(split_on(sequence, ';'))
    }
}

/// The style after the SGR sequence whose parameter text is `sequence`.
pub open spec fn sgr_applied(sequence: Seq<char>, style: Style) -> Style {
    codes_applied(sgr_codes(sequence), 0, style)
}

/// `value` forced into `0..=255`.
pub fn clamp_u8(value: i64) -> (r: u8)
    ensures
        r == clamped(value as int),
{
    if value < 0 {
        0
    } else if value > 255 {
        255
    } else {
        value as u8
    }
}

/// The named colour of a foreground code; `None` for any other number.
pub fn ansi_color(code: i64) -> (r: Option<Color>)
    ensures
        r == named_color(code as int),
{
    if code == 30 {
        Some(Color::Black)
    } else if code == 31 {
        Some(Color::Red)
    } else if code == 32 {
        Some(Color::Green)
    } else if code == 33 {
        Some(Color::Yellow)
    } else if code == 34 {
        Some(Color::Blue)
    } else if code == 35 {
        Some(Color::Magenta)
    } else if code == 36 {
        Some(Color::Cyan)
    } else if code == 37 {
        Some(Color::Gray)
    } else if code == 90 {
        Some(Color::DarkGray)
    } else if code == 91 {
        Some(Color::LightRed)
    } else if code == 92 {
        Some(Color::LightGreen)
    } else if code == 93 {
        Some(Color::LightYellow)
    } else if code == 94 {
        Some(Color::LightBlue)
    } else if code == 95 {
        Some(Color::LightMagenta)
    } else if code == 96 {
        Some(Color::LightCyan)
    } else if code == 97 {
        Some(Color::White)
    } else {
        None
    }
}

/// The style after one parameter that stands alone.
pub fn apply_code(style: Style, code: i64) -> (r: Style)
    ensures
        r == code_applied(style, code as int),
{
    if code == 0 {
        Style::default()
    } else if code == 1 {
        style.add_modifier(Attribute::Bold)
    } else if code == 2 {
        style.add_modifier(Attribute::Dim)
    } else if code == 3 {
        style.add_modifier(Attribute::Italic)
    } else if code == 4 {
        style.add_modifier(Attribute::Underlined)
    } else if code == 7 {
        style.add_modifier(Attribute::Reversed)
    } else if code == 9 {
        style.add_modifier(Attribute::CrossedOut)
    } else if code == 22 {
        style.remove_modifier(Attribute::Bold).remove_modifier(Attribute::Dim)
    } else if code == 23 {
        style.remove_modifier(Attribute::Italic)
    } else if code == 24 {
        style.remove_modifier(Attribute::Underlined)
    } else if code == 27 {
        style.remove_modifier(Attribute::Reversed)
    } else if code == 29 {
        style.remove_modifier(Attribute::CrossedOut)
    } else if (30 <= code && code <= 37) || (90 <= code && code <= 97) {
        style.with_color(true, ansi_color(code))
    } else if (40 <= code && code <= 47) || (100 <= code && code <= 107) {
        style.with_color(false, ansi_color(code - 10))
    } else if code == 39 {
        style.with_color(true, None)
    } else if code == 49 {
        style.with_color(false, None)
    } else {
        style
    }
}

/// The numbers among `parts`, in order.
pub fn parse_codes(parts: &Vec<Vec<char>>) -> (codes: Vec<i64>)
    ensures
        codes@ == numbers_of(texts(parts@)),
{
    let mut codes: Vec<i64> = Vec::new();
    let mut i: usize = 0;
    while i < parts.len()
        invariant
            i <= parts@.len(),
            codes@ == numbers_of(texts(parts@).take(i as int)),
        decreases parts@.len() - i,
    {
        let ghost before = texts(parts@).take(i as int);
        let ghost now = texts(parts@).take(i + 1);
        assert(now.drop_last() =~= before);
        match parse_i64(&parts[i]) {
            Some(n) => {
                codes.push(n);
            },
            None => {},
        }
        i += 1;
    }
    assert(texts(parts@).take(parts@.len() as int) =~= texts(parts@));
    codes
}

/// Applies the parameters `codes` to `style`, left to right. An extended
/// colour takes its following parameters with it; one that lacks them
/// changes nothing, and the scan goes on with the next parameter.
pub fn apply_codes(codes: &Vec<i64>, style: &mut Style)
    ensures
        *final(style) == codes_applied(codes@, 0, *old(style)),
{
    let n = codes.len();
    let mut index: usize = 0;
    while index < n
        invariant
            index <= n + 4,
            n == codes@.len(),
            codes_applied(codes@, 0, *old(style)) == codes_applied(codes@, index as int, *style),
        decreases n + 4 - index,
    {
        let code = codes[index];
        if (code == 38 || code == 48) && n - index > 2 && codes[index + 1] == 5 {
            let color = Color::Indexed(clamp_u8(codes[index + 2]));
            *style = style.with_color(code == 38, Some(color));
            index += 3;
        } else if (code == 38 || code == 48) && n - index > 4 && codes[index + 1] == 2 {
            let r = clamp_u8(codes[index + 2]);
            let g = clamp_u8(codes[index + 3]);
            let b = clamp_u8(codes[index + 4]);
            *style = style.with_color(code == 38, Some(Color::Rgb(r, g, b)));
            index += 5;
        } else {
            *style = apply_code(*style, code);
            index += 1;
        }
    }
}

/// Applies the SGR sequence whose parameter text is `sequence` to `style`.
pub fn apply_sgr_chars(sequence: &Vec<char>, style: &mut Style)
    ensures
        *final(style) == sgr_applied(sequence@, *old(style)),
{
    let mut codes: Vec<i64> = Vec::new();
    if sequence.len() == 0 {
        codes.push(0);
    } else {
        let parts = split(sequence, ';');
        codes = parse_codes(&parts);
    }
    apply_codes(&codes, style);
}

/// Applies the SGR sequence whose parameter text is `sequence` (what stands
/// between `ESC [` and `m`) to `style`.
pub fn apply_sgr(sequence: &str, style: &mut Style)
    ensures
        *final(style) == sgr_applied(sequence@, *old(style)),
{
    let chars = chars_of(sequence);
    apply_sgr_chars(&chars, style);
}

/// What the scanner has gathered so far: the lines that are complete, the
/// runs of the line in progress, the text of the run in progress, and the
/// style in force.
#[verifier::ext_equal]
pub struct ScanState {
    pub lines: Seq<Seq<RunModel>>,
    pub runs: Seq<RunModel>,
    pub buffer: Seq<char>,
    pub style: Style,
}

/// The state before any text.
pub open spec fn scan_start() -> ScanState {
    ScanState {
        lines: Seq::empty(),
        runs: Seq::empty(),
        buffer: Seq::empty(),
        style: Style::plain(),
    }
}

/// The state once the text in progress, if any, has become a run.
pub open spec fn flushed(st: ScanState) -> ScanState {
    if st.buffer.len() > 0 {
        ScanState {
            runs: st.runs.push(RunModel { text: st.buffer, style: st.style }),
            buffer: Seq::empty(),
            ..st
        }
    } else {
        st
    }
}

/// The state after a line break: the line in progress is complete, the
/// style stays in force.
pub open spec fn line_broken(st: ScanState) -> ScanState {
    let f = flushed(st);
    ScanState { lines: f.lines.push(f.runs), runs: Seq::empty(), ..f }
}

/// The state after the characters `s[i..]`. `ESC [` opens a sequence that
/// reaches to the next `m` and changes the style; one that is never closed
/// swallows the rest of the text. A lone `ESC` is ordinary text.
pub open spec fn scanned(s: Seq<char>, i: int, st: ScanState) -> ScanState
    decreases s.len() - i,
{
    if i < 0 || i >= s.len() {
        st
    } else if s[i] == '\x1b' && i + 1 < s.len() && s[i + 1] == '[' {
        let f = flushed(st);
        let m = first_at(s.skip(i + 2), 'm');
        if 0 <= m && i + 2 + m < s.len() {
            scanned(
                s,
                i + 3 + m,
                ScanState { style: sgr_applied(s.subrange(i + 2, i + 2 + m), f.style), ..f },
            )
        } else {
            f
        }
    } else if s[i] == '\n' {
        scanned(s, i + 1, line_broken(st))
    } else {
        scanned(s, i + 1, ScanState { buffer: st.buffer.push(s[i]), ..st })
    }
}

/// The lines of a state at the end of the text: what is in progress is
/// completed, and a last line without runs is left out.
pub open spec fn finished(st: ScanState) -> Seq<Seq<RunModel>> {
    let f = flushed(st);
    if f.runs.len() > 0 {
        f.lines.push(f.runs)
    } else {
        f.lines
    }
}

/// The lines of styled runs that the text `s` displays as.
pub open spec fn styled_lines(s: Seq<char>) -> Seq<Seq<RunModel>> {
    finished(scanned(s, 0, scan_start()))
}

/// The text holds no line break.
pub open spec fn clean_text(t: Seq<char>) -> bool {
    forall|k: int| 0 <= k < t.len() ==> #[trigger] t[k] != '\n'
}

/// Every run holds some text and no line break.
pub open spec fn clean_runs(runs: Seq<RunModel>) -> bool {
    forall|j: int|
        0 <= j < runs.len() ==> (#[trigger] runs[j]).text.len() > 0 && clean_text(runs[j].text)
}

/// Every run of every line holds some text and no line break.
pub open spec fn clean_lines(lines: Seq<Seq<RunModel>>) -> bool {
    forall|i: int| 0 <= i < lines.len() ==> clean_runs(#[trigger] lines[i])
}

/// Nothing that the scanner holds has a line break in it, and no run is
/// empty.
pub open spec fn clean_state(st: ScanState) -> bool {
    clean_lines(st.lines) && clean_runs(st.runs) && clean_text(st.buffer)
}

/// Scanning keeps every run free of line breaks and never makes an empty
/// run.
pub proof fn lemma_scanned_clean(s: Seq<char>, i: int, st: ScanState)
    requires
        clean_state(st),
    ensures
        clean_state(scanned(s, i, st)),
    decreases s.len() - i,
{
    if i < 0 || i >= s.len() {
        // nothing is left to scan
    } else if s[i] == '\x1b' && i + 1 < s.len() && s[i + 1] == '[' {
        let f = flushed(st);
        let m = first_at(s.skip(i + 2), 'm');
        if 0 <= m && i + 2 + m < s.len() {
            lemma_scanned_clean(
                s,
                i + 3 + m,
                ScanState { style: sgr_applied(s.subrange(i + 2, i + 2 + m), f.style), ..f },
            );
        }
    } else if s[i] == '\n' {
        lemma_scanned_clean(s, i + 1, line_broken(st));
    } else {
        lemma_scanned_clean(s, i + 1, ScanState { buffer: st.buffer.push(s[i]), ..st });
    }
}

/// A run never spans a line break and is never empty, whatever the text.
pub proof fn lemma_styled_lines_clean(s: Seq<char>)
    ensures
        clean_lines(styled_lines(s)),
{
    lemma_scanned_clean(s, 0, scan_start());
}

/// Turns the text in progress, if any, into a run of the line in progress.
fn flush_run(spans: &mut Vec<StyledRun>, buffer: &mut Vec<char>, style: Style)
    ensures
        final(buffer)@ == Seq::<char>::empty(),
        runs_view(final(spans)@) == if old(buffer)@.len() > 0 {
            runs_view(old(spans)@).push(RunModel { text: old(buffer)@, style: style })
        } else {
            runs_view(old(spans)@)
        },
{
    if buffer.len() > 0 {
        let run = StyledRun { text: text_of(buffer), style: style };
        spans.push(run);
        buffer.clear();
    }
}

/// The lines of styled runs that `input` displays as: text between SGR
/// sequences becomes runs in the style then in force, a line break ends
/// the line and carries the style on.
pub fn parse_ansi_text(input: &str) -> (lines: Vec<Vec<StyledRun>>)
    ensures
        lines_view(lines@) == styled_lines(input@),
        clean_lines(lines_view(lines@)),
{
    let chars = chars_of(input);
    let n = chars.len();
    let mut lines: Vec<Vec<StyledRun>> = Vec::new();
    let mut spans: Vec<StyledRun> = Vec::new();
    let mut buffer: Vec<char> = Vec::new();
    let mut style = Style::default();
    let mut i: usize = 0;
    assert(lines_view(lines@) =~= Seq::<Seq<RunModel>>::empty());
    assert(runs_view(spans@) =~= Seq::<RunModel>::empty());
    while i < n
        invariant
            i <= n,
            n == chars@.len(),
            chars@ == input@,
            scanned(chars@, 0, scan_start()) == scanned(
                chars@,
                i as int,
                ScanState {
                    lines: lines_view(lines@),
                    runs: runs_view(spans@),
                    buffer: buffer@,
                    style: style,
                },
            ),
        decreases n - i,
    {
        let ch = chars[i];
        let ghost st = ScanState {
            lines: lines_view(lines@),
            runs: runs_view(spans@),
            buffer: buffer@,
            style: style,
        };
        if ch == '\x1b' && n - i > 1 && chars[i + 1] == '[' {
            flush_run(&mut spans, &mut buffer, style);
            let ghost f = ScanState {
                lines: lines_view(lines@),
                runs: runs_view(spans@),
                buffer: buffer@,
                style: style,
            };
            assert(f =~= flushed(st));
            let m = find_char(&chars, i + 2, 'm');
            if m < n - i - 2 {
                let sequence = slice_of(&chars, i + 2, i + 2 + m);
                apply_sgr_chars(&sequence, &mut style);
                i = i + 3 + m;
            } else {
                i = n;
            }
        } else if ch == '\n' {
            flush_run(&mut spans, &mut buffer, style);
            lines.push(spans);
            spans = Vec::new();
            assert(ScanState {
                lines: lines_view(lines@),
                runs: runs_view(spans@),
                buffer: buffer@,
                style: style,
            } =~= line_broken(st));
            i += 1;
        } else {
            buffer.push(ch);
            i += 1;
        }
    }
    flush_run(&mut spans, &mut buffer, style);
    if spans.len() > 0 {
        lines.push(spans);
    }
    proof {
        lemma_styled_lines_clean(input@);
    }
    lines
}

} // verus!
