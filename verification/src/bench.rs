//! The benchmark: which effect is timed when, the test pattern that is drawn
//! before each refresh, and the table that comes out.
//!
//! Each measurement draws a checkerboard that is the inverse of the one before, so
//! that a refresh finds the screen changed wherever no marker covers it. The marker in
//! the corner tells the measurements apart by eye.

use crate::eink::{to_coord, DriverError, FixScreenInfo, UpdateArea, VarScreenInfo};
use crate::fx::{FX_FAST, FX_PARTIAL, FX_SLOW};
use crate::text::{chars_of, is_word, push_decimal, push_decimal_i32, read_fields};
use vstd::prelude::*;

verus! {

/// The effect that a word names.
pub open spec fn named_fx(word: Seq<char>) -> Option<i32> {
    if word == "partial"@ {
        Some(FX_PARTIAL)
    } else if word == "fast"@ {
        Some(FX_FAST)
    } else if word == "slow"@ {
        Some(FX_SLOW)
    } else {
        None
    }
}

/// What one piece of a list of effects stands for.
pub open spec fn piece_fx() -> spec_fn(Seq<char>) -> Option<i32> {
    |piece: Seq<char>| named_fx(crate::text::trim(piece))
}

/// The effects in a list of names separated by commas. White space around a name
/// does not count, and what is no name is passed over.
pub open spec fn fx_list(s: Seq<char>) -> Seq<i32> {
    crate::text::pieces(s, ',').filter_map(piece_fx())
}

/// The effect that a word names.
fn fx_of_word(word: &Vec<char>) -> (fx: Option<i32>)
    ensures
        fx == named_fx(word@),
{
    if is_word(word, "partial") {
        Some(FX_PARTIAL)
    } else if is_word(word, "fast") {
        Some(FX_FAST)
    } else if is_word(word, "slow") {
        Some(FX_SLOW)
    } else {
        None
    }
}

/// Reads a list of effects such as `partial,fast,slow`.
pub fn parse_fx_list(s: &str) -> (list: Vec<i32>)
    ensures
        list@ == fx_list(s@),
{
    read_fields(s, fx_of_word, Ghost(piece_fx()))
}

/// The test pattern: a checkerboard of squares of eight pixels, black (0) and white
/// (0xff), inverted from frame to frame.
pub open spec fn pixel(x: int, y: int, frame: int) -> u8 {
    if (x / 8 + y / 8 + frame) % 2 == 0 {
        0x00
    } else {
        0xff
    }
}

/// Whether the pixel is in the upper left `w` by `h` pixels.
pub open spec fn in_corner(w: int, h: int, x: int, y: int) -> bool {
    0 <= x < w && 0 <= y < h
}

/// Whether the pixel is on the screen.
pub open spec fn on_screen(v: VarScreenInfo, x: int, y: int) -> bool {
    in_corner(v.xres as int, v.yres as int, x, y)
}

/// Where the pixel stands in the frame buffer.
pub open spec fn offset(f: FixScreenInfo, x: int, y: int) -> int {
    y * f.line_length + x
}

/// Whether the upper left `w` by `h` pixels stand within `len` bytes of frame buffer.
pub open spec fn corner_fits(len: int, f: FixScreenInfo, w: int, h: int) -> bool {
    w == 0 || h == 0 || offset(f, w - 1, h - 1) < len
}

/// Whether every pixel of the screen stands within `len` bytes of frame buffer.
pub open spec fn screen_fits(len: int, v: VarScreenInfo, f: FixScreenInfo) -> bool {
    corner_fits(len, f, v.xres as int, v.yres as int)
}

/// Whether the byte belongs to one of the upper left `w` by `h` pixels.
pub open spec fn is_corner_byte(f: FixScreenInfo, w: int, h: int, at: int) -> bool {
    exists|x: int, y: int|
        #![trigger offset(f, x, y)]
        in_corner(w, h, x, y) && at == offset(f, x, y)
}

/// The frame buffer `after` is the frame buffer `before` with the upper left `w` by
/// `h` pixels drawn and every other byte as it was. Where the lines overlap, the lower
/// one is drawn over the upper one.
pub open spec fn is_drawn(
    before: Seq<u8>,
    after: Seq<u8>,
    f: FixScreenInfo,
    w: int,
    h: int,
    shade: spec_fn(int, int) -> u8,
) -> bool {
    &&& after.len() == before.len()
    &&& forall|x: int, y: int|
        #![trigger offset(f, x, y)]
        in_corner(w, h, x, y) && (x < f.line_length || y == h - 1) ==> after[offset(f, x, y)]
            == shade(x, y)
    &&& forall|at: int|
        0 <= at < before.len() && !is_corner_byte(f, w, h, at) ==> #[trigger] after[at]
            == before[at]
}

/// Tells whether every pixel of the screen stands within `len` bytes.
pub fn pattern_fits(len: usize, v: &VarScreenInfo, f: &FixScreenInfo) -> (b: bool)
    ensures
        b == screen_fits(len as int, *v, *f),
{
    if v.xres == 0 || v.yres == 0 {
        return true;
    }
    assert(0 <= (v.yres - 1) * f.line_length <= 0xffff_ffff * 0xffff_ffff) by (nonlinear_arith)
        requires
            1 <= v.yres <= 0xffff_ffff,
            0 <= f.line_length <= 0xffff_ffff,
    ;
    let last: u128 = (v.yres - 1) as u128 * f.line_length as u128 + (v.xres - 1) as u128;
    last < len as u128
}

/// A row that starts further down starts at least a line length later.
proof fn lemma_rows_apart(f: FixScreenInfo, y1: int, y2: int)
    requires
        0 <= y1 <= y2,
    ensures
        0 <= offset(f, 0, y1) <= offset(f, 0, y2),
        y1 < y2 ==> offset(f, 0, y1) + f.line_length <= offset(f, 0, y2),
{
    let stride = f.line_length as int;
    assert(0 <= y1 * stride <= y2 * stride) by (nonlinear_arith)
        requires
            0 <= y1 <= y2,
            0 <= stride,
    ;
    assert(y1 < y2 ==> y1 * stride + stride <= y2 * stride) by (nonlinear_arith)
        requires
            0 <= y1 <= y2,
            0 <= stride,
    ;
}

/// Draws the upper left `w` by `h` pixels, each in the shade that `shade` computes for
/// it. `model` says which one that is.
fn paint<F: Fn(u32, u32) -> u8>(
    fb: &mut [u8],
    f: &FixScreenInfo,
    w: u32,
    h: u32,
    shade: F,
    Ghost(model): Ghost<spec_fn(int, int) -> u8>,
)
    requires
        corner_fits(old(fb)@.len() as int, *f, w as int, h as int),
        forall|x: u32, y: u32| call_requires(shade, (x, y)),
        forall|x: u32, y: u32, b: u8|
            call_ensures(shade, (x, y), b) ==> b == model(x as int, y as int),
    ensures
        is_drawn(old(fb)@, final(fb)@, *f, w as int, h as int, model),
{
    if w == 0 {
        return;
    }
    let len: usize = fb.len();
    let stride: usize = f.line_length as usize;
    let mut y: u32 = 0;
    while y < h
        invariant
            0 < w,
            y <= h,
            stride == f.line_length,
            corner_fits(len as int, *f, w as int, h as int),
            fb@.len() == len,
            old(fb)@.len() == len,
            forall|x: u32, y: u32| call_requires(shade, (x, y)),
            forall|x: u32, y: u32, b: u8|
                call_ensures(shade, (x, y), b) ==> b == model(x as int, y as int),
            forall|x2: int, y2: int|
                #![trigger offset(*f, x2, y2)]
                in_corner(w as int, y as int, x2, y2) && (x2 < stride || y2 == y - 1)
                    ==> fb@[offset(*f, x2, y2)] == model(x2, y2),
            forall|at: int|
                0 <= at < fb@.len() && !is_corner_byte(*f, w as int, h as int, at)
                    ==> #[trigger] fb@[at] == old(fb)@[at],
        decreases h - y,
    {
        proof {
            lemma_rows_apart(*f, y as int, h - 1);
        }
        let row: usize = y as usize * stride;
        let mut x: u32 = 0;
        while x < w
            invariant
                0 < w,
                x <= w,
                y < h,
                stride == f.line_length,
                row == offset(*f, 0, y as int),
                row + w <= len,
                fb@.len() == len,
                old(fb)@.len() == len,
                forall|x: u32, y: u32| call_requires(shade, (x, y)),
                forall|x: u32, y: u32, b: u8|
                    call_ensures(shade, (x, y), b) ==> b == model(x as int, y as int),
                forall|x2: int|
                    0 <= x2 < x ==> fb@[#[trigger] offset(*f, x2, y as int)] == model(
                        x2,
                        y as int,
                    ),
                forall|x2: int, y2: int|
                    #![trigger offset(*f, x2, y2)]
                    in_corner(w as int, y as int, x2, y2) && x2 < stride ==> fb@[offset(
                        *f,
                        x2,
                        y2,
                    )] == model(x2, y2),
                forall|at: int|
                    0 <= at < fb@.len() && !is_corner_byte(*f, w as int, h as int, at)
                        ==> #[trigger] fb@[at] == old(fb)@[at],
            decreases w - x,
        {
            let at: usize = row + x as usize;
            assert(at == offset(*f, x as int, y as int));
            assert(in_corner(w as int, h as int, x as int, y as int));
            fb[at] = shade(x, y);
            proof {
                assert forall|x2: int, y2: int|
                    #![trigger offset(*f, x2, y2)]
                    in_corner(w as int, y as int, x2, y2) && x2 < stride implies fb@[offset(
                    *f,
                    x2,
                    y2,
                )] == model(x2, y2) by {
                    lemma_rows_apart(*f, y2, y as int);
                    assert(offset(*f, x2, y2) != at);
                }
            }
            x += 1;
        }
        y += 1;
    }
}

/// The test pattern of a frame.
pub open spec fn pattern(frame: u32) -> spec_fn(int, int) -> u8 {
    |x: int, y: int| pixel(x, y, frame as int)
}

/// Draws the test pattern for a frame. Only bytes of the screen are written.
pub fn draw_pattern(fb: &mut [u8], v: &VarScreenInfo, f: &FixScreenInfo, frame: u32)
    requires
        screen_fits(old(fb)@.len() as int, *v, *f),
    ensures
        is_drawn(
            old(fb)@,
            final(fb)@,
            *f,
            v.xres as int,
            v.yres as int,
            pattern(frame),
        ),
{
    let shade = |x: u32, y: u32| -> (b: u8)
        ensures
            b == pixel(x as int, y as int, frame as int),
        {
            let block: u32 = ((x / 8) % 2 + (y / 8) % 2 + frame % 2) % 2;
            if block == 0 {
                0x00
            } else {
                0xff
            }
        };
    paint(fb, f, v.xres, v.yres, shade, Ghost(pattern(frame)));
}

/// The letters of the marker, the digits first and then the capital letters of the
/// Latin alphabet: five columns and seven rows each. Bit `5 * row + column` of a
/// letter says whether there is ink.
pub const FONT: [u64; 36] = [
    0x3a33ae62e, 0x3884210c4, 0x7c444422e, 0x3a304111f, 0x211f4a988, 0x3a3083c3f,
    0x3a317844c, 0x08422221f, 0x3a317462e, 0x1910f462e, 0x463f8c62e, 0x3e317c62f,
    0x3a210862e, 0x1d318c527, 0x7c217843f, 0x04217843f, 0x7a31e862e, 0x4631fc631,
    0x38842108e, 0x19284211c, 0x452519531, 0x7c2108421, 0x4631ad771, 0x4639ace31,
    0x3a318c62e, 0x04217c62f, 0x59358c62e, 0x45257c62f, 0x3e107043e, 0x10842109f,
    0x3a318c631, 0x11518c631, 0x2ab5ac631, 0x462a22a31, 0x108454631, 0x7c222221f,
];

/// The place of a character in the font, if it is there.
pub open spec fn font_index(c: char) -> Option<int> {
    let n = c as u32;
    if 0x30 <= n <= 0x39 {
        Some(n - 0x30)
    } else if 0x41 <= n <= 0x5a {
        Some(n - 0x41 + 10)
    } else {
        None
    }
}

/// Whether the character has ink at this column and row. One that is not in the font
/// has none.
pub open spec fn has_ink(c: char, column: int, row: int) -> bool {
    match font_index(c) {
        Some(i) => 0 <= column < 5 && 0 <= row < 7 && (FONT@[i] >> ((5 * row + column) as u64))
            & 1u64 == 1,
        None => false,
    }
}

/// The marker: a text in black on white ground, one cell of four by four pixels for
/// each point of a letter, with a margin of one cell around each letter.
pub open spec fn marker_pixel(text: Seq<char>, x: int, y: int) -> u8 {
    let cell = x / 4 - 1;
    let row = y / 4 - 1;
    if 0 <= cell && cell / 6 < text.len() && has_ink(text[cell / 6], cell % 6, row) {
        0x00
    } else {
        0xff
    }
}

/// The marker with this text.
pub open spec fn marker(text: Seq<char>) -> spec_fn(int, int) -> u8 {
    |x: int, y: int| marker_pixel(text, x, y)
}

/// How wide the marker is, as far as it is on the screen.
pub open spec fn marker_width(text: Seq<char>, v: VarScreenInfo) -> int {
    let w = 4 * (6 * text.len() as int + 1);
    if w < v.xres {
        w
    } else {
        v.xres as int
    }
}

/// How high the marker is, as far as it is on the screen.
pub open spec fn marker_height(v: VarScreenInfo) -> int {
    if 36 < v.yres {
        36
    } else {
        v.yres as int
    }
}

/// Tells whether the character has ink at this column and row.
fn ink(c: char, column: u32, row: u32) -> (b: bool)
    requires
        column < 6,
    ensures
        b == has_ink(c, column as int, row as int),
{
    let n: u32 = c as u32;
    let index: usize = if 0x30 <= n && n <= 0x39 {
        (n - 0x30) as usize
    } else if 0x41 <= n && n <= 0x5a {
        (n - 0x41 + 10) as usize
    } else {
        return false;
    };
    if column >= 5 || row >= 7 {
        return false;
    }
    let bit: u64 = 5 * row as u64 + column as u64;
    (FONT[index] >> bit) & 1 == 1
}

/// Draws a text into the upper left corner, as far as there is room on the screen.
/// Only bytes of the marker are written.
pub fn draw_marker(fb: &mut [u8], v: &VarScreenInfo, f: &FixScreenInfo, text: &str)
    requires
        screen_fits(old(fb)@.len() as int, *v, *f),
    ensures
        is_drawn(
            old(fb)@,
            final(fb)@,
            *f,
            marker_width(text@, *v),
            marker_height(*v),
            marker(text@),
        ),
{
    let chars = chars_of(text);
    let count: usize = chars.len();
    let full: u128 = 4 * (6 * count as u128 + 1);
    let w: u32 = if full < v.xres as u128 {
        full as u32
    } else {
        v.xres
    };
    let h: u32 = if 36 < v.yres {
        36
    } else {
        v.yres
    };
    proof {
        if w > 0 && h > 0 {
            lemma_rows_apart(*f, h - 1, v.yres - 1);
        }
    }
    let shade = |x: u32, y: u32| -> (b: u8)
        ensures
            b == marker_pixel(text@, x as int, y as int),
        {
            if x < 4 || y < 4 {
                return 0xff;
            }
            let cell: u32 = x / 4 - 1;
            let row: u32 = y / 4 - 1;
            let index: usize = (cell / 6) as usize;
            if index < chars.len() && ink(chars[index], cell % 6, row) {
                0x00
            } else {
                0xff
            }
        };
    paint(fb, f, w, h, shade, Ghost(marker(text@)));
}

/// What is timed: each effect so many times in a row, or a sequence of effects for
/// so many rounds.
#[derive(Debug)]
pub enum Plan {
    Single { fx_list: Vec<i32>, n: u32 },
    Sequence { seq: Vec<i32>, rounds: u32 },
}

/// Where a measurement stands in its plan.
#[derive(Debug, Clone, Copy, PartialEq, Eq, Structural)]
pub enum Place {
    /// How often the same effect was timed before.
    Repetition { seq: u32 },
    /// The round, and the place in the sequence.
    InRound { round: u32, step: usize },
}

/// One measurement: draw this frame of the pattern, then time a refresh of the
/// whole screen with this effect.
#[derive(Debug, Clone, Copy, PartialEq, Eq, Structural)]
pub struct Measurement {
    pub fx: i32,
    pub place: Place,
    pub frame: u32,
}

impl Plan {
    /// The number of measurements.
    pub open spec fn total(self) -> int {
        match self {
            Plan::Single { fx_list, n } => fx_list@.len() * n,
            Plan::Sequence { seq, rounds } => seq@.len() * rounds,
        }
    }

    /// The measurement with `k` others before it. The frames are numbered through
    /// the whole plan, modulo the range of a `u32`.
    pub open spec fn at(self, k: int) -> Measurement {
        let frame = (k % 0x1_0000_0000) as u32;
        match self {
            Plan::Single { fx_list, n } => Measurement {
                fx: fx_list@[k / (n as int)],
                place: Place::Repetition { seq: (k % (n as int)) as u32 },
                frame,
            },
            Plan::Sequence { seq, rounds } => {
                let len = seq@.len() as int;
                Measurement {
                    fx: seq@[k % len],
                    place: Place::InRound { round: (k / len) as u32, step: (k % len) as usize },
                    frame,
                }
            },
        }
    }

    /// The first line of the table.
    pub open spec fn header_text(self) -> Seq<char> {
        match self {
            Plan::Single { .. } => "fx,seq,ioctl_usec,error"@,
            Plan::Sequence { .. } => "fx,round,step,ioctl_usec,error"@,
        }
    }
}

/// The columns of a line of the table.
pub open spec fn columns(m: Measurement, usec: u128, errno: i32) -> Seq<int> {
    match m.place {
        Place::Repetition { seq } => seq![m.fx as int, seq as int, usec as int, errno as int],
        Place::InRound { round, step } => seq![
            m.fx as int,
            round as int,
            step as int,
            usec as int,
            errno as int,
        ],
    }
}

/// Numbers in decimal with commas between them.
pub open spec fn joined(numbers: Seq<int>) -> Seq<char>
    decreases numbers.len(),
{
    if numbers.len() == 0 {
        Seq::empty()
    } else if numbers.len() == 1 {
        crate::text::decimal_int(numbers[0])
    } else {
        joined(numbers.drop_last()) + seq![','] + crate::text::decimal_int(numbers.last())
    }
}

/// The error column for a reply: the error number of a failure, else 0.
pub open spec fn error_column(reply: Result<(), DriverError>) -> i32 {
    match reply {
        Ok(_) => 0,
        Err(error) => match error.raw_os_error {
            Some(n) => n,
            None => 0,
        },
    }
}

proof fn lemma_index_bound(k: int, len: int, n: int)
    requires
        0 <= k < len * n,
        0 <= len,
        0 <= n,
    ensures
        0 < n,
        0 < len,
        0 <= k / n < len,
        0 <= k % n < n,
{
    assert(0 < n && 0 < len) by (nonlinear_arith)
        requires
            0 < len * n,
            0 <= len,
            0 <= n,
    ;
    vstd::arithmetic::div_mod::lemma_fundamental_div_mod(k, n);
    vstd::arithmetic::div_mod::lemma_mod_bound(k, n);
    let q = k / n;
    assert(0 <= q < len) by (nonlinear_arith)
        requires
            k == n * q + k % n,
            0 <= k % n < n,
            0 <= k < len * n,
            0 < n,
    ;
}

/// A benchmark in progress: the plan, how many lines of the table are done, and how
/// many of them are failures.
#[derive(Debug)]
pub struct Bench {
    pub plan: Plan,
    pub rows: u128,
    pub errors: u128,
}

impl Bench {
    pub open spec fn wf(self) -> bool {
        0 <= self.errors <= self.rows <= self.plan.total()
    }

    /// The first line of the table.
    pub fn header(&self) -> (line: String)
        ensures
            line@ == self.plan.header_text(),
    {
        match &self.plan {
            Plan::Single { .. } => "fx,seq,ioctl_usec,error".to_owned(),
            Plan::Sequence { .. } => "fx,round,step,ioctl_usec,error".to_owned(),
        }
    }

    /// What the marker says in the next measurement: the label and the number of the
    /// measurement, counted from 1.
    pub fn marker_text(&self, label: &str) -> (text: String)
        requires
            self.wf(),
        ensures
            text@ == label@ + crate::text::decimal((self.rows + 1) as nat),
    {
        proof {
            lemma_total_bound(self.plan);
        }
        let mut text = label.to_owned();
        push_decimal(&mut text, self.rows + 1);
        text
    }

    /// How many milliseconds to pause before the next measurement: none before the
    /// first.
    pub fn pause_ms(&self, delay_ms: u64) -> (ms: u64)
        ensures
            ms == if self.rows == 0 {
                0
            } else {
                delay_ms
            },
    {
        if self.rows == 0 {
            0
        } else {
            delay_ms
        }
    }

    /// The next measurement, if one is left.
    pub fn next(&self) -> (m: Option<Measurement>)
        requires
            self.wf(),
        ensures
            m == if self.rows < self.plan.total() {
                Some(self.plan.at(self.rows as int))
            } else {
                None
            },
    {
        let k: u128 = self.rows;
        let frame: u32 = (k % 0x1_0000_0000) as u32;
        match &self.plan {
            Plan::Single { fx_list, n } => {
                let len: usize = fx_list.len();
                assert(0 <= len * *n <= 0xffff_ffff_ffff_ffff * 0xffff_ffff) by (nonlinear_arith)
                    requires
                        0 <= len <= 0xffff_ffff_ffff_ffff,
                        0 <= *n <= 0xffff_ffff,
                ;
                if k >= len as u128 * *n as u128 {
                    return None;
                }
                proof {
                    lemma_index_bound(k as int, len as int, *n as int);
                }
                let index: usize = (k / *n as u128) as usize;
                Some(
                    Measurement {
                        fx: fx_list[index],
                        place: Place::Repetition { seq: (k % *n as u128) as u32 },
                        frame,
                    },
                )
            },
            Plan::Sequence { seq, rounds } => {
                let len: usize = seq.len();
                assert(0 <= len * *rounds <= 0xffff_ffff_ffff_ffff * 0xffff_ffff)
                    by (nonlinear_arith)
                    requires
                        0 <= len <= 0xffff_ffff_ffff_ffff,
                        0 <= *rounds <= 0xffff_ffff,
                ;
                if k >= len as u128 * *rounds as u128 {
                    return None;
                }
                proof {
                    assert(len * *rounds == *rounds * len) by (nonlinear_arith);
                    lemma_index_bound(k as int, *rounds as int, len as int);
                }
                let step: usize = (k % len as u128) as usize;
                Some(
                    Measurement {
                        fx: seq[step],
                        place: Place::InRound { round: (k / len as u128) as u32, step },
                        frame,
                    },
                )
            },
        }
    }

    /// Takes the result of the next measurement: how long the call took, in
    /// microseconds, and the driver's reply. Returns the line for the table.
    pub fn finish(&mut self, usec: u128, reply: Result<(), DriverError>) -> (line: String)
        requires
            old(self).wf(),
            old(self).rows < old(self).plan.total(),
        ensures
            line@ == joined(
                columns(old(self).plan.at(old(self).rows as int), usec, error_column(reply)),
            ),
            final(self).plan == old(self).plan,
            final(self).rows == old(self).rows + 1,
            final(self).errors == old(self).errors + if reply is Err {
                1int
            } else {
                0
            },
            final(self).wf(),
    {
        proof {
            lemma_total_bound(self.plan);
        }
        let mut line = String::new();
        if let Some(m) = self.next() {
            let errno: i32 = match reply {
                Ok(_) => 0,
                Err(error) => {
                    self.errors += 1;
                    error.raw_os_error.unwrap_or(0)
                },
            };
            write_line(&mut line, m, usec, errno);
        }
        self.rows += 1;
        line
    }
}

proof fn lemma_total_bound(plan: Plan)
    ensures
        0 <= plan.total() <= 0xffff_ffff_ffff_ffff * 0xffff_ffff,
{
    let (len, n) = match plan {
        Plan::Single { fx_list, n } => (fx_list.len(), n),
        Plan::Sequence { seq, rounds } => (seq.len(), rounds),
    };
    assert(0 <= len * n <= 0xffff_ffff_ffff_ffff * 0xffff_ffff) by (nonlinear_arith)
        requires
            0 <= len <= 0xffff_ffff_ffff_ffff,
            0 <= n <= 0xffff_ffff,
    ;
}

/// Appends a comma.
fn push_comma(out: &mut String)
    ensures
        final(out)@ == old(out)@ + seq![','],
{
    proof {
        reveal_strlit(",");
    }
    assert(","@ =~= seq![',']);
    out.append(",");
}

/// Appends a line of the table.
fn write_line(out: &mut String, m: Measurement, usec: u128, errno: i32)
    ensures
        final(out)@ == old(out)@ + joined(columns(m, usec, errno)),
{
    let ghost all = columns(m, usec, errno);
    proof {
        reveal_with_fuel(joined, 6);
    }
    push_decimal_i32(out, m.fx);
    push_comma(out);
    match m.place {
        Place::Repetition { seq } => {
            push_decimal(out, seq as u128);
        },
        Place::InRound { round, step } => {
            push_decimal(out, round as u128);
            push_comma(out);
            push_decimal(out, step as u128);
        },
    }
    push_comma(out);
    push_decimal(out, usec);
    push_comma(out);
    push_decimal_i32(out, errno);
    assert(out@ =~= old(out)@ + joined(all));
}

/// Starts a benchmark that times each effect `n` times in a row.
pub fn run(fx_list: &[i32], n: u32) -> (bench: Bench)
    ensures
        bench.wf(),
        bench.plan matches Plan::Single { fx_list: list, n: count } && list@ == fx_list@ && count
            == n,
        bench.rows == 0,
        bench.errors == 0,
{
    let bench = Bench {
        plan: Plan::Single { fx_list: vstd::slice::slice_to_vec(fx_list), n },
        rows: 0,
        errors: 0,
    };
    proof {
        lemma_total_bound(bench.plan);
    }
    bench
}

/// Starts a benchmark that times a sequence of effects for so many rounds. There
/// has to be something in the sequence.
pub fn run_seq(seq: &[i32], rounds: u32) -> (bench: Option<Bench>)
    ensures
        bench is None <==> seq@.len() == 0,
        bench matches Some(b) ==> {
            &&& b.wf()
            &&& b.plan matches Plan::Sequence { seq: list, rounds: count } && list@ == seq@
                && count == rounds
            &&& b.rows == 0
            &&& b.errors == 0
        },
{
    if seq.len() == 0 {
        return None;
    }
    let bench = Bench { plan: Plan::Sequence { seq: vstd::slice::slice_to_vec(seq), rounds }, rows: 0, errors: 0 };
    proof {
        lemma_total_bound(bench.plan);
    }
    Some(bench)
}

/// The area that a measurement refreshes: the whole screen.
pub fn full_area(v: &VarScreenInfo, fx: i32) -> (area: UpdateArea)
    ensures
        area == (UpdateArea {
            x1: 0,
            y1: 0,
            x2: crate::eink::signed(v.xres),
            y2: crate::eink::signed(v.yres),
            which_fx: fx,
        }),
{
    UpdateArea::new(0, 0, to_coord(v.xres), to_coord(v.yres), fx)
}

/// How many bytes of frame buffer to map, unless the driver reports none.
pub fn mapping_len(f: &FixScreenInfo) -> (len: Option<usize>)
    ensures
        len == if f.smem_len == 0 {
            None
        } else {
            Some(f.smem_len as usize)
        },
{
    if f.smem_len == 0 {
        None
    } else {
        Some(f.smem_len as usize)
    }
}

/// How a run of a benchmark ended.
#[derive(Debug, Clone, Copy, PartialEq, Eq, Structural)]
pub enum RunOutcome {
    /// All measurements were made and everything was put back.
    Done,
    /// The driver reports no memory to map.
    NoMemory,
    /// The screen reaches beyond the memory that the driver reports.
    DoesNotFit,
    /// The memory could not be mapped.
    NotMapped,
    /// The table could not be written to its end.
    NotMeasured,
    /// The memory could not be unmapped.
    NotUnmapped,
}

/// What comes next in a run of a benchmark. Once a step is done, `run_next` says what
/// follows.
#[derive(Debug, Clone, Copy, PartialEq, Eq, Structural)]
pub enum RunStep {
    /// Map so many bytes of frame buffer, and save what they hold.
    MapMemory { len: usize },
    /// Make all the measurements and write the table.
    Measure,
    /// Put back what was saved, and refresh the whole screen with this effect.
    Restore { which_fx: i32, measured: bool },
    /// Unmap the memory.
    UnmapMemory { measured: bool },
    /// Nothing: this is how the run ended.
    Return { outcome: RunOutcome },
}

/// The first step of a run: nothing is mapped unless the whole screen fits in.
pub fn run_begin(v: &VarScreenInfo, f: &FixScreenInfo) -> (step: RunStep)
    ensures
        step == if f.smem_len == 0 {
            RunStep::Return { outcome: RunOutcome::NoMemory }
        } else if !screen_fits(f.smem_len as int, *v, *f) {
            RunStep::Return { outcome: RunOutcome::DoesNotFit }
        } else {
            RunStep::MapMemory { len: f.smem_len as usize }
        },
{
    match mapping_len(f) {
        None => RunStep::Return { outcome: RunOutcome::NoMemory },
        Some(len) => if pattern_fits(len, v, f) {
            RunStep::MapMemory { len }
        } else {
            RunStep::Return { outcome: RunOutcome::DoesNotFit }
        },
    }
}

/// The step after one that succeeded or failed.
pub open spec fn step_after(step: RunStep, ok: bool) -> RunStep {
    match step {
        RunStep::MapMemory { len } => if ok {
            RunStep::Measure
        } else {
            RunStep::Return { outcome: RunOutcome::NotMapped }
        },
        RunStep::Measure => RunStep::Restore { which_fx: FX_SLOW, measured: ok },
        RunStep::Restore { which_fx, measured } => RunStep::UnmapMemory { measured },
        RunStep::UnmapMemory { measured } => RunStep::Return {
            outcome: if !measured {
                RunOutcome::NotMeasured
            } else if !ok {
                RunOutcome::NotUnmapped
            } else {
                RunOutcome::Done
            },
        },
        RunStep::Return { outcome } => step,
    }
}

/// Goes on once a step is done; `ok` says that it did not fail. That the screen could
/// not be refreshed after it was put back fails nothing.
pub fn run_next(step: RunStep, ok: bool) -> (next: RunStep)
    ensures
        next == step_after(step, ok),
{
    match step {
        RunStep::MapMemory { len: _ } => if ok {
            RunStep::Measure
        } else {
            RunStep::Return { outcome: RunOutcome::NotMapped }
        },
        RunStep::Measure => RunStep::Restore { which_fx: FX_SLOW, measured: ok },
        RunStep::Restore { which_fx: _, measured } => RunStep::UnmapMemory { measured },
        RunStep::UnmapMemory { measured } => if !measured {
            RunStep::Return { outcome: RunOutcome::NotMeasured }
        } else if !ok {
            RunStep::Return { outcome: RunOutcome::NotUnmapped }
        } else {
            RunStep::Return { outcome: RunOutcome::Done }
        },
        RunStep::Return { outcome } => RunStep::Return { outcome },
    }
}

/// Puts back what was saved of the frame buffer.
pub fn restore(fb: &mut [u8], saved: &[u8])
    requires
        saved@.len() == old(fb)@.len(),
    ensures
        final(fb)@ == saved@,
{
    let len: usize = saved.len();
    let mut i: usize = 0;
    while i < len
        invariant
            i <= len == saved@.len(),
            fb@.len() == len,
            fb@.take(i as int) =~= saved@.take(i as int),
        decreases len - i,
    {
        fb[i] = saved[i];
        i += 1;
    }
    assert(fb@ =~= fb@.take(i as int));
    assert(saved@ =~= saved@.take(i as int));
}

/// Once the memory is mapped, a run measures, then puts the screen back, then unmaps
/// the memory, and only then returns, whatever fails on the way. It is done exactly
/// where the measurements and the unmapping succeeded.
pub proof fn law_mapped_is_restored_and_unmapped(
    len: usize,
    measured: bool,
    refreshed: bool,
    unmapped: bool,
)
    ensures
        ({
            let first = step_after(RunStep::MapMemory { len }, true);
            let second = step_after(first, measured);
            let third = step_after(second, refreshed);
            let fourth = step_after(third, unmapped);
            &&& first == RunStep::Measure
            &&& second == (RunStep::Restore { which_fx: FX_SLOW, measured })
            &&& third == (RunStep::UnmapMemory { measured })
            &&& fourth is Return
            &&& fourth == (RunStep::Return { outcome: RunOutcome::Done }) <==> measured && unmapped
        }),
{
}

/// Lists put together with a comma give their effects one after the other, so a
/// comma too many and a word that names nothing do no harm.
pub proof fn law_list_of_parts(a: Seq<char>, b: Seq<char>)
    ensures
        fx_list(a + seq![','] + b) == fx_list(a) + fx_list(b),
{
    crate::text::law_pieces_of_parts(a, b, ',');
    lemma_filter_map_parts(crate::text::pieces(a, ','), crate::text::pieces(b, ','), piece_fx());
}

/// The parts of a sequence are gone through one after the other.
pub(crate) proof fn lemma_filter_map_parts(
    a: Seq<Seq<char>>,
    b: Seq<Seq<char>>,
    f: spec_fn(Seq<char>) -> Option<i32>,
)
    ensures
        (a + b).filter_map(f) == a.filter_map(f) + b.filter_map(f),
    decreases b.len(),
{
    if b.len() == 0 {
        assert(a + b =~= a);
        assert(a.filter_map(f) + b.filter_map(f) =~= a.filter_map(f));
    } else {
        lemma_filter_map_parts(a, b.drop_last(), f);
        assert((a + b).drop_last() =~= a + b.drop_last());
        assert((a + b).last() == b.last());
        assert((a + b).filter_map(f) =~= a.filter_map(f) + b.filter_map(f));
    }
}

/// The name of an effect that has one.
pub open spec fn fx_name(fx: i32) -> Seq<char> {
    if fx == FX_PARTIAL {
        "partial"@
    } else if fx == FX_FAST {
        "fast"@
    } else {
        "slow"@
    }
}

/// The names of the effects with commas between them.
pub open spec fn fx_names(list: Seq<i32>) -> Seq<char>
    decreases list.len(),
{
    if list.len() == 0 {
        Seq::empty()
    } else if list.len() == 1 {
        fx_name(list[0])
    } else {
        fx_names(list.drop_last()) + seq![','] + fx_name(list.last())
    }
}

/// A single name in a list, with any white space around it, gives its effect.
pub proof fn law_name_gives_its_effect(left: Seq<char>, fx: i32, right: Seq<char>)
    requires
        fx == FX_PARTIAL || fx == FX_FAST || fx == FX_SLOW,
        forall|i: int| 0 <= i < left.len() ==> crate::text::is_white_space(#[trigger] left[i]),
        forall|i: int| 0 <= i < right.len() ==> crate::text::is_white_space(#[trigger] right[i]),
    ensures
        fx_list(left + fx_name(fx) + right) == seq![fx],
{
    let name = fx_name(fx);
    let s = left + name + right;
    reveal_strlit("partial");
    reveal_strlit("fast");
    reveal_strlit("slow");
    assert("partial"@ !~= "fast"@);
    assert("partial"@ !~= "slow"@);
    assert("fast"@[0] != "slow"@[0]);
    assert(named_fx(name) == Some(fx));
    crate::text::law_trim_takes_off_white_space(left, name, right);
    if s.contains(',') {
        let i = choose|i: int| 0 <= i < s.len() && s[i] == ',';
        if i < left.len() {
            assert(crate::text::is_white_space(left[i]));
        } else if i < left.len() + name.len() {
            assert(name[i - left.len()] == ',');
        } else {
            assert(crate::text::is_white_space(right[i - left.len() - name.len()]));
        }
    }
    crate::text::law_single_piece(s, ',');
    let one = seq![s];
    assert(one.drop_last().filter_map(piece_fx()) =~= Seq::empty());
    assert(one.last() == s);
    assert(piece_fx()(s) == Some(fx));
    assert(fx_list(s) =~= seq![fx]);
}

/// The names of effects, written as a list, read back as the effects.
pub proof fn law_names_read_back(list: Seq<i32>)
    requires
        forall|i: int|
            0 <= i < list.len() ==> #[trigger] list[i] == FX_PARTIAL || list[i] == FX_FAST
                || list[i] == FX_SLOW,
    ensures
        fx_list(fx_names(list)) == list,
    decreases list.len(),
{
    let none = Seq::<char>::empty();
    if list.len() == 0 {
        reveal_strlit("partial");
        reveal_strlit("fast");
        reveal_strlit("slow");
        assert(named_fx(none) is None);
        let one = seq![none];
        assert(crate::text::trim(none) =~= none);
        assert(one.drop_last().filter_map(piece_fx()) =~= Seq::empty());
        assert(one.last() == none);
        assert(one.filter_map(piece_fx()) =~= list);
    } else {
        law_name_gives_its_effect(none, list.last(), none);
        assert(none + fx_name(list.last()) + none =~= fx_name(list.last()));
        if list.len() == 1 {
            assert(list =~= seq![list.last()]);
        } else {
            law_names_read_back(list.drop_last());
            law_list_of_parts(fx_names(list.drop_last()), fx_name(list.last()));
            assert(list =~= list.drop_last() + seq![list.last()]);
        }
    }
}

/// Everything that a list yields is the number of a named effect.
pub proof fn law_list_holds_named_effects(s: Seq<char>, i: int)
    requires
        0 <= i < fx_list(s).len(),
    ensures
        fx_list(s)[i] == FX_PARTIAL || fx_list(s)[i] == FX_FAST || fx_list(s)[i] == FX_SLOW,
{
    let all = crate::text::pieces(s, ',');
    assert(fx_list(s).contains(fx_list(s)[i]));
    all.lemma_filter_map_contains(piece_fx(), fx_list(s)[i]);
}

/// From one frame to the next every pixel of the pattern is inverted.
pub proof fn law_pattern_inverts(x: int, y: int, frame: int)
    ensures
        pixel(x, y, frame + 1) == 0xff - pixel(x, y, frame),
{
}

/// The pattern is a checkerboard without end: eight pixels to the right and eight pixels
/// down everything is inverted, all pixels of a square have one shade, and the first
/// square of the first frame is black.
pub proof fn law_pattern_is_a_checkerboard(x: int, y: int, frame: int)
    requires
        0 <= x,
        0 <= y,
    ensures
        pixel(x + 8, y, frame) == 0xff - pixel(x, y, frame),
        pixel(x, y + 8, frame) == 0xff - pixel(x, y, frame),
        pixel(x, y, frame) == pixel(x - x % 8, y - y % 8, frame),
        x < 8 && y < 8 ==> pixel(x, y, 0) == 0,
{
}

/// Two measurements in a row draw inverse patterns, whatever the plan.
pub proof fn law_measurements_invert(plan: Plan, k: int, x: int, y: int)
    requires
        0 <= k,
    ensures
        pixel(x, y, plan.at(k + 1).frame as int) == 0xff - pixel(x, y, plan.at(k).frame as int),
{
}

/// Every byte of what is drawn gets a shade: where lines overlap, that of the lowest
/// line that reaches it.
pub proof fn law_drawn_bytes_have_a_shade(
    before: Seq<u8>,
    after: Seq<u8>,
    f: FixScreenInfo,
    w: int,
    h: int,
    shade: spec_fn(int, int) -> u8,
    at: int,
)
    requires
        is_drawn(before, after, f, w, h, shade),
        is_corner_byte(f, w, h, at),
    ensures
        exists|x: int, y: int|
            #![trigger offset(f, x, y)]
            {
                &&& in_corner(w, h, x, y)
                &&& at == offset(f, x, y)
                &&& x < f.line_length || y == h - 1
                &&& after[at] == shade(x, y)
            },
{
    let (x, y) = choose|x: int, y: int|
        #![trigger offset(f, x, y)]
        in_corner(w, h, x, y) && at == offset(f, x, y);
    let (x2, y2) = lemma_lowest_line(f, w, h, x, y);
    assert(at == offset(f, x2, y2));
}

proof fn lemma_lowest_line(f: FixScreenInfo, w: int, h: int, x: int, y: int) -> (r: (int, int))
    requires
        in_corner(w, h, x, y),
    ensures
        in_corner(w, h, r.0, r.1),
        offset(f, x, y) == offset(f, r.0, r.1),
        r.0 < f.line_length || r.1 == h - 1,
    decreases h - y,
{
    if x < f.line_length || y == h - 1 {
        (x, y)
    } else {
        let stride = f.line_length as int;
        assert((y + 1) * stride == y * stride + stride) by (nonlinear_arith);
        lemma_lowest_line(f, w, h, x - stride, y + 1)
    }
}

/// On a screen whose lines do not overlap, the pattern with a marker over it shows the
/// marker in the corner and the pattern everywhere else.
pub proof fn law_marker_covers_only_its_corner(
    before: Seq<u8>,
    drawn: Seq<u8>,
    marked: Seq<u8>,
    v: VarScreenInfo,
    f: FixScreenInfo,
    frame: u32,
    text: Seq<char>,
    x: int,
    y: int,
)
    requires
        v.xres <= f.line_length,
        screen_fits(before.len() as int, v, f),
        is_drawn(before, drawn, f, v.xres as int, v.yres as int, pattern(frame)),
        is_drawn(drawn, marked, f, marker_width(text, v), marker_height(v), marker(text)),
        on_screen(v, x, y),
    ensures
        marked[offset(f, x, y)] == if in_corner(marker_width(text, v), marker_height(v), x, y) {
            marker_pixel(text, x, y)
        } else {
            pixel(x, y, frame as int)
        },
{
    let w = marker_width(text, v);
    let h = marker_height(v);
    let at = offset(f, x, y);
    assert(drawn[at] == pattern(frame)(x, y));
    if in_corner(w, h, x, y) {
        assert(marked[at] == marker(text)(x, y));
    } else {
        lemma_rows_apart(f, y, v.yres - 1);
        lemma_rows_apart(f, 0, y);
        if is_corner_byte(f, w, h, at) {
            let (x2, y2) = choose|x2: int, y2: int|
                #![trigger offset(f, x2, y2)]
                in_corner(w, h, x2, y2) && at == offset(f, x2, y2);
            if y2 < y {
                lemma_rows_apart(f, y2, y);
            } else if y < y2 {
                lemma_rows_apart(f, y, y2);
            }
        }
        assert(marked[at] == drawn[at]);
    }
}

/// On a screen whose lines do not overlap, the pictures of two measurements in a row, each
/// with its marker, are inverse to each other at every pixel that neither marker covers.
pub proof fn law_marked_pictures_invert(
    before: Seq<u8>,
    drawn: Seq<u8>,
    marked: Seq<u8>,
    next_drawn: Seq<u8>,
    next_marked: Seq<u8>,
    v: VarScreenInfo,
    f: FixScreenInfo,
    plan: Plan,
    k: int,
    text: Seq<char>,
    next_text: Seq<char>,
    x: int,
    y: int,
)
    requires
        0 <= k,
        v.xres <= f.line_length,
        screen_fits(before.len() as int, v, f),
        is_drawn(before, drawn, f, v.xres as int, v.yres as int, pattern(plan.at(k).frame)),
        is_drawn(drawn, marked, f, marker_width(text, v), marker_height(v), marker(text)),
        is_drawn(
            marked,
            next_drawn,
            f,
            v.xres as int,
            v.yres as int,
            pattern(plan.at(k + 1).frame),
        ),
        is_drawn(
            next_drawn,
            next_marked,
            f,
            marker_width(next_text, v),
            marker_height(v),
            marker(next_text),
        ),
        on_screen(v, x, y),
        !in_corner(marker_width(text, v), marker_height(v), x, y),
        !in_corner(marker_width(next_text, v), marker_height(v), x, y),
    ensures
        next_marked[offset(f, x, y)] == 0xff - marked[offset(f, x, y)],
{
    law_marker_covers_only_its_corner(
        before,
        drawn,
        marked,
        v,
        f,
        plan.at(k).frame,
        text,
        x,
        y,
    );
    law_marker_covers_only_its_corner(
        marked,
        next_drawn,
        next_marked,
        v,
        f,
        plan.at(k + 1).frame,
        next_text,
        x,
        y,
    );
    law_measurements_invert(plan, k, x, y);
}

/// No two letters of the font are the same.
pub proof fn law_letters_differ(i: int, j: int)
    requires
        0 <= i < j < 36,
    ensures
        FONT@[i] != FONT@[j],
{
}

/// Every letter of the font has ink, and none outside its five columns and seven rows.
pub proof fn law_letters_have_ink(i: int)
    requires
        0 <= i < 36,
    ensures
        0 < FONT@[i] < 0x8_0000_0000,
{
}

/// The lowest bit from `k` on in which two letters differ.
proof fn lemma_differing_bit(a: u64, b: u64, k: u64) -> (bit: u64)
    requires
        k <= 35,
        a < 0x8_0000_0000,
        b < 0x8_0000_0000,
        a >> k != b >> k,
    ensures
        k <= bit < 35,
        (a >> bit) & 1u64 != (b >> bit) & 1u64,
    decreases 35 - k,
{
    if k == 35 {
        assert(a >> 35u64 == 0 && b >> 35u64 == 0) by (bit_vector)
            requires
                a < 0x8_0000_0000,
                b < 0x8_0000_0000,
        ;
        k
    } else if (a >> k) & 1u64 != (b >> k) & 1u64 {
        k
    } else {
        let next = (k + 1) as u64;
        assert(a >> next != b >> next) by (bit_vector)
            requires
                k < 35,
                next == k + 1,
                a >> k != b >> k,
                (a >> k) & 1u64 == (b >> k) & 1u64,
        ;
        lemma_differing_bit(a, b, next)
    }
}

/// Two different characters of the font can be told apart: in some column and row one has
/// ink and the other has none.
pub proof fn law_characters_look_different(a: char, b: char)
    requires
        font_index(a) is Some,
        font_index(b) is Some,
        a != b,
    ensures
        exists|column: int, row: int|
            {
                &&& 0 <= column < 5
                &&& 0 <= row < 7
                &&& #[trigger] has_ink(a, column, row) != has_ink(b, column, row)
            },
{
    let i = font_index(a)->0;
    let j = font_index(b)->0;
    law_letters_have_ink(i);
    law_letters_have_ink(j);
    if i < j {
        law_letters_differ(i, j);
    } else {
        law_letters_differ(j, i);
    }
    let p = FONT@[i];
    let q = FONT@[j];
    assert(p >> 0u64 == p && q >> 0u64 == q) by (bit_vector);
    let bit = lemma_differing_bit(p, q, 0);
    assert((p >> bit) & 1u64 == 0 || (p >> bit) & 1u64 == 1) by (bit_vector);
    assert((q >> bit) & 1u64 == 0 || (q >> bit) & 1u64 == 1) by (bit_vector);
    let column = bit as int % 5;
    let row = bit as int / 5;
    assert((5 * row + column) as u64 == bit);
    assert(has_ink(a, column, row) != has_ink(b, column, row));
}

/// Two markers that differ in a character of the font can be told apart: they differ in a
/// pixel of that character.
pub proof fn law_markers_look_different(s: Seq<char>, t: Seq<char>, i: int)
    requires
        0 <= i < s.len(),
        i < t.len(),
        font_index(s[i]) is Some,
        font_index(t[i]) is Some,
        s[i] != t[i],
    ensures
        exists|x: int, y: int|
            {
                &&& 24 * i <= x < 24 * (i + 1)
                &&& 0 <= y < 36
                &&& #[trigger] marker_pixel(s, x, y) != marker_pixel(t, x, y)
            },
{
    law_characters_look_different(s[i], t[i]);
    let (column, row) = choose|column: int, row: int|
        {
            &&& 0 <= column < 5
            &&& 0 <= row < 7
            &&& #[trigger] has_ink(s[i], column, row) != has_ink(t[i], column, row)
        };
    let x = 4 * (6 * i + column + 1);
    let y = 4 * (row + 1);
    assert(x / 4 - 1 == 6 * i + column);
    assert((6 * i + column) / 6 == i && (6 * i + column) % 6 == column);
    assert(y / 4 - 1 == row);
    assert(marker_pixel(s, x, y) != marker_pixel(t, x, y));
}

/// A plan of single effects goes through the list, `n` times each.
pub proof fn law_single_order(plan: Plan, which: int, again: int)
    requires
        plan is Single,
        0 <= which < plan->fx_list@.len(),
        0 <= again < plan->n,
    ensures
        which * plan->n + again < plan.total(),
        plan.at(which * plan->n + again).fx == plan->fx_list@[which],
        plan.at(which * plan->n + again).place == (Place::Repetition { seq: again as u32 }),
{
    let n = plan->n as int;
    let len = plan->fx_list@.len() as int;
    vstd::arithmetic::div_mod::lemma_fundamental_div_mod_converse(
        which * n + again,
        n,
        which,
        again,
    );
    assert(which * n + again < len * n) by (nonlinear_arith)
        requires
            0 <= which < len,
            0 <= again < n,
    ;
}

/// A plan with a sequence goes through it once in each round.
pub proof fn law_sequence_order(plan: Plan, round: int, step: int)
    requires
        plan is Sequence,
        0 <= round < plan->rounds,
        0 <= step < plan->seq@.len(),
    ensures
        round * plan->seq@.len() + step < plan.total(),
        plan.at(round * plan->seq@.len() + step).fx == plan->seq@[step],
        plan.at(round * plan->seq@.len() + step).place == (Place::InRound {
            round: round as u32,
            step: step as usize,
        }),
{
    let rounds = plan->rounds as int;
    let len = plan->seq@.len() as int;
    vstd::arithmetic::div_mod::lemma_fundamental_div_mod_converse(
        round * len + step,
        len,
        round,
        step,
    );
    assert(round * len + step < len * rounds) by (nonlinear_arith)
        requires
            0 <= round < rounds,
            0 <= step < len,
    ;
}

/// A line of the table splits at its commas into the columns, and each of them reads
/// back as its number.
pub proof fn law_line_reads_back(numbers: Seq<int>, i: int)
    requires
        0 <= i < numbers.len(),
    ensures
        crate::text::pieces(joined(numbers), ',').len() == numbers.len(),
        crate::text::integer(crate::text::pieces(joined(numbers), ',')[i]) == Some(numbers[i]),
    decreases numbers.len(),
{
    let last = crate::text::decimal_int(numbers.last());
    crate::text::law_decimal_int_reads_back(numbers.last());
    crate::text::law_single_piece(last, ',');
    if numbers.len() > 1 {
        let rest = numbers.drop_last();
        crate::text::law_pieces_of_parts(joined(rest), last, ',');
        if i < rest.len() {
            law_line_reads_back(rest, i);
        } else {
            law_line_reads_back(rest, 0);
        }
    }
}

/// The first line of the table names as many columns as every other line has.
pub proof fn law_header_names_the_columns(plan: Plan, k: int, usec: u128, errno: i32)
    ensures
        crate::text::pieces(plan.header_text(), ',').len() == columns(
            plan.at(k),
            usec,
            errno,
        ).len(),
{
    reveal_strlit("fx");
    reveal_strlit("seq");
    reveal_strlit("round");
    reveal_strlit("step");
    reveal_strlit("ioctl_usec");
    reveal_strlit("error");
    reveal_strlit("fx,seq,ioctl_usec,error");
    reveal_strlit("fx,round,step,ioctl_usec,error");
    let comma = seq![','];
    crate::text::law_single_piece("fx"@, ',');
    crate::text::law_single_piece("seq"@, ',');
    crate::text::law_single_piece("round"@, ',');
    crate::text::law_single_piece("step"@, ',');
    crate::text::law_single_piece("ioctl_usec"@, ',');
    crate::text::law_single_piece("error"@, ',');
    if plan is Single {
        let two = "fx"@ + comma + "seq"@;
        let three = two + comma + "ioctl_usec"@;
        crate::text::law_pieces_of_parts("fx"@, "seq"@, ',');
        crate::text::law_pieces_of_parts(two, "ioctl_usec"@, ',');
        crate::text::law_pieces_of_parts(three, "error"@, ',');
        assert(plan.header_text() =~= three + comma + "error"@);
    } else {
        let two = "fx"@ + comma + "round"@;
        let three = two + comma + "step"@;
        let four = three + comma + "ioctl_usec"@;
        crate::text::law_pieces_of_parts("fx"@, "round"@, ',');
        crate::text::law_pieces_of_parts(two, "step"@, ',');
        crate::text::law_pieces_of_parts(three, "ioctl_usec"@, ',');
        crate::text::law_pieces_of_parts(four, "error"@, ',');
        assert(plan.header_text() =~= four + comma + "error"@);
    }
}

} // verus!
