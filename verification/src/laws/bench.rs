//! The benchmark: which effects are timed when, what is drawn, and what the table says.

#![allow(unused_imports)]

use crate::bench::{
    draw_marker, draw_pattern, full_area, mapping_len, parse_fx_list, pattern_fits, restore, run,
    run_begin, run_next, run_seq, Bench, Measurement, Place, Plan, RunOutcome, RunStep, FONT,
};
use crate::eink::{to_coord, DriverError, FixScreenInfo, UpdateArea, VarScreenInfo};
use crate::fx::{FX_FAST, FX_PARTIAL, FX_SLOW};
use crate::text::{integer, pieces, push_decimal, trim_text};
use vstd::prelude::*;

verus! {

/// The effects of two lists with a comma between them are those of the one and then those
/// of the other.
pub proof fn law_effects_of_parts(
    a: &str,
    b: &str,
    s: &str,
    of_a: Vec<i32>,
    of_b: Vec<i32>,
    of_s: Vec<i32>,
)
    requires
        s@ == a@ + seq![','] + b@,
        call_ensures(parse_fx_list, (a,), of_a),
        call_ensures(parse_fx_list, (b,), of_b),
        call_ensures(parse_fx_list, (s,), of_s),
    ensures
        of_s@ == of_a@ + of_b@,
{
    crate::bench::law_list_of_parts(a@, b@);
}

/// A list without a comma gives one effect where it is one of the three names, with any
/// white space around it, and nothing otherwise.
pub proof fn law_effect_of_a_name(s: &str, name: &str, list: Vec<i32>)
    requires
        !s@.contains(','),
        call_ensures(trim_text, (s,), name),
        call_ensures(parse_fx_list, (s,), list),
    ensures
        name@ == "partial"@ ==> list@ == seq![FX_PARTIAL],
        name@ == "fast"@ ==> list@ == seq![FX_FAST],
        name@ == "slow"@ ==> list@ == seq![FX_SLOW],
        name@ != "partial"@ && name@ != "fast"@ && name@ != "slow"@ ==> list@.len() == 0,
{
    reveal_strlit("partial");
    reveal_strlit("fast");
    reveal_strlit("slow");
    assert("partial"@.len() == 7 && "fast"@.len() == 4 && "slow"@.len() == 4);
    assert("fast"@[0] != "slow"@[0]);
    crate::text::law_single_piece(s@, ',');
    let one = seq![s@];
    let f = crate::bench::piece_fx();
    assert(one.drop_last().filter_map(f) =~= Seq::empty());
    assert(one.last() == s@);
    assert(f(s@) == crate::bench::named_fx(name@));
    match crate::bench::named_fx(name@) {
        Some(fx) => {
            assert(one.filter_map(f) =~= seq![fx]);
        },
        None => {
            assert(one.filter_map(f) =~= Seq::empty());
        },
    }
}

/// The pattern fits into memory exactly where every pixel of the screen has its byte.
pub proof fn law_pattern_fits(
    len: usize,
    v: VarScreenInfo,
    f: FixScreenInfo,
    fits: bool,
    x: int,
    y: int,
)
    requires
        call_ensures(pattern_fits, (len, &v, &f), fits),
    ensures
        fits && 0 <= x < v.xres && 0 <= y < v.yres ==> 0 <= y * f.line_length + x < len,
        !fits ==> {
            &&& 0 < v.xres
            &&& 0 < v.yres
            &&& (v.yres - 1) * f.line_length + (v.xres - 1) >= len
        },
{
    if 0 <= x < v.xres && 0 <= y < v.yres {
        let stride = f.line_length as int;
        let last = v.yres - 1;
        assert(0 <= y * stride <= last * stride) by (nonlinear_arith)
            requires
                0 <= y <= last,
                0 <= stride,
        ;
    }
}

/// What is drawn on the screen: at every pixel the checkerboard of this frame. Where lines
/// overlap, the lower one is seen.
pub proof fn law_drawn_pattern(
    fb: &mut [u8],
    v: VarScreenInfo,
    f: FixScreenInfo,
    frame: u32,
    x: int,
    y: int,
)
    requires
        call_ensures(draw_pattern, (fb, &v, &f, frame), ()),
        0 <= x < v.xres,
        0 <= y < v.yres,
        x < f.line_length || y == v.yres - 1,
    ensures
        final(fb)@.len() == old(fb)@.len(),
        (x / 8 + y / 8 + frame) % 2 == 0 ==> final(fb)@[y * f.line_length + x] == 0,
        (x / 8 + y / 8 + frame) % 2 == 1 ==> final(fb)@[y * f.line_length + x] == 0xff,
{
    let at = crate::bench::offset(f, x, y);
    assert(crate::bench::in_corner(v.xres as int, v.yres as int, x, y));
    assert(final(fb)@[at] == crate::bench::pattern(frame)(x, y));
}

/// In a drawn picture whose lines do not overlap, a pixel is the inverse of the one eight
/// pixels to its left and of the one eight pixels above it, and the pixel in the corner is
/// black in every frame with an even number.
pub proof fn law_drawn_squares(
    fb: &mut [u8],
    v: VarScreenInfo,
    f: FixScreenInfo,
    frame: u32,
    x: int,
    y: int,
)
    requires
        call_ensures(draw_pattern, (fb, &v, &f, frame), ()),
        v.xres <= f.line_length,
        0 <= x < v.xres,
        0 <= y < v.yres,
    ensures
        x >= 8 ==> final(fb)@[y * f.line_length + x] == 0xff - final(fb)@[y * f.line_length + x
            - 8],
        y >= 8 ==> final(fb)@[y * f.line_length + x] == 0xff - final(fb)@[(y - 8) * f.line_length
            + x],
        x < 8 && y < 8 && frame % 2 == 0 ==> final(fb)@[y * f.line_length + x] == 0,
{
    law_drawn_pattern(fb, v, f, frame, x, y);
    if x >= 8 {
        law_drawn_pattern(fb, v, f, frame, x - 8, y);
        assert(y * f.line_length + (x - 8) == y * f.line_length + x - 8);
    }
    if y >= 8 {
        law_drawn_pattern(fb, v, f, frame, x, y - 8);
    }
}

/// The pictures of two frames in a row are inverse to each other at every pixel.
pub proof fn law_next_frame_inverts(
    fb: &mut [u8],
    next: &mut [u8],
    v: VarScreenInfo,
    f: FixScreenInfo,
    frame: u32,
    x: int,
    y: int,
)
    requires
        frame < u32::MAX,
        call_ensures(draw_pattern, (fb, &v, &f, frame), ()),
        call_ensures(draw_pattern, (next, &v, &f, (frame + 1) as u32), ()),
        0 <= x < v.xres,
        0 <= y < v.yres,
        x < f.line_length || y == v.yres - 1,
    ensures
        final(next)@[y * f.line_length + x] == 0xff - final(fb)@[y * f.line_length + x],
{
    law_drawn_pattern(fb, v, f, frame, x, y);
    law_drawn_pattern(next, v, f, (frame + 1) as u32, x, y);
}

proof fn lemma_corner_byte(f: FixScreenInfo, w: int, h: int, at: int)
    requires
        crate::bench::is_corner_byte(f, w, h, at),
    ensures
        0 < w,
        0 < h,
        0 <= at < (h - 1) * f.line_length + w,
        w <= f.line_length ==> at / (f.line_length as int) < h && at % (f.line_length as int) < w,
{
    let (x, y) = choose|x: int, y: int|
        #![trigger crate::bench::offset(f, x, y)]
        crate::bench::in_corner(w, h, x, y) && at == crate::bench::offset(f, x, y);
    let stride = f.line_length as int;
    let last = h - 1;
    assert(0 <= y * stride <= last * stride) by (nonlinear_arith)
        requires
            0 <= y <= last,
            0 <= stride,
    ;
    if w <= stride {
        vstd::arithmetic::div_mod::lemma_fundamental_div_mod_converse(at, stride, y, x);
    }
}

/// Drawing the pattern changes nothing but the bytes of the screen.
pub proof fn law_pattern_stays_on_the_screen(
    fb: &mut [u8],
    v: VarScreenInfo,
    f: FixScreenInfo,
    frame: u32,
    at: int,
)
    requires
        call_ensures(draw_pattern, (fb, &v, &f, frame), ()),
        0 <= at < old(fb)@.len(),
        final(fb)@[at] != old(fb)@[at],
    ensures
        at < (v.yres - 1) * f.line_length + v.xres,
        v.xres <= f.line_length ==> {
            &&& at / (f.line_length as int) < v.yres
            &&& at % (f.line_length as int) < v.xres
        },
{
    lemma_corner_byte(f, v.xres as int, v.yres as int, at);
}

/// Drawing the marker changes nothing but the bytes of its corner: 36 lines of 24 pixels
/// for each character and four more, as far as they are on the screen.
pub proof fn law_marker_stays_in_its_corner(
    fb: &mut [u8],
    v: VarScreenInfo,
    f: FixScreenInfo,
    text: &str,
    at: int,
)
    requires
        call_ensures(draw_marker, (fb, &v, &f, text), ()),
        0 <= at < old(fb)@.len(),
        final(fb)@[at] != old(fb)@[at],
    ensures
        at < (v.yres - 1) * f.line_length + v.xres,
        at < 35 * f.line_length + 24 * text@.len() + 4,
        v.xres <= f.line_length ==> {
            &&& at / (f.line_length as int) < v.yres
            &&& at / (f.line_length as int) < 36
            &&& at % (f.line_length as int) < v.xres
            &&& at % (f.line_length as int) < 24 * text@.len() + 4
        },
{
    lemma_corner_byte(
        f,
        crate::bench::marker_width(text@, v),
        crate::bench::marker_height(v),
        at,
    );
    let stride = f.line_length as int;
    let rows = crate::bench::marker_height(v) - 1;
    let all_rows = v.yres - 1;
    assert(rows * stride <= all_rows * stride && rows * stride <= 35 * stride) by (nonlinear_arith)
        requires
            rows <= all_rows,
            rows <= 35,
            0 <= stride,
    ;
}

/// The marker: each character has a cell of 24 by 36 pixels, with a margin of four pixels
/// at the left and the top, in which every point of the letter is four by four pixels. Ink
/// is black and everything else is white; a character without a letter has no ink. Where
/// lines overlap, the lower one is seen.
pub proof fn law_drawn_marker(
    fb: &mut [u8],
    v: VarScreenInfo,
    f: FixScreenInfo,
    text: &str,
    x: int,
    y: int,
)
    requires
        call_ensures(draw_marker, (fb, &v, &f, text), ()),
        0 <= x < v.xres,
        0 <= y < v.yres,
        x < 24 * text@.len() + 4,
        y < 36,
        x < f.line_length || y == 35 || y == v.yres - 1,
    ensures
        final(fb)@.len() == old(fb)@.len(),
        ({
            let c = text@[x / 24];
            let column = (x % 24 - 4) / 4;
            let row = (y - 4) / 4;
            let margin = x % 24 < 4 || y < 4 || y >= 32;
            let letter = if '0' as u32 <= c as u32 <= '9' as u32 {
                c as u32 - '0' as u32
            } else {
                c as u32 - 'A' as u32 + 10
            };
            let known = '0' as u32 <= c as u32 <= '9' as u32 || 'A' as u32 <= c as u32 <= 'Z'
                as u32;
            final(fb)@[y * f.line_length + x] == if !margin && known && (FONT@[letter] >> ((5
                * row + column) as u64)) & 1u64 == 1u64 {
                0u8
            } else {
                0xffu8
            }
        }),
{
    let w = crate::bench::marker_width(text@, v);
    let h = crate::bench::marker_height(v);
    let at = crate::bench::offset(f, x, y);
    assert(crate::bench::in_corner(w, h, x, y));
    assert(final(fb)@[at] == crate::bench::marker(text@)(x, y));
    assert(final(fb)@[at] == crate::bench::marker_pixel(text@, x, y));
    let cell = x / 4 - 1;
    if x >= 4 {
        if x % 24 < 4 {
            assert(cell % 6 == 5);
        } else {
            assert(cell / 6 == x / 24);
            assert(cell % 6 == (x % 24 - 4) / 4);
        }
    }
    if y >= 4 {
        assert(y / 4 - 1 == (y - 4) / 4);
    }
}

/// A benchmark of single effects goes through the list, each effect `n` times in a row;
/// the measurements are counted from 0, and the frames with them. Behind the last one
/// there is none.
pub proof fn law_single_measurements(
    fx_list: &[i32],
    n: u32,
    start: Bench,
    bench: Bench,
    which: int,
    again: int,
    m: Option<Measurement>,
)
    requires
        call_ensures(run, (fx_list, n), start),
        bench.plan == start.plan,
        call_ensures(Bench::next, (&bench,), m),
    ensures
        start.rows == 0,
        start.errors == 0,
        0 <= which < fx_list@.len() && 0 <= again < n && bench.rows == which * n + again
            ==> m == Some(
            Measurement {
                fx: fx_list@[which],
                place: Place::Repetition { seq: again as u32 },
                frame: (bench.rows % 0x1_0000_0000) as u32,
            },
        ),
        bench.rows >= fx_list@.len() * n ==> m is None,
{
    if 0 <= which < fx_list@.len() && 0 <= again < n && bench.rows == which * n + again {
        crate::bench::law_single_order(bench.plan, which, again);
    }
}

/// A benchmark of a sequence goes through it once in each round; the measurements are
/// counted from 0, and the frames with them. Behind the last one there is none. An empty
/// sequence is refused.
pub proof fn law_sequence_measurements(
    seq: &[i32],
    rounds: u32,
    start: Option<Bench>,
    bench: Bench,
    round: int,
    step: int,
    m: Option<Measurement>,
)
    requires
        call_ensures(run_seq, (seq, rounds), start),
        start matches Some(b) ==> bench.plan == b.plan,
        call_ensures(Bench::next, (&bench,), m),
    ensures
        start is None <==> seq@.len() == 0,
        start matches Some(b) ==> b.rows == 0 && b.errors == 0,
        0 <= round < rounds && 0 <= step < seq@.len() && bench.rows == round * seq@.len() + step
            ==> m == Some(
            Measurement {
                fx: seq@[step],
                place: Place::InRound { round: round as u32, step: step as usize },
                frame: (bench.rows % 0x1_0000_0000) as u32,
            },
        ),
        seq@.len() > 0 && bench.rows >= seq@.len() * rounds ==> m is None,
{
    if 0 <= round < rounds && 0 <= step < seq@.len() && bench.rows == round * seq@.len() + step {
        crate::bench::law_sequence_order(bench.plan, round, step);
    }
}

/// A line of a table of single effects: the effect, how often it was timed before, the
/// microseconds, and the error number or 0. The line is counted, and as a failure where
/// the driver refused.
pub proof fn law_single_line(
    bench: &mut Bench,
    which: int,
    again: int,
    usec: u128,
    reply: Result<(), DriverError>,
    line: String,
)
    requires
        old(bench).plan is Single,
        0 <= which < old(bench).plan->fx_list@.len(),
        0 <= again < old(bench).plan->n,
        old(bench).rows == which * old(bench).plan->n + again,
        call_ensures(Bench::finish, (bench, usec, reply), line),
    ensures
        pieces(line@, ',').len() == 4,
        integer(pieces(line@, ',')[0]) == Some(old(bench).plan->fx_list@[which] as int),
        integer(pieces(line@, ',')[1]) == Some(again),
        integer(pieces(line@, ',')[2]) == Some(usec as int),
        integer(pieces(line@, ',')[3]) == Some(
            match reply {
                Err(DriverError { raw_os_error: Some(n) }) => n as int,
                _ => 0,
            },
        ),
        final(bench).plan == old(bench).plan,
        final(bench).rows == old(bench).rows + 1,
        reply is Ok ==> final(bench).errors == old(bench).errors,
        reply is Err ==> final(bench).errors == old(bench).errors + 1,
{
    crate::bench::law_single_order(old(bench).plan, which, again);
    let m = old(bench).plan.at(old(bench).rows as int);
    let numbers = crate::bench::columns(m, usec, crate::bench::error_column(reply));
    assert(numbers.len() == 4);
    crate::bench::law_line_reads_back(numbers, 0);
    crate::bench::law_line_reads_back(numbers, 1);
    crate::bench::law_line_reads_back(numbers, 2);
    crate::bench::law_line_reads_back(numbers, 3);
}

/// A line of a table of a sequence: the effect, the round, the place in the sequence, the
/// microseconds, and the error number or 0. The line is counted, and as a failure where
/// the driver refused.
pub proof fn law_sequence_line(
    bench: &mut Bench,
    round: int,
    step: int,
    usec: u128,
    reply: Result<(), DriverError>,
    line: String,
)
    requires
        old(bench).plan is Sequence,
        0 <= round < old(bench).plan->rounds,
        0 <= step < old(bench).plan->seq@.len(),
        old(bench).rows == round * old(bench).plan->seq@.len() + step,
        call_ensures(Bench::finish, (bench, usec, reply), line),
    ensures
        pieces(line@, ',').len() == 5,
        integer(pieces(line@, ',')[0]) == Some(old(bench).plan->seq@[step] as int),
        integer(pieces(line@, ',')[1]) == Some(round),
        integer(pieces(line@, ',')[2]) == Some(step),
        integer(pieces(line@, ',')[3]) == Some(usec as int),
        integer(pieces(line@, ',')[4]) == Some(
            match reply {
                Err(DriverError { raw_os_error: Some(n) }) => n as int,
                _ => 0,
            },
        ),
        final(bench).plan == old(bench).plan,
        final(bench).rows == old(bench).rows + 1,
        reply is Ok ==> final(bench).errors == old(bench).errors,
        reply is Err ==> final(bench).errors == old(bench).errors + 1,
{
    crate::bench::law_sequence_order(old(bench).plan, round, step);
    assert(step < old(bench).plan->seq.len() <= usize::MAX);
    let m = old(bench).plan.at(old(bench).rows as int);
    let numbers = crate::bench::columns(m, usec, crate::bench::error_column(reply));
    assert(numbers.len() == 5);
    crate::bench::law_line_reads_back(numbers, 0);
    crate::bench::law_line_reads_back(numbers, 1);
    crate::bench::law_line_reads_back(numbers, 2);
    crate::bench::law_line_reads_back(numbers, 3);
    crate::bench::law_line_reads_back(numbers, 4);
}

/// The effect in a line is that of the measurement that was due, and the table holds one
/// line for each measurement.
pub proof fn law_line_is_of_the_due_measurement(
    before: Bench,
    m: Option<Measurement>,
    bench: &mut Bench,
    usec: u128,
    reply: Result<(), DriverError>,
    line: String,
)
    requires
        before == *old(bench),
        call_ensures(Bench::next, (&before,), m),
        call_ensures(Bench::finish, (bench, usec, reply), line),
        m is Some,
    ensures
        m matches Some(found) ==> {
            &&& integer(pieces(line@, ',')[0]) == Some(found.fx as int)
            &&& found.place matches Place::Repetition { seq } ==> integer(pieces(line@, ',')[1])
                == Some(seq as int)
            &&& found.place matches Place::InRound { round, step } ==> {
                &&& integer(pieces(line@, ',')[1]) == Some(round as int)
                &&& integer(pieces(line@, ',')[2]) == Some(step as int)
            }
        },
        final(bench).rows == before.rows + 1,
{
    let found = m->0;
    let numbers = crate::bench::columns(found, usec, crate::bench::error_column(reply));
    crate::bench::law_line_reads_back(numbers, 0);
    crate::bench::law_line_reads_back(numbers, 1);
    crate::bench::law_line_reads_back(numbers, 2);
}

/// The first line names the columns in the order in which the other lines have them.
pub proof fn law_header(bench: Bench, line: String)
    requires
        call_ensures(Bench::header, (&bench,), line),
    ensures
        bench.plan is Single ==> pieces(line@, ',') == seq![
            "fx"@,
            "seq"@,
            "ioctl_usec"@,
            "error"@,
        ],
        bench.plan is Sequence ==> pieces(line@, ',') == seq![
            "fx"@,
            "round"@,
            "step"@,
            "ioctl_usec"@,
            "error"@,
        ],
{
    reveal_strlit("fx");
    reveal_strlit("seq");
    reveal_strlit("round");
    reveal_strlit("step");
    reveal_strlit("ioctl_usec");
    reveal_strlit("error");
    reveal_strlit("fx,seq,ioctl_usec,error");
    reveal_strlit("fx,round,step,ioctl_usec,error");
    let comma = seq![','];
    crate::text::law_single_piece("fx"@, ',');
    crate::text::law_single_piece("seq"@, ',');
    crate::text::law_single_piece("round"@, ',');
    crate::text::law_single_piece("step"@, ',');
    crate::text::law_single_piece("ioctl_usec"@, ',');
    crate::text::law_single_piece("error"@, ',');
    if bench.plan is Single {
        let two = "fx"@ + comma + "seq"@;
        let three = two + comma + "ioctl_usec"@;
        crate::text::law_pieces_of_parts("fx"@, "seq"@, ',');
        crate::text::law_pieces_of_parts(two, "ioctl_usec"@, ',');
        crate::text::law_pieces_of_parts(three, "error"@, ',');
        assert(line@ =~= three + comma + "error"@);
        assert(pieces(line@, ',') =~= seq!["fx"@, "seq"@, "ioctl_usec"@, "error"@]);
    } else {
        let two = "fx"@ + comma + "round"@;
        let three = two + comma + "step"@;
        let four = three + comma + "ioctl_usec"@;
        crate::text::law_pieces_of_parts("fx"@, "round"@, ',');
        crate::text::law_pieces_of_parts(two, "step"@, ',');
        crate::text::law_pieces_of_parts(three, "ioctl_usec"@, ',');
        crate::text::law_pieces_of_parts(four, "error"@, ',');
        assert(line@ =~= four + comma + "error"@);
        assert(pieces(line@, ',') =~= seq!["fx"@, "round"@, "step"@, "ioctl_usec"@, "error"@]);
    }
}

/// The marker says the label and, behind it, the number of the next measurement, counted
/// from 1, in decimal.
pub proof fn law_marker_text(bench: Bench, label: &str, text: String, written: &mut String)
    requires
        bench.rows < u128::MAX,
        call_ensures(Bench::marker_text, (&bench, label), text),
        old(written)@ == label@,
        call_ensures(push_decimal, (written, (bench.rows + 1) as u128), ()),
    ensures
        text@ == final(written)@,
{
}

/// There is a pause before every measurement but the first.
pub proof fn law_pause(bench: Bench, delay_ms: u64, ms: u64)
    requires
        call_ensures(Bench::pause_ms, (&bench, delay_ms), ms),
    ensures
        bench.rows == 0 ==> ms == 0,
        bench.rows > 0 ==> ms == delay_ms,
{
}

/// A measurement refreshes every pixel of the screen, with its effect.
pub proof fn law_full_area(
    v: VarScreenInfo,
    fx: i32,
    w: i32,
    h: i32,
    area: UpdateArea,
    x: int,
    y: int,
)
    requires
        call_ensures(to_coord, (v.xres,), w),
        call_ensures(to_coord, (v.yres,), h),
        call_ensures(full_area, (&v, fx), area),
    ensures
        v.xres <= i32::MAX && v.yres <= i32::MAX ==> (area.x1 <= x < area.x2 && area.y1 <= y
            < area.y2 <==> 0 <= x < v.xres && 0 <= y < v.yres),
        area.x1 == 0 && area.y1 == 0,
        area.x2 == w && area.y2 == h,
        area.which_fx == fx,
{
}

/// As many bytes are mapped as the driver reports, and none where it reports none.
pub proof fn law_mapping_len(f: FixScreenInfo, len: Option<usize>)
    requires
        call_ensures(mapping_len, (&f,), len),
    ensures
        f.smem_len == 0 <==> len is None,
        len matches Some(n) ==> n == f.smem_len,
{
}

/// A run maps the memory that the driver reports exactly where there is some and every
/// pixel of the screen has its byte in it; otherwise it ends at once and says which of
/// the two is missing.
pub proof fn law_run_begins(v: VarScreenInfo, f: FixScreenInfo, fits: bool, step: RunStep)
    requires
        call_ensures(run_begin, (&v, &f), step),
        call_ensures(pattern_fits, (f.smem_len as usize, &v, &f), fits),
    ensures
        f.smem_len == 0 ==> step == (RunStep::Return { outcome: RunOutcome::NoMemory }),
        f.smem_len > 0 && !fits ==> step == (RunStep::Return { outcome: RunOutcome::DoesNotFit }),
        f.smem_len > 0 && fits ==> step == (RunStep::MapMemory { len: f.smem_len as usize }),
{
}

/// From mapping to the end: memory that could not be mapped ends the run. Otherwise the
/// run measures, puts the screen back with a slow refresh, unmaps the memory and ends, in
/// this order and whatever fails. It reports the measurements first and the unmapping
/// second, and the refresh not at all.
pub proof fn law_run_goes_on(
    len: usize,
    mapped: bool,
    measured: bool,
    refreshed: bool,
    unmapped: bool,
    first: RunStep,
    second: RunStep,
    third: RunStep,
    fourth: RunStep,
)
    requires
        call_ensures(run_next, (RunStep::MapMemory { len }, mapped), first),
        call_ensures(run_next, (first, measured), second),
        call_ensures(run_next, (second, refreshed), third),
        call_ensures(run_next, (third, unmapped), fourth),
    ensures
        !mapped ==> {
            &&& first == (RunStep::Return { outcome: RunOutcome::NotMapped })
            &&& second == first
            &&& third == first
            &&& fourth == first
        },
        mapped ==> {
            &&& first == RunStep::Measure
            &&& second matches RunStep::Restore { which_fx, measured: kept } && which_fx == FX_SLOW
                && kept == measured
            &&& third is UnmapMemory
            &&& fourth is Return
            &&& !measured ==> fourth == (RunStep::Return { outcome: RunOutcome::NotMeasured })
            &&& measured && !unmapped ==> fourth == (RunStep::Return {
                outcome: RunOutcome::NotUnmapped,
            })
            &&& measured && unmapped ==> fourth == (RunStep::Return { outcome: RunOutcome::Done })
        },
{
}

/// A run that has ended stays as it ended. Whether the measurements were made is kept from
/// the time they were until the memory is unmapped, whatever becomes of the refresh.
pub proof fn law_run_keeps_what_happened(
    outcome: RunOutcome,
    which_fx: i32,
    measured: bool,
    ok: bool,
    ended: RunStep,
    refreshed: RunStep,
)
    requires
        call_ensures(run_next, (RunStep::Return { outcome }, ok), ended),
        call_ensures(run_next, (RunStep::Restore { which_fx, measured }, ok), refreshed),
    ensures
        ended == (RunStep::Return { outcome }),
        refreshed == (RunStep::UnmapMemory { measured }),
{
}

/// What was saved is put back byte by byte.
pub proof fn law_restored(fb: &mut [u8], saved: &[u8], at: int)
    requires
        call_ensures(restore, (fb, saved), ()),
    ensures
        final(fb)@.len() == saved@.len(),
        0 <= at < saved@.len() ==> final(fb)@[at] == saved@[at],
{
}

} // verus!
