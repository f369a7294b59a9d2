//! The C interface: return codes, descriptors, and the text of the last error.

#![allow(unused_imports)]

use crate::abi::{
    error_text, error_to_report, k4refresh_close, k4refresh_flash, k4refresh_last_error,
    k4refresh_open, k4refresh_refresh, k4refresh_screen_size, k4refresh_set_mode, open_size_reply,
    opened, size_reply, write_text, OpenStep, SizeStep,
};
use crate::eink::{
    call_result, DriverError, FixScreenInfo, FxStruct, UpdateArea, VarScreenInfo,
};
use crate::session::State;
use crate::text::push_decimal_i32;
use vstd::prelude::*;

verus! {

/// The code of a refresh is its effect, and the state stays; a failure gives -1, leaves its
/// error number behind, or 0 where it has none, and changes nothing else. A flash does the
/// same.
pub proof fn law_refresh_code(
    state: &mut State,
    flashed: &mut State,
    outcome: Result<i32, DriverError>,
    code: i32,
    flash_code: i32,
)
    requires
        call_ensures(k4refresh_refresh, (state, outcome), code),
        *old(flashed) == *old(state),
        call_ensures(k4refresh_flash, (flashed, outcome), flash_code),
    ensures
        outcome matches Ok(fx) ==> code == fx && *final(state) == *old(state),
        outcome matches Err(error) ==> {
            &&& code == -1
            &&& error.raw_os_error matches Some(n) ==> final(state).last_errno == n
            &&& error.raw_os_error is None ==> final(state).last_errno == 0
            &&& final(state).mode == old(state).mode
            &&& final(state).interval == old(state).interval
            &&& final(state).flips == old(state).flips
            &&& final(state).max_w == old(state).max_w
            &&& final(state).max_h == old(state).max_h
        },
        flash_code == code,
        *final(flashed) == *final(state),
{
}

/// The settings that are handed over are kept, an interval of 0 as 1, and nothing else
/// changes.
pub proof fn law_set_mode_code(state: &mut State, mode: u32, interval: u32)
    requires
        call_ensures(k4refresh_set_mode, (state, mode, interval), ()),
    ensures
        final(state).mode == mode,
        interval > 0 ==> final(state).interval == interval,
        interval == 0 ==> final(state).interval == 1,
        final(state).flips == old(state).flips,
        final(state).max_w == old(state).max_w,
        final(state).max_h == old(state).max_h,
        final(state).last_errno == old(state).last_errno,
{
}

/// A device is opened exactly where a path is given; without one the code is -3.
pub proof fn law_open(path_given: bool, step: OpenStep)
    requires
        call_ensures(k4refresh_open, (path_given,), step),
    ensures
        path_given ==> step == OpenStep::Open,
        !path_given ==> step == (OpenStep::Return { code: -3i32 }),
{
}

/// A descriptor is returned at once where the screen size is known, and else the driver is
/// asked for it; the state stays. Where the path could not be opened the code is -1 and
/// the error number is left behind.
pub proof fn law_opened(state: &mut State, result: Result<i32, DriverError>, step: OpenStep)
    requires
        call_ensures(opened, (state, result), step),
    ensures
        result matches Ok(fd) ==> {
            &&& *final(state) == *old(state)
            &&& old(state).max_w > 0 && old(state).max_h > 0 ==> step == (OpenStep::Return {
                code: fd,
            })
            &&& old(state).max_w <= 0 || old(state).max_h <= 0 ==> step == (OpenStep::QueryScreen {
                fd,
            })
        },
        result matches Err(error) ==> {
            &&& step == (OpenStep::Return { code: -1i32 })
            &&& error.raw_os_error matches Some(n) ==> final(state).last_errno == n
            &&& error.raw_os_error is None ==> final(state).last_errno == 0
            &&& *final(state) == (State { last_errno: final(state).last_errno, ..*old(state) })
        },
{
}

/// A descriptor is returned where the driver reports the screen size, which is kept, and
/// closed with the code -1 where it does not; then the error number is left behind.
pub proof fn law_open_size_reply(
    state: &mut State,
    fd: i32,
    reply: Result<VarScreenInfo, DriverError>,
    step: OpenStep,
)
    requires
        call_ensures(open_size_reply, (state, fd, reply), step),
    ensures
        reply matches Ok(info) ==> {
            &&& step == (OpenStep::Return { code: fd })
            &&& info.xres <= i32::MAX ==> final(state).max_w == info.xres
            &&& info.yres <= i32::MAX ==> final(state).max_h == info.yres
            &&& info.xres > i32::MAX ==> final(state).max_w == info.xres - 0x1_0000_0000
            &&& info.yres > i32::MAX ==> final(state).max_h == info.yres - 0x1_0000_0000
            &&& final(state).mode == old(state).mode
            &&& final(state).interval == old(state).interval
            &&& final(state).flips == old(state).flips
            &&& final(state).last_errno == old(state).last_errno
        },
        reply matches Err(error) ==> {
            &&& step == (OpenStep::Close { fd, code: -1i32 })
            &&& error.raw_os_error matches Some(n) ==> final(state).last_errno == n
            &&& error.raw_os_error is None ==> final(state).last_errno == 0
            &&& *final(state) == (State { last_errno: final(state).last_errno, ..*old(state) })
        },
{
}

/// The screen size is stored where it is known, and else asked for; without a place for it
/// the code is -3.
pub proof fn law_screen_size(state: State, outputs_given: bool, step: SizeStep)
    requires
        call_ensures(k4refresh_screen_size, (&state, outputs_given), step),
    ensures
        !outputs_given ==> step == (SizeStep::Return { code: -3i32 }),
        outputs_given && state.max_w > 0 && state.max_h > 0 ==> step == (SizeStep::Store {
            w: state.max_w,
            h: state.max_h,
        }),
        outputs_given && (state.max_w <= 0 || state.max_h <= 0) ==> step == SizeStep::QueryScreen,
{
}

/// The size that the driver reports is kept and stored; where it reports none the code is
/// -1 and the error number is left behind.
pub proof fn law_size_reply(
    state: &mut State,
    reply: Result<VarScreenInfo, DriverError>,
    step: SizeStep,
)
    requires
        call_ensures(size_reply, (state, reply), step),
    ensures
        reply matches Ok(info) ==> {
            &&& step == (SizeStep::Store { w: final(state).max_w, h: final(state).max_h })
            &&& info.xres <= i32::MAX ==> final(state).max_w == info.xres
            &&& info.yres <= i32::MAX ==> final(state).max_h == info.yres
            &&& info.xres > i32::MAX ==> final(state).max_w == info.xres - 0x1_0000_0000
            &&& info.yres > i32::MAX ==> final(state).max_h == info.yres - 0x1_0000_0000
            &&& final(state).mode == old(state).mode
            &&& final(state).interval == old(state).interval
            &&& final(state).flips == old(state).flips
            &&& final(state).last_errno == old(state).last_errno
        },
        reply matches Err(error) ==> {
            &&& step == (SizeStep::Return { code: -1i32 })
            &&& error.raw_os_error matches Some(n) ==> final(state).last_errno == n
            &&& error.raw_os_error is None ==> final(state).last_errno == 0
            &&& *final(state) == (State { last_errno: final(state).last_errno, ..*old(state) })
        },
{
}

/// A text is written from the start of the buffer, whole where it fits with a zero byte
/// behind it and else as much of it as does; the zero byte follows, and the bytes behind
/// that stay as they were.
pub proof fn law_written_text(message: &[u8], buf: &mut [u8], len: i32, n: i32, i: int)
    requires
        1 <= len <= old(buf)@.len(),
        call_ensures(write_text, (message, buf, len), n),
    ensures
        message@.len() < len ==> n == message@.len(),
        message@.len() >= len ==> n == len - 1,
        final(buf)@.len() == old(buf)@.len(),
        0 <= i < n ==> final(buf)@[i] == message@[i],
        final(buf)@[n as int] == 0,
        n < i < old(buf)@.len() ==> final(buf)@[i] == old(buf)@[i],
{
}

/// The last error is reported where there is one and there is room for a text.
pub proof fn law_error_to_report(state: State, len: i32, errno: Option<i32>)
    requires
        call_ensures(error_to_report, (&state, len), errno),
    ensures
        errno is Some <==> len > 0 && state.last_errno != 0,
        errno matches Some(n) ==> n == state.last_errno,
{
}

/// The text of an error is what it displays without the note of its number, where that
/// stands at the end, and all of what it displays otherwise.
pub proof fn law_error_text(
    displayed: &str,
    errno: i32,
    kept: Seq<char>,
    number: &mut String,
    text: &str,
)
    requires
        call_ensures(error_text, (displayed, errno), text),
        old(number)@.len() == 0,
        call_ensures(push_decimal_i32, (number, errno), ()),
    ensures
        displayed@ == kept + " (os error "@ + final(number)@ + ")"@ ==> text@ == kept,
        text@ == displayed@ || text@ + " (os error "@ + final(number)@ + ")"@ == displayed@,
{
    let note = crate::abi::number_note(errno);
    let n = displayed@.len() - note.len();
    assert(note =~= " (os error "@ + final(number)@ + ")"@);
    if displayed@ == kept + " (os error "@ + final(number)@ + ")"@ {
        assert(displayed@.skip(n) =~= note);
        assert(displayed@.take(n) =~= kept);
    }
    if n >= 0 && displayed@.skip(n) == note {
        assert(displayed@.take(n) + note =~= displayed@);
        assert(text@ + " (os error "@ + final(number)@ + ")"@ =~= text@ + note);
    }
}

/// Without room nothing is written and the length is 0. Without an error the text is empty.
/// In any case the text ends with a zero byte within its room, the length says where, and
/// the bytes behind it stay as they were.
pub proof fn law_last_error(state: State, buf: &mut [u8], len: i32, n: i32, i: int)
    requires
        len <= old(buf)@.len(),
        call_ensures(k4refresh_last_error, (&state, buf, len), n),
    ensures
        final(buf)@.len() == old(buf)@.len(),
        len <= 0 ==> n == 0 && final(buf)@ == old(buf)@,
        len > 0 ==> {
            &&& 0 <= n < len
            &&& final(buf)@[n as int] == 0
            &&& n < i < old(buf)@.len() ==> final(buf)@[i] == old(buf)@[i]
        },
        state.last_errno == 0 ==> n == 0,
{
}

/// With an error and room for a text, the text is that of the system: what the error
/// displays without the note of its number, as much of it as fits.
pub proof fn law_last_error_text(state: State, buf: &mut [u8], len: i32, n: i32)
    requires
        1 <= len <= old(buf)@.len(),
        state.last_errno != 0,
        call_ensures(k4refresh_last_error, (&state, buf, len), n),
    ensures
        exists|displayed: Seq<char>|
            {
                &&& #[trigger] crate::abi::is_display_of(state.last_errno, displayed)
                &&& forall|kept: Seq<char>|
                    displayed == #[trigger] (kept + (" (os error "@ + crate::text::decimal_int(
                        state.last_errno as int,
                    ) + ")"@)) ==> {
                        let message = vstd::utf8::encode_utf8(kept);
                        &&& message.len() < len ==> n == message.len()
                        &&& message.len() >= len ==> n == len - 1
                        &&& forall|i: int| 0 <= i < n ==> #[trigger] final(buf)@[i] == message[i]
                    }
            },
{
    let errno = state.last_errno;
    let displayed = choose|displayed: Seq<char>|
        {
            let message = vstd::utf8::encode_utf8(crate::abi::system_text(displayed, errno));
            &&& #[trigger] crate::abi::is_display_of(errno, displayed)
            &&& n == crate::abi::text_len(message, len)
            &&& final(buf)@ == crate::abi::with_text(old(buf)@, message, len)
        };
    let note = " (os error "@ + crate::text::decimal_int(errno as int) + ")"@;
    assert forall|kept: Seq<char>| displayed == #[trigger] (kept + note) implies {
        let message = vstd::utf8::encode_utf8(kept);
        &&& message.len() < len ==> n == message.len()
        &&& message.len() >= len ==> n == len - 1
        &&& forall|i: int| 0 <= i < n ==> #[trigger] final(buf)@[i] == message[i]
    } by {
        assert(displayed.skip(kept.len() as int) =~= note);
        assert(displayed.take(kept.len() as int) =~= kept);
        assert(crate::abi::system_text(displayed, errno) == kept);
    }
    assert(crate::abi::is_display_of(errno, displayed));
}

/// A descriptor is closed exactly where it is one.
pub proof fn law_close(fd: i32, close: bool)
    requires
        call_ensures(k4refresh_close, (fd,), close),
    ensures
        close <==> fd >= 0,
{
}

/// A call that returned a negative number failed, with the error number that it left; any
/// other number is its result.
pub proof fn law_call_result(rv: i32, errno: Option<i32>, r: Result<i32, DriverError>)
    requires
        call_ensures(call_result, (rv, errno), r),
    ensures
        rv >= 0 ==> r == Ok::<i32, DriverError>(rv),
        rv < 0 ==> r is Err && r->Err_0.raw_os_error == errno,
{
}

/// What the driver is to fill in is handed over with zeros everywhere.
pub proof fn law_zeroed(v: VarScreenInfo, f: FixScreenInfo, i: int)
    requires
        call_ensures(VarScreenInfo::zeroed, (), v),
        call_ensures(FixScreenInfo::zeroed, (), f),
    ensures
        v.xres == 0 && v.yres == 0 && v.xres_virtual == 0 && v.yres_virtual == 0,
        v.xoffset == 0 && v.yoffset == 0 && v.bits_per_pixel == 0,
        f.smem_start == 0 && f.smem_len == 0 && f.fb_type == 0 && f.type_aux == 0,
        f.visual == 0 && f.xpanstep == 0 && f.ypanstep == 0 && f.ywrapstep == 0,
        f.line_length == 0,
        0 <= i < 16 ==> f.id@[i] == 0,
        0 <= i < 256 ==> v._tail@[i] == 0 && f._tail@[i] == 0,
{
}

/// What is handed to the driver holds what it was made of.
pub proof fn law_structures(
    x1: i32,
    y1: i32,
    x2: i32,
    y2: i32,
    which_fx: i32,
    area: UpdateArea,
    update_mode: i32,
    fx: FxStruct,
    longer: &mut FxStruct,
    i: int,
)
    requires
        call_ensures(UpdateArea::new, (x1, y1, x2, y2, which_fx), area),
        call_ensures(FxStruct::new, (update_mode, which_fx), fx),
        call_ensures(FxStruct::push_exclude, (longer, x1, y1, x2, y2), ()),
    ensures
        area.x1 == x1 && area.y1 == y1 && area.x2 == x2 && area.y2 == y2,
        area.which_fx == which_fx,
        fx.update_mode == update_mode,
        fx.which_fx == which_fx,
        fx.exclude_rects@.len() == 0,
        final(longer).update_mode == old(longer).update_mode,
        final(longer).which_fx == old(longer).which_fx,
        final(longer).exclude_rects@.len() == old(longer).exclude_rects@.len() + 1,
        final(longer).exclude_rects@.last() == (x1, y1, x2, y2),
        0 <= i < old(longer).exclude_rects@.len() ==> final(longer).exclude_rects@[i] == old(
            longer,
        ).exclude_rects@[i],
{
}

} // verus!
