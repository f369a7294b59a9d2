//! What the C functions return, and what they do on the way.
//!
//! The functions here hold the decisions of the C interface. Raw pointers, the
//! calls to the operating system and the guard against unwinding are left to
//! whoever exports them.

use crate::eink::{DriverError, VarScreenInfo};
use crate::session::{record, screen_size, screen_size_reply, set_mode, State};
use crate::text::{push_decimal_i32, strip_ending};
use vstd::prelude::*;

verus! {

/// A call to the operating system failed. All return codes that are negative are
/// errors; 0 says that nothing was to be refreshed or that the effect was partial,
/// and a positive code is the effect that was used.
pub const K4R_ERR_IOCTL: i32 = -1;

/// Reserved for an operation that the present state does not allow.
pub const K4R_ERR_STATE: i32 = -2;

/// An argument is a null pointer.
pub const K4R_ERR_ARG: i32 = -3;

/// A panic was caught at the border.
pub const K4R_PANIC: i32 = -99;

/// The error number that a failure leaves behind.
pub open spec fn errno_of(error: DriverError) -> i32 {
    match error.raw_os_error {
        Some(n) => n,
        None => 0,
    }
}

/// The state after a failure.
pub open spec fn failed(state: State, error: DriverError) -> State {
    State { last_errno: errno_of(error), ..state }
}

/// The return code for an outcome.
pub open spec fn code_of(outcome: Result<i32, DriverError>) -> i32 {
    match outcome {
        Ok(fx) => fx,
        Err(_) => K4R_ERR_IOCTL,
    }
}

/// The return code for the outcome of a refresh. A failure is recorded.
pub fn k4refresh_refresh(state: &mut State, outcome: Result<i32, DriverError>) -> (code: i32)
    ensures
        code == code_of(outcome),
        *final(state) == match outcome {
            Ok(_) => *old(state),
            Err(error) => failed(*old(state), error),
        },
        old(state).wf() ==> final(state).wf(),
{
    match outcome {
        Ok(fx) => fx,
        Err(error) => {
            record(state, error);
            K4R_ERR_IOCTL
        },
    }
}

/// The return code for the outcome of a flash. A failure is recorded.
pub fn k4refresh_flash(state: &mut State, outcome: Result<i32, DriverError>) -> (code: i32)
    ensures
        code == code_of(outcome),
        *final(state) == match outcome {
            Ok(_) => *old(state),
            Err(error) => failed(*old(state), error),
        },
        old(state).wf() ==> final(state).wf(),
{
    k4refresh_refresh(state, outcome)
}

/// Sets the mode and the number of page turns in a cycle, at least 1.
pub fn k4refresh_set_mode(state: &mut State, mode: u32, interval: u32)
    ensures
        *final(state) == (State {
            mode,
            interval: if interval == 0 {
                1
            } else {
                interval
            },
            ..*old(state)
        }),
        old(state).wf() ==> final(state).wf(),
{
    set_mode(state, mode, interval);
}

/// What comes next while the device is being opened.
#[derive(Debug, Clone, Copy, PartialEq, Eq, Structural)]
pub enum OpenStep {
    /// Open the path, and hand the result to `opened`.
    Open,
    /// Ask the driver for the screen information, and hand the reply to
    /// `open_size_reply`.
    QueryScreen { fd: i32 },
    /// Close the descriptor and return the code.
    Close { fd: i32, code: i32 },
    /// Return the code.
    Return { code: i32 },
}

/// Starts opening the device; `path_given` says that the path is no null pointer.
pub fn k4refresh_open(path_given: bool) -> (step: OpenStep)
    ensures
        step == if path_given {
            OpenStep::Open
        } else {
            OpenStep::Return { code: K4R_ERR_ARG }
        },
{
    if path_given {
        OpenStep::Open
    } else {
        OpenStep::Return { code: K4R_ERR_ARG }
    }
}

/// The step after the path was opened or could not be.
pub open spec fn opened_step(state: State, result: Result<i32, DriverError>) -> OpenStep {
    match result {
        Ok(fd) => if state.known_size() is Some {
            OpenStep::Return { code: fd }
        } else {
            OpenStep::QueryScreen { fd }
        },
        Err(_) => OpenStep::Return { code: K4R_ERR_IOCTL },
    }
}

/// Goes on once the path was opened or could not be. With a known screen size
/// the descriptor is returned at once.
pub fn opened(state: &mut State, result: Result<i32, DriverError>) -> (step: OpenStep)
    ensures
        step == opened_step(*old(state), result),
        *final(state) == match result {
            Ok(_) => *old(state),
            Err(error) => failed(*old(state), error),
        },
        old(state).wf() ==> final(state).wf(),
{
    match result {
        Ok(fd) => match screen_size(state) {
            Some(_) => OpenStep::Return { code: fd },
            None => OpenStep::QueryScreen { fd },
        },
        Err(error) => {
            record(state, error);
            OpenStep::Return { code: K4R_ERR_IOCTL }
        },
    }
}

/// The step after the driver has answered the query for the screen information.
pub open spec fn open_sized_step(fd: i32, reply: Result<VarScreenInfo, DriverError>) -> OpenStep {
    match reply {
        Ok(_) => OpenStep::Return { code: fd },
        Err(_) => OpenStep::Close { fd, code: K4R_ERR_IOCTL },
    }
}

/// Goes on once the driver has answered the query for the screen information. A
/// device that does not answer is closed again.
pub fn open_size_reply(
    state: &mut State,
    fd: i32,
    reply: Result<VarScreenInfo, DriverError>,
) -> (step: OpenStep)
    ensures
        step == open_sized_step(fd, reply),
        *final(state) == match reply {
            Ok(info) => old(state).measured(info),
            Err(error) => failed(*old(state), error),
        },
        old(state).wf() ==> final(state).wf(),
{
    match screen_size_reply(state, reply) {
        Ok(_) => OpenStep::Return { code: fd },
        Err(error) => {
            record(state, error);
            OpenStep::Close { fd, code: K4R_ERR_IOCTL }
        },
    }
}

/// What comes next while the screen size is being asked for.
#[derive(Debug, Clone, Copy, PartialEq, Eq, Structural)]
pub enum SizeStep {
    /// Ask the driver for the screen information, and hand the reply to `size_reply`.
    QueryScreen,
    /// Store this width and height, and return 0.
    Store { w: i32, h: i32 },
    /// Return the code and store nothing.
    Return { code: i32 },
}

/// Starts to ask for the screen size; `outputs_given` says that neither of the
/// pointers to be written to is null.
pub fn k4refresh_screen_size(state: &State, outputs_given: bool) -> (step: SizeStep)
    ensures
        step == if !outputs_given {
            SizeStep::Return { code: K4R_ERR_ARG }
        } else {
            match state.known_size() {
                Some((w, h)) => SizeStep::Store { w, h },
                None => SizeStep::QueryScreen,
            }
        },
{
    if !outputs_given {
        return SizeStep::Return { code: K4R_ERR_ARG };
    }
    match screen_size(state) {
        Some((w, h)) => SizeStep::Store { w, h },
        None => SizeStep::QueryScreen,
    }
}

/// Goes on once the driver has answered the query for the screen information.
pub fn size_reply(state: &mut State, reply: Result<VarScreenInfo, DriverError>) -> (step: SizeStep)
    ensures
        match reply {
            Ok(info) => {
                &&& step == (SizeStep::Store {
                    w: crate::eink::signed(info.xres),
                    h: crate::eink::signed(info.yres),
                })
                &&& *final(state) == old(state).measured(info)
            },
            Err(error) => {
                &&& step == (SizeStep::Return { code: K4R_ERR_IOCTL })
                &&& *final(state) == failed(*old(state), error)
            },
        },
        old(state).wf() ==> final(state).wf(),
{
    match screen_size_reply(state, reply) {
        Ok((w, h)) => SizeStep::Store { w, h },
        Err(error) => {
            record(state, error);
            SizeStep::Return { code: K4R_ERR_IOCTL }
        },
    }
}

/// The number of message bytes that fit into `len` bytes with a zero byte behind.
pub open spec fn text_len(message: Seq<u8>, len: i32) -> int {
    if message.len() < len {
        message.len() as int
    } else {
        len - 1
    }
}

/// The buffer after an error text was written to its first `len` bytes: as much of
/// the message as fits, a zero byte, and the rest as it was.
pub open spec fn with_text(buf: Seq<u8>, message: Seq<u8>, len: i32) -> Seq<u8> {
    let n = text_len(message, len);
    message.take(n) + seq![0u8] + buf.skip(n + 1)
}

/// Writes an error text to the first `len` bytes of a buffer, cut off where it does
/// not fit and always with a zero byte behind. Returns its length without that byte.
pub fn write_text(message: &[u8], buf: &mut [u8], len: i32) -> (n: i32)
    requires
        1 <= len <= old(buf)@.len(),
    ensures
        n == text_len(message@, len),
        final(buf)@ == with_text(old(buf)@, message@, len),
{
    let room: usize = (len - 1) as usize;
    let cap: usize = if message.len() < room {
        message.len()
    } else {
        room
    };
    let mut i: usize = 0;
    while i < cap
        invariant
            cap <= message@.len(),
            cap < len <= old(buf)@.len(),
            i <= cap,
            buf@ == message@.take(i as int) + old(buf)@.skip(i as int),
        decreases cap - i,
    {
        buf[i] = message[i];
        i += 1;
    }
    buf[cap] = 0;
    cap as i32
}

/// The error number whose text is asked for, if there is room for a text and a
/// number was recorded.
pub fn error_to_report(state: &State, len: i32) -> (errno: Option<i32>)
    ensures
        errno == if len > 0 && state.last_errno != 0 {
            Some(state.last_errno)
        } else {
            None
        },
{
    if len > 0 && state.last_errno != 0 {
        Some(state.last_errno)
    } else {
        None
    }
}

/// The error type of `std::io`, which turns an error number into its text.
#[verifier::external_type_specification]
#[verifier::external_body]
pub struct ExIoError(std::io::Error);

/// `std::io::Error::from_raw_os_error` makes the error that a number stands for.
/// Nothing is claimed of it. In particular it is left unsaid what text the error
/// displays: that comes from the operating system and may differ from one to the
/// next.
pub assume_specification[ std::io::Error::from_raw_os_error ](code: i32) -> std::io::Error;

/// Whether this is a text that the error with this number displays.
pub open spec fn is_display_of(errno: i32, text: Seq<char>) -> bool {
    exists|error: std::io::Error, shown: String|
        {
            &&& call_ensures(std::io::Error::from_raw_os_error, (errno,), error)
            &&& #[trigger] vstd::string::to_string_from_display_ensures::<std::io::Error>(
                &error,
                shown,
            )
            &&& shown@ == text
        }
}

/// What an error with this number displays behind the text of the system.
pub open spec fn number_note(errno: i32) -> Seq<char> {
    " (os error "@ + crate::text::decimal_int(errno as int) + ")"@
}

/// The text of the system in what an error with this number displays.
pub open spec fn system_text(displayed: Seq<char>, errno: i32) -> Seq<char> {
    crate::text::without_ending(displayed, number_note(errno))
}

/// Takes the note of the number off what an error displays, which leaves the text of
/// the system.
pub fn error_text(displayed: &str, errno: i32) -> (text: &str)
    ensures
        text@ == system_text(displayed@, errno),
{
    let mut note = String::new();
    note.append(" (os error ");
    push_decimal_i32(&mut note, errno);
    note.append(")");
    assert(note@ =~= number_note(errno));
    strip_ending(displayed, note.as_str())
}

/// Calls a function that makes an error from a number.
fn make_error<F: Fn(i32) -> std::io::Error>(make: F, errno: i32) -> (error: std::io::Error)
    requires
        call_requires(make, (errno,)),
    ensures
        call_ensures(make, (errno,), error),
{
    make(errno)
}

/// Writes the text of the last recorded error to the first `len` bytes of the
/// buffer, always with a zero byte behind, and returns its length. Without a
/// recorded error the text is empty; without room nothing is written.
pub fn k4refresh_last_error(state: &State, buf: &mut [u8], len: i32) -> (n: i32)
    requires
        len <= old(buf)@.len(),
    ensures
        len <= 0 ==> n == 0 && final(buf)@ == old(buf)@,
        len > 0 && state.last_errno == 0 ==> n == 0 && final(buf)@ == with_text(
            old(buf)@,
            seq![],
            len,
        ),
        len > 0 && state.last_errno != 0 ==> exists|displayed: Seq<char>|
            {
                let message = vstd::utf8::encode_utf8(system_text(displayed, state.last_errno));
                &&& #[trigger] is_display_of(state.last_errno, displayed)
                &&& n == text_len(message, len)
                &&& final(buf)@ == with_text(old(buf)@, message, len)
            },
        len > 0 ==> 0 <= n < len && final(buf)@[n as int] == 0,
{
    if len <= 0 {
        return 0;
    }
    match error_to_report(state, len) {
        None => write_text(&[], buf, len),
        Some(errno) => {
            let error = make_error(std::io::Error::from_raw_os_error, errno);
            let displayed = error.to_string();
            assert(is_display_of(errno, displayed@));
            write_text(error_text(displayed.as_str(), errno).as_bytes(), buf, len)
        },
    }
}

/// Whether the descriptor is to be closed.
pub fn k4refresh_close(fd: i32) -> (close: bool)
    ensures
        close == (fd >= 0),
{
    fd >= 0
}

/// A descriptor that was opened is either returned or closed again, and it is
/// returned exactly where the screen size is known or the driver reports it.
pub proof fn law_no_descriptor_is_lost(
    state: State,
    fd: i32,
    reply: Result<VarScreenInfo, DriverError>,
)
    ensures
        opened_step(state, Ok(fd)) == (OpenStep::Return { code: fd }) || opened_step(state, Ok(fd))
            == (OpenStep::QueryScreen { fd }),
        open_sized_step(fd, reply) == (OpenStep::Return { code: fd }) || open_sized_step(fd, reply)
            == (OpenStep::Close { fd, code: K4R_ERR_IOCTL }),
        opened_step(state, Ok(fd)) is Return <==> state.known_size() is Some,
        open_sized_step(fd, reply) is Return <==> reply is Ok,
{
}

/// The code of a refresh is negative exactly where a call failed; it is 0 exactly where
/// nothing was to be refreshed, or a partial update was accepted; else it is the effect
/// of an update that was accepted. A failure changes nothing in the state but the recorded
/// error number.
pub proof fn law_failures_are_codes(
    state: State,
    request: crate::session::Request,
    size_reply: Result<VarScreenInfo, DriverError>,
    update_reply: Result<(), DriverError>,
    error: DriverError,
)
    ensures
        ({
            let outcome = crate::session::refresh_outcome(state, request, size_reply, update_reply);
            &&& code_of(outcome) < 0 <==> outcome is Err
            &&& code_of(outcome) < 0 ==> code_of(outcome) == K4R_ERR_IOCTL
            &&& code_of(outcome) > 0 ==> {
                &&& code_of(outcome) == state.policy().fx_for(request.kind)
                &&& update_reply is Ok
            }
            &&& code_of(outcome) == 0 <==> {
                let last_step = crate::session::refresh_last_step(state, request, size_reply);
                ||| last_step == (crate::session::Step::Finished { outcome: Ok(0) })
                ||| {
                    &&& crate::session::step_fx(last_step) == Some(crate::fx::FX_PARTIAL)
                    &&& update_reply is Ok
                }
            }
        }),
        failed(state, error).policy() == state.policy(),
        failed(state, error).known_size() == state.known_size(),
{
}

} // verus!
