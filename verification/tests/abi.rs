use k4refresh::abi::{
    error_text, error_to_report, k4refresh_close, k4refresh_flash, k4refresh_last_error, k4refresh_open,
    k4refresh_refresh, k4refresh_screen_size, k4refresh_set_mode, open_size_reply, opened,
    size_reply, write_text, OpenStep, SizeStep, K4R_ERR_ARG, K4R_ERR_IOCTL, K4R_ERR_STATE,
    K4R_PANIC,
};
use k4refresh::eink::{DriverError, VarScreenInfo};
use k4refresh::State;

const EBADF: DriverError = DriverError { raw_os_error: Some(9) };

fn panel() -> VarScreenInfo {
    let mut info = VarScreenInfo::zeroed();
    info.xres = 600;
    info.yres = 800;
    info
}

#[test]
fn error_buffer_always_nul_terminated() {
    let mut state = State::new();
    state.last_errno = 0;
    let mut buf = [0u8; 64];
    let n = k4refresh_last_error(&state, &mut buf, 64);
    assert_eq!(n, 0);
    assert_eq!(buf[0], 0);
}

#[test]
fn empty_text_is_written_over_old_bytes() {
    let mut buf = [7u8; 4];
    assert_eq!(k4refresh_last_error(&State::new(), &mut buf, 3), 0);
    assert_eq!(buf, [0, 7, 7, 7]);
}

#[test]
fn no_room_means_nothing_is_written() {
    let mut state = State::new();
    state.last_errno = 9;
    let mut buf = [7u8; 4];
    assert_eq!(k4refresh_last_error(&state, &mut buf, 0), 0);
    assert_eq!(k4refresh_last_error(&state, &mut buf, -5), 0);
    assert_eq!(buf, [7, 7, 7, 7]);
    assert_eq!(k4refresh_last_error(&state, &mut buf, 1), 0);
    assert_eq!(buf, [0, 7, 7, 7]);
}

#[test]
fn error_text_is_that_of_the_system() {
    let mut state = State::new();
    state.last_errno = 9;
    let displayed = std::io::Error::from_raw_os_error(9).to_string();
    let text = displayed.strip_suffix(" (os error 9)").unwrap();
    let mut buf = [7u8; 200];
    let n = k4refresh_last_error(&state, &mut buf, 200) as usize;
    assert_eq!(n, text.len());
    assert_eq!(&buf[..n], text.as_bytes());
    assert_eq!(buf[n], 0);
    assert_eq!(buf[n + 1], 7);

    let mut buf = [7u8; 200];
    assert_eq!(k4refresh_last_error(&state, &mut buf, 5), 4);
    assert_eq!(&buf[..4], &text.as_bytes()[..4]);
    assert_eq!(&buf[4..6], &[0, 7]);
}

#[test]
fn the_note_of_the_number_is_taken_off() {
    assert_eq!(error_text("Bad file descriptor (os error 9)", 9), "Bad file descriptor");
    assert_eq!(error_text("Bad file descriptor (os error 9)", 8), "Bad file descriptor (os error 9)");
    assert_eq!(error_text("Ärger (os error -5)", -5), "Ärger");
    assert_eq!(error_text(" (os error 9)", 9), "");
    assert_eq!(error_text("", 9), "");
    let shown = std::io::Error::from_raw_os_error(2).to_string();
    assert_eq!(format!("{} (os error 2)", error_text(&shown, 2)), shown);
}

#[test]
fn error_numbers_to_report() {
    let mut state = State::new();
    assert_eq!(error_to_report(&state, 10), None);
    state.last_errno = 22;
    assert_eq!(error_to_report(&state, 10), Some(22));
    assert_eq!(error_to_report(&state, 0), None);
}

#[test]
fn text_is_cut_off_with_a_zero_byte() {
    let mut buf = [9u8; 6];
    assert_eq!(write_text(b"abc", &mut buf, 6), 3);
    assert_eq!(buf, [b'a', b'b', b'c', 0, 9, 9]);
    let mut buf = [9u8; 6];
    assert_eq!(write_text(b"abcdef", &mut buf, 3), 2);
    assert_eq!(buf, [b'a', b'b', 0, 9, 9, 9]);
    assert_eq!(write_text(b"abc", &mut buf, 4), 3);
    assert_eq!(&buf[..4], b"abc\0");
}

#[test]
fn return_codes() {
    assert_eq!((K4R_ERR_IOCTL, K4R_ERR_STATE, K4R_ERR_ARG, K4R_PANIC), (-1, -2, -3, -99));
    let mut state = State::new();
    assert_eq!(k4refresh_refresh(&mut state, Ok(2)), 2);
    assert_eq!(k4refresh_flash(&mut state, Ok(3)), 3);
    assert_eq!(state, State::new());
    assert_eq!(k4refresh_flash(&mut state, Err(EBADF)), K4R_ERR_IOCTL);
    assert_eq!(state.last_errno, 9);
    assert_eq!(k4refresh_refresh(&mut state, Ok(0)), 0);
    assert_eq!(state.last_errno, 9);
}

#[test]
fn opening_a_device() {
    let mut state = State::new();
    assert_eq!(k4refresh_open(false), OpenStep::Return { code: K4R_ERR_ARG });
    assert_eq!(k4refresh_open(true), OpenStep::Open);
    assert_eq!(opened(&mut state, Ok(5)), OpenStep::QueryScreen { fd: 5 });
    assert_eq!(open_size_reply(&mut state, 5, Ok(panel())), OpenStep::Return { code: 5 });
    assert_eq!((state.max_w, state.max_h), (600, 800));
    assert_eq!(opened(&mut state, Ok(6)), OpenStep::Return { code: 6 });
}

#[test]
fn failures_while_opening() {
    let mut state = State::new();
    assert_eq!(opened(&mut state, Err(EBADF)), OpenStep::Return { code: K4R_ERR_IOCTL });
    assert_eq!(state.last_errno, 9);
    let enotty = DriverError { raw_os_error: Some(25) };
    assert_eq!(
        open_size_reply(&mut state, 5, Err(enotty)),
        OpenStep::Close { fd: 5, code: K4R_ERR_IOCTL }
    );
    assert_eq!(state.last_errno, 25);
    assert!(k4refresh_close(0));
    assert!(!k4refresh_close(-1));
}

#[test]
fn asking_for_the_screen_size() {
    let mut state = State::new();
    assert_eq!(
        k4refresh_screen_size(&state, false),
        SizeStep::Return { code: K4R_ERR_ARG }
    );
    assert_eq!(k4refresh_screen_size(&state, true), SizeStep::QueryScreen);
    assert_eq!(
        size_reply(&mut state, Err(EBADF)),
        SizeStep::Return { code: K4R_ERR_IOCTL }
    );
    assert_eq!(state.last_errno, 9);
    assert_eq!(size_reply(&mut state, Ok(panel())), SizeStep::Store { w: 600, h: 800 });
    assert_eq!(k4refresh_screen_size(&state, true), SizeStep::Store { w: 600, h: 800 });
}

#[test]
fn mode_is_set_through_the_interface() {
    let mut state = State::new();
    k4refresh_set_mode(&mut state, 1, 0);
    assert_eq!((state.mode, state.interval), (1, 1));
}
