use k4refresh::abi::{k4refresh_refresh, k4refresh_set_mode, K4R_ERR_IOCTL};
use k4refresh::eink::{DriverError, UpdateArea, VarScreenInfo};
use k4refresh::fx::{
    FX_FAST, FX_PARTIAL, FX_SLOW, KIND_FULL, KIND_PAGE_TURN, KIND_UI, MODE_CONSERVATIVE, MODE_FAST,
};
use k4refresh::{
    choose_update, decide_with_state, flash_full, record, refresh, resume, screen_size, set_mode,
    updated, Pending, Request, State, Step,
};

const EBADF: DriverError = DriverError { raw_os_error: Some(9) };

fn panel(xres: u32, yres: u32) -> VarScreenInfo {
    let mut info = VarScreenInfo::zeroed();
    info.xres = xres;
    info.yres = yres;
    info
}

fn sized(w: i32, h: i32) -> State {
    let mut state = State::new();
    state.max_w = w;
    state.max_h = h;
    state
}

#[test]
fn refresh_state_flows_through_ffi_semantics() {
    let mut state = State::new();
    k4refresh_set_mode(&mut state, MODE_FAST, 2);
    let step = refresh(&mut state, KIND_PAGE_TURN, 0, 0, 100, 100);
    let outcome = match step {
        Step::QueryScreen { pending } => match resume(&mut state, pending, Err(EBADF)) {
            Step::Finished { outcome } => outcome,
            other => panic!("unexpected step: {:?}", other),
        },
        other => panic!("unexpected step: {:?}", other),
    };
    let rc = k4refresh_refresh(&mut state, outcome);
    assert_eq!(rc, K4R_ERR_IOCTL);
    assert_eq!(state.flips, 1);
    assert_eq!(state.last_errno, 9);
}

#[test]
fn flash_full_resets_counter() {
    let mut state = State::new();
    state.flips = 5;
    let step = flash_full(&mut state);
    assert_eq!(state.flips, 0);
    assert_eq!(step, Step::QueryScreen { pending: Pending::Flash });
    let step = resume(&mut state, Pending::Flash, Err(EBADF));
    assert_eq!(step, Step::Finished { outcome: Err(EBADF) });
    assert_eq!(state.flips, 0);
}

#[test]
fn initial_state() {
    let state = State::new();
    assert_eq!(
        state,
        State { mode: 0, interval: 6, flips: 0, max_w: 0, max_h: 0, last_errno: 0 }
    );
    assert_eq!(screen_size(&state), None);
}

#[test]
fn page_turn_refreshes_the_visible_part() {
    let mut state = sized(600, 800);
    let step = refresh(&mut state, KIND_PAGE_TURN, -10, 20, 900, 900);
    assert_eq!(
        step,
        Step::UpdateArea { area: UpdateArea::new(0, 20, 600, 800, FX_FAST) }
    );
    assert_eq!(state.flips, 1);
    assert_eq!(updated(FX_FAST, Ok(())), Ok(2));
    assert_eq!(updated(FX_FAST, Err(EBADF)), Err(EBADF));
}

#[test]
fn counter_runs_over_refreshes() {
    let mut state = sized(600, 800);
    set_mode(&mut state, MODE_FAST, 3);
    let mut effects = vec![];
    for _ in 0..6 {
        match refresh(&mut state, KIND_PAGE_TURN, 0, 0, 600, 800) {
            Step::UpdateArea { area } => effects.push(area.which_fx),
            other => panic!("unexpected step: {:?}", other),
        }
    }
    assert_eq!(effects, vec![2, 2, 3, 2, 2, 3]);
}

#[test]
fn nothing_visible_is_skipped_but_counted() {
    let mut state = sized(600, 800);
    let step = refresh(&mut state, KIND_PAGE_TURN, 600, 0, 700, 100);
    assert_eq!(step, Step::Finished { outcome: Ok(0) });
    assert_eq!(state.flips, 1);
}

#[test]
fn full_refresh_of_the_screen_updates_the_display() {
    let mut state = sized(600, 800);
    state.flips = 4;
    let step = refresh(&mut state, KIND_FULL, 0, 0, 600, 800);
    assert_eq!(step, Step::UpdateDisplay { which_fx: FX_SLOW });
    assert_eq!(state.flips, 0);
    let step = refresh(&mut state, KIND_FULL, 0, 0, 599, 800);
    assert_eq!(
        step,
        Step::UpdateArea { area: UpdateArea::new(0, 0, 599, 800, FX_SLOW) }
    );
    let step = refresh(&mut state, KIND_UI, 0, 0, 600, 800);
    assert_eq!(
        step,
        Step::UpdateArea { area: UpdateArea::new(0, 0, 600, 800, FX_PARTIAL) }
    );
}

#[test]
fn size_is_asked_once() {
    let mut state = State::new();
    let pending = match refresh(&mut state, KIND_UI, 0, 0, 50, 60) {
        Step::QueryScreen { pending } => pending,
        other => panic!("unexpected step: {:?}", other),
    };
    assert_eq!(
        pending,
        Pending::Refresh {
            request: Request { kind: KIND_UI, x1: 0, y1: 0, x2: 50, y2: 60 },
            fx: FX_PARTIAL
        }
    );
    let step = resume(&mut state, pending, Ok(panel(600, 800)));
    assert_eq!(
        step,
        Step::UpdateArea { area: UpdateArea::new(0, 0, 50, 60, FX_PARTIAL) }
    );
    assert_eq!(screen_size(&state), Some((600, 800)));
    assert!(!matches!(
        refresh(&mut state, KIND_UI, 0, 0, 50, 60),
        Step::QueryScreen { .. }
    ));
}

#[test]
fn flash_goes_out_slow_over_the_whole_display() {
    let mut state = sized(600, 800);
    state.mode = MODE_CONSERVATIVE;
    assert_eq!(flash_full(&mut state), Step::UpdateDisplay { which_fx: 3 });

    let mut state = State::new();
    assert_eq!(flash_full(&mut state), Step::QueryScreen { pending: Pending::Flash });
    let step = resume(&mut state, Pending::Flash, Ok(panel(600, 800)));
    assert_eq!(step, Step::UpdateDisplay { which_fx: 3 });
}

#[test]
fn flash_asks_twice_where_the_resolution_is_none() {
    let mut state = State::new();
    let step = resume(&mut state, Pending::Flash, Ok(panel(0, 800)));
    let pending = match step {
        Step::QueryScreen { pending } => pending,
        other => panic!("unexpected step: {:?}", other),
    };
    let step = resume(&mut state, pending, Ok(panel(0, 800)));
    assert_eq!(step, Step::UpdateDisplay { which_fx: 3 });
}

#[test]
fn huge_resolutions_are_read_as_signed() {
    let mut state = State::new();
    let request = Request { kind: KIND_UI, x1: 0, y1: 0, x2: 9, y2: 9 };
    let pending = Pending::Refresh { request, fx: FX_PARTIAL };
    let step = resume(&mut state, pending, Ok(panel(u32::MAX, 0x8000_0000)));
    assert_eq!(step, Step::Finished { outcome: Ok(0) });
    assert_eq!((state.max_w, state.max_h), (-1, i32::MIN));
    assert_eq!(screen_size(&state), None);
}

#[test]
fn settings_and_errors_are_kept() {
    let mut state = State::new();
    state.flips = 5;
    set_mode(&mut state, MODE_CONSERVATIVE, 0);
    assert_eq!((state.mode, state.interval, state.flips), (1, 1, 5));
    record(&mut state, DriverError { raw_os_error: Some(22) });
    assert_eq!(state.last_errno, 22);
    record(&mut state, DriverError { raw_os_error: None });
    assert_eq!(state.last_errno, 0);
}

#[test]
fn decisions_use_the_state() {
    let mut state = State::new();
    state.interval = 0;
    assert_eq!(decide_with_state(&mut state, KIND_PAGE_TURN), FX_SLOW);
    state.interval = 2;
    assert_eq!(decide_with_state(&mut state, KIND_PAGE_TURN), FX_FAST);
    assert_eq!(state.flips, 1);
    assert_eq!(decide_with_state(&mut state, KIND_FULL), FX_SLOW);
    assert_eq!(state.flips, 0);
}

#[test]
fn update_is_chosen_by_kind_and_cover() {
    let request = Request { kind: KIND_FULL, x1: -1, y1: -1, x2: 700, y2: 900 };
    assert_eq!(
        choose_update(request, 3, 600, 800),
        Step::UpdateDisplay { which_fx: 3 }
    );
    let request = Request { kind: KIND_PAGE_TURN, ..request };
    assert_eq!(
        choose_update(request, 2, 600, 800),
        Step::UpdateArea { area: UpdateArea::new(0, 0, 600, 800, 2) }
    );
}

#[test]
fn zero_is_a_skip_or_a_partial_refresh() {
    let mut state = sized(600, 800);
    let step = refresh(&mut state, KIND_UI, 0, 0, 9, 9);
    assert_eq!(step, Step::UpdateArea { area: UpdateArea::new(0, 0, 9, 9, FX_PARTIAL) });
    let sent = updated(FX_PARTIAL, Ok(()));
    assert_eq!(k4refresh_refresh(&mut state, sent), 0);
    let step = refresh(&mut state, KIND_FULL, 9, 9, 10, 10);
    assert_eq!(step, Step::Finished { outcome: Ok(0) });
    assert_eq!(k4refresh_refresh(&mut state, updated(FX_SLOW, Ok(()))), 3);
}
