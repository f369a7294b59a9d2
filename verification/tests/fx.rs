use k4refresh::fx::{
    clamp_rect, Policy, FX_FAST, FX_FULL, FX_PARTIAL, FX_SLOW, KIND_FULL, KIND_PAGE_TURN, KIND_UI,
    MODE_CONSERVATIVE, MODE_FAST,
};

#[test]
fn fast_then_slow_at_interval() {
    let mut p = Policy::new(MODE_FAST, 3);
    assert_eq!(p.decide(KIND_PAGE_TURN), FX_FAST);
    assert_eq!(p.decide(KIND_PAGE_TURN), FX_FAST);
    assert_eq!(p.decide(KIND_PAGE_TURN), FX_SLOW);
    assert_eq!(p.decide(KIND_PAGE_TURN), FX_FAST);
}

#[test]
fn full_resets_counter_and_uses_slow() {
    let mut p = Policy::new(MODE_FAST, 10);
    assert_eq!(p.decide(KIND_PAGE_TURN), FX_FAST);
    assert_eq!(p.decide(KIND_PAGE_TURN), FX_FAST);
    assert_eq!(p.decide(KIND_FULL), FX_SLOW);
    assert_eq!(p.decide(KIND_PAGE_TURN), FX_FAST);
    assert_eq!(p.decide(KIND_PAGE_TURN), FX_FAST);
}

#[test]
fn ui_is_always_partial() {
    let mut p = Policy::new(MODE_FAST, 1);
    assert_eq!(p.decide(KIND_UI), FX_PARTIAL);
}

#[test]
fn conservative_mode_keeps_partial_pages() {
    let mut p = Policy::new(MODE_CONSERVATIVE, 5);
    assert_eq!(p.decide(KIND_PAGE_TURN), FX_PARTIAL);
    assert_eq!(p.decide(KIND_FULL), FX_SLOW);
}

#[test]
fn interval_one_flashes_every_page() {
    let mut p = Policy::new(MODE_FAST, 1);
    assert_eq!(p.decide(KIND_PAGE_TURN), FX_SLOW);
    assert_eq!(p.decide(KIND_PAGE_TURN), FX_SLOW);
}

#[test]
fn clamp_rect_cases() {
    assert_eq!(clamp_rect(0, 0, 600, 800, 600, 800), Some((0, 0, 600, 800)));
    assert_eq!(clamp_rect(-5, -5, 700, 900, 600, 800), Some((0, 0, 600, 800)));
    assert_eq!(clamp_rect(600, 800, 700, 900, 600, 800), None);
    assert_eq!(clamp_rect(10, 10, 11, 11, 600, 800), None);
    assert_eq!(clamp_rect(50, 50, 10, 10, 600, 800), None);
}

#[test]
fn effect_and_kind_numbers() {
    assert_eq!((FX_PARTIAL, FX_FULL, FX_FAST, FX_SLOW), (0, 1, 2, 3));
    assert_eq!((KIND_PAGE_TURN, KIND_UI, KIND_FULL), (0, 1, 2));
    assert_eq!((MODE_FAST, MODE_CONSERVATIVE), (0, 1));
}

#[test]
fn interval_zero_counts_as_one() {
    let mut p = Policy::new(MODE_FAST, 0);
    assert_eq!(p.page_interval, 1);
    assert_eq!(p.decide(KIND_PAGE_TURN), FX_SLOW);
}

#[test]
fn every_sixth_page_turn_is_slow_and_menus_do_not_count() {
    let mut p = Policy::new(MODE_FAST, 6);
    for turn in 1..=24 {
        assert_eq!(p.decide(KIND_UI), FX_PARTIAL);
        let expected = if turn % 6 == 0 { FX_SLOW } else { FX_FAST };
        assert_eq!(p.decide(KIND_PAGE_TURN), expected);
        assert_eq!(p.flips_since_slow, turn % 6);
    }
}

#[test]
fn unknown_kinds_and_modes_are_fast_page_turns() {
    let mut p = Policy::new(7, 2);
    assert_eq!(p.decide(99), FX_FAST);
    assert_eq!(p.decide(3), FX_SLOW);
}

#[test]
fn conservative_mode_keeps_the_counter() {
    let mut p = Policy { mode: MODE_CONSERVATIVE, page_interval: 4, flips_since_slow: 3 };
    assert_eq!(p.decide(KIND_PAGE_TURN), FX_PARTIAL);
    assert_eq!(p.flips_since_slow, 3);
    assert_eq!(p.decide(KIND_FULL), FX_SLOW);
    assert_eq!(p.flips_since_slow, 0);
}

#[test]
fn shorter_interval_closes_the_cycle_at_once() {
    let mut p = Policy { mode: MODE_FAST, page_interval: 3, flips_since_slow: 8 };
    assert_eq!(p.decide(KIND_PAGE_TURN), FX_SLOW);
    assert_eq!(p.flips_since_slow, 0);
}

#[test]
fn longest_interval_does_not_overflow() {
    let mut p = Policy {
        mode: MODE_FAST,
        page_interval: u32::MAX,
        flips_since_slow: u32::MAX - 1,
    };
    assert_eq!(p.decide(KIND_PAGE_TURN), FX_SLOW);
    assert_eq!(p.clone().flips_since_slow, 0);
}

#[test]
fn two_pixels_are_enough() {
    assert_eq!(clamp_rect(10, 10, 12, 12, 600, 800), Some((10, 10, 12, 12)));
    assert_eq!(clamp_rect(10, 10, 12, 11, 600, 800), None);
    assert_eq!(clamp_rect(598, 798, 999, 999, 600, 800), Some((598, 798, 600, 800)));
    assert_eq!(clamp_rect(599, 0, 999, 999, 600, 800), None);
}

#[test]
fn empty_screens_and_extreme_requests() {
    assert_eq!(clamp_rect(0, 0, 10, 10, 0, 800), None);
    assert_eq!(clamp_rect(0, 0, 10, 10, 600, -1), None);
    assert_eq!(
        clamp_rect(i32::MIN, i32::MIN, i32::MAX, i32::MAX, i32::MAX, i32::MAX),
        Some((0, 0, i32::MAX, i32::MAX))
    );
    assert_eq!(clamp_rect(i32::MAX, 0, i32::MIN, 9, 600, 800), None);
}

#[test]
fn clipping_twice_is_clipping_once() {
    let r = clamp_rect(-3, 5, 700, 90, 600, 800).unwrap();
    assert_eq!(r, (0, 5, 600, 90));
    assert_eq!(clamp_rect(r.0, r.1, r.2, r.3, 600, 800), Some(r));
}
