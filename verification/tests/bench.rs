use k4refresh::bench::{
    draw_marker, draw_pattern, full_area, mapping_len, parse_fx_list, pattern_fits, restore, run,
    run_begin, run_next, run_seq, Measurement, Place, RunOutcome, RunStep, FONT,
};
use k4refresh::eink::{DriverError, FixScreenInfo, UpdateArea, VarScreenInfo};
use k4refresh::fx::{FX_FAST, FX_PARTIAL, FX_SLOW};

fn screen(xres: u32, yres: u32, line_length: u32) -> (VarScreenInfo, FixScreenInfo) {
    let mut v = VarScreenInfo::zeroed();
    v.xres = xres;
    v.yres = yres;
    let mut f = FixScreenInfo::zeroed();
    f.line_length = line_length;
    (v, f)
}

#[test]
fn parse_fx_list_tokens() {
    assert_eq!(
        parse_fx_list("partial,fast,slow"),
        vec![FX_PARTIAL, FX_FAST, FX_SLOW]
    );
    assert_eq!(parse_fx_list(" fast , slow ,"), vec![FX_FAST, FX_SLOW]);
    assert!(parse_fx_list("bogus,").is_empty());
    assert!(parse_fx_list("").is_empty());
}

#[test]
fn lists_pass_over_what_names_nothing() {
    assert_eq!(parse_fx_list("Fast,fast,full,slow slow,\tslow\n"), vec![2, 3]);
    let mut both = parse_fx_list("fast,x");
    both.extend(parse_fx_list(",slow"));
    assert_eq!(parse_fx_list("fast,x,,slow"), both);
}

#[test]
fn pattern_is_a_checkerboard_of_eight_pixels() {
    let (v, f) = screen(20, 18, 24);
    let mut fb = vec![0x55u8; 24 * 18 + 3];
    draw_pattern(&mut fb, &v, &f, 0);
    for y in 0..18 {
        for x in 0..24 {
            let expected = if x >= 20 {
                0x55
            } else if (x / 8 + y / 8) % 2 == 0 {
                0x00
            } else {
                0xff
            };
            assert_eq!(fb[y * 24 + x], expected);
        }
    }
    assert_eq!(&fb[24 * 18..], &[0x55; 3]);
    assert_eq!((fb[0], fb[8], fb[16], fb[24 * 8]), (0x00, 0xff, 0x00, 0xff));
}

#[test]
fn frames_are_inverse_to_each_other() {
    let (v, f) = screen(17, 9, 17);
    for frame in [0, 1, 6, u32::MAX - 1] {
        let mut a = vec![1u8; 17 * 9];
        let mut b = vec![2u8; 17 * 9];
        draw_pattern(&mut a, &v, &f, frame);
        draw_pattern(&mut b, &v, &f, frame + 1);
        assert!(a.iter().zip(b.iter()).all(|(p, q)| *p == !*q));
    }
}

#[test]
fn overlapping_lines_are_drawn_downwards() {
    let (v, f) = screen(9, 17, 1);
    let mut fb = vec![7u8; 25];
    draw_pattern(&mut fb, &v, &f, 0);
    assert_eq!(fb[0], 0x00);
    assert_eq!(fb[8], 0xff);
    assert_eq!(fb[15], 0xff);
    assert_eq!(fb[16], 0x00);
    assert_eq!(fb[24], 0xff);
}

#[test]
fn pattern_has_to_fit() {
    let (v, f) = screen(600, 800, 608);
    assert!(pattern_fits(799 * 608 + 600, &v, &f));
    assert!(!pattern_fits(799 * 608 + 599, &v, &f));
    let (v, f) = screen(0, 800, 608);
    assert!(pattern_fits(0, &v, &f));
    let mut none: Vec<u8> = vec![];
    draw_pattern(&mut none, &v, &f, 3);
    let (v, f) = screen(u32::MAX, u32::MAX, u32::MAX);
    assert!(!pattern_fits(1 << 20, &v, &f));
}

#[test]
fn each_effect_is_timed_in_a_row() {
    let mut bench = run(&[0, 2], 3);
    assert_eq!(bench.header(), "fx,seq,ioctl_usec,error");
    let mut seen = vec![];
    while let Some(m) = bench.next() {
        seen.push(m);
        bench.finish(10, Ok(()));
    }
    let at = |fx, seq, frame| Measurement { fx, place: Place::Repetition { seq }, frame };
    assert_eq!(
        seen,
        vec![at(0, 0, 0), at(0, 1, 1), at(0, 2, 2), at(2, 0, 3), at(2, 1, 4), at(2, 2, 5)]
    );
    assert_eq!((bench.rows, bench.errors), (6, 0));
}

#[test]
fn sequences_are_timed_round_by_round() {
    let mut bench = run_seq(&[2, 2, 3], 2).unwrap();
    assert_eq!(bench.header(), "fx,round,step,ioctl_usec,error");
    let mut lines = vec![];
    let mut frames = vec![];
    while let Some(m) = bench.next() {
        frames.push(m.frame);
        lines.push(bench.finish(1000 + m.frame as u128, Ok(())));
    }
    assert_eq!(frames, vec![0, 1, 2, 3, 4, 5]);
    assert_eq!(
        lines,
        vec!["2,0,0,1000,0", "2,0,1,1001,0", "3,0,2,1002,0", "2,1,0,1003,0", "2,1,1,1004,0",
             "3,1,2,1005,0"]
    );
}

#[test]
fn failures_stand_in_the_table_and_are_counted() {
    let mut bench = run(&[3], 3);
    let failed = DriverError { raw_os_error: Some(25) };
    assert_eq!(bench.finish(7, Err(failed)), "3,0,7,25");
    assert_eq!(bench.finish(u128::MAX, Ok(())), format!("3,1,{},0", u128::MAX));
    assert_eq!(bench.finish(0, Err(DriverError { raw_os_error: None })), "3,2,0,0");
    assert_eq!((bench.rows, bench.errors), (3, 2));
    assert_eq!(bench.next(), None);
}

#[test]
fn nothing_to_time() {
    assert!(run_seq(&[], 5).is_none());
    assert_eq!(run(&[], 5).next(), None);
    assert_eq!(run(&[1, 2], 0).next(), None);
    assert_eq!(run_seq(&[2], 0).unwrap().next(), None);
}

#[test]
fn frame_numbers_wrap() {
    let mut bench = run(&[2, 3], u32::MAX);
    bench.rows = u32::MAX as u128;
    let m = bench.next().unwrap();
    assert_eq!(m, Measurement { fx: 3, place: Place::Repetition { seq: 0 }, frame: u32::MAX });
    bench.rows += 1;
    assert_eq!(bench.next().unwrap().frame, 0);
}

#[test]
fn lines_have_the_columns_of_the_header() {
    let mut single = run(&[2], 1);
    let columns = single.header().split(',').count();
    assert_eq!(single.finish(5, Ok(())).split(',').count(), columns);
    let mut sequence = run_seq(&[2], 1).unwrap();
    let columns = sequence.header().split(',').count();
    assert_eq!(sequence.finish(5, Ok(())).split(',').count(), columns);
}

#[test]
fn the_whole_screen_is_refreshed() {
    let (v, _) = screen(600, 800, 600);
    assert_eq!(full_area(&v, 2), UpdateArea::new(0, 0, 600, 800, 2));
}

#[test]
fn the_reported_memory_is_mapped() {
    let (_, mut f) = screen(1, 1, 1);
    assert_eq!(mapping_len(&f), None);
    f.smem_len = 480000;
    assert_eq!(mapping_len(&f), Some(480000));
}

/// The upper left corner as lines of cells of four by four pixels, ink as `#`.
fn cells(fb: &[u8], stride: usize, columns: usize) -> Vec<String> {
    let cell = |x: usize, y: usize| {
        let first = fb[4 * y * stride + 4 * x];
        for dy in 0..4 {
            for dx in 0..4 {
                assert_eq!(fb[(4 * y + dy) * stride + 4 * x + dx], first);
            }
        }
        if first == 0 { '#' } else { '.' }
    };
    (0..9).map(|y| (0..columns).map(|x| cell(x, y)).collect()).collect()
}

#[test]
fn marker_is_black_on_white() {
    let (v, f) = screen(60, 40, 64);
    let mut fb = vec![0x55u8; 64 * 40];
    draw_marker(&mut fb, &v, &f, "A1");
    assert_eq!(
        cells(&fb, 64, 13),
        vec![
            ".............",
            "..###....#...",
            ".#...#..##...",
            ".#...#...#...",
            ".#...#...#...",
            ".#####...#...",
            ".#...#...#...",
            ".#...#..###..",
            ".............",
        ]
    );
    for y in 0..40 {
        for x in 0..64 {
            if x >= 52 || y >= 36 {
                assert_eq!(fb[y * 64 + x], 0x55);
            }
        }
    }
}

#[test]
fn marker_leaves_out_what_it_cannot_draw() {
    let (v, f) = screen(60, 40, 60);
    let mut fb = vec![0x55u8; 60 * 40];
    draw_marker(&mut fb, &v, &f, "é");
    assert!(cells(&fb, 60, 7).iter().all(|line| line == "......."));
    let mut fb = vec![0x55u8; 60 * 40];
    draw_marker(&mut fb, &v, &f, "");
    assert_eq!((fb[0], fb[3], fb[4]), (0xff, 0xff, 0x55));
}

#[test]
fn marker_stays_on_the_screen() {
    let (v, f) = screen(10, 6, 12);
    let mut fb = vec![0x55u8; 12 * 6];
    draw_marker(&mut fb, &v, &f, "SLOW12");
    for y in 0..6 {
        for x in 0..12 {
            assert_eq!(fb[y * 12 + x] == 0x55, x >= 10);
        }
    }
    let mut none: Vec<u8> = vec![];
    let (v, f) = screen(0, 6, 12);
    draw_marker(&mut none, &v, &f, "A");
}

#[test]
fn marker_stands_over_the_pattern() {
    let (v, f) = screen(64, 48, 64);
    let mut plain = vec![0u8; 64 * 48];
    draw_pattern(&mut plain, &v, &f, 1);
    let mut marked = plain.clone();
    draw_marker(&mut marked, &v, &f, "T");
    for y in 0..48 {
        for x in 0..64 {
            if x >= 28 || y >= 36 {
                assert_eq!(marked[y * 64 + x], plain[y * 64 + x]);
            }
        }
    }
    assert_eq!(cells(&marked, 64, 7)[1], ".#####.");
}

#[test]
fn measurements_are_numbered_and_spaced() {
    let mut bench = run(&[3], 12);
    assert_eq!(bench.marker_text("A"), "A1");
    assert_eq!(bench.pause_ms(3000), 0);
    for _ in 0..9 {
        bench.finish(1, Ok(()));
    }
    assert_eq!(bench.marker_text("A"), "A10");
    assert_eq!(bench.pause_ms(3000), 3000);
    assert_eq!(bench.pause_ms(0), 0);
}

#[test]
fn letters_can_be_told_apart() {
    for i in 0..FONT.len() {
        assert!(0 < FONT[i] && FONT[i] < 1 << 35);
        for j in 0..i {
            assert_ne!(FONT[i], FONT[j]);
        }
    }
    let (v, f) = screen(64, 40, 64);
    let mut nine = vec![0u8; 64 * 40];
    let mut ten = vec![0u8; 64 * 40];
    draw_marker(&mut nine, &v, &f, "A9");
    draw_marker(&mut ten, &v, &f, "A1");
    assert_ne!(nine, ten);
}

#[test]
fn marked_pictures_are_inverse_outside_the_markers() {
    let (v, f) = screen(64, 48, 66);
    let mut fb = vec![0u8; 66 * 48];
    draw_pattern(&mut fb, &v, &f, 4);
    draw_marker(&mut fb, &v, &f, "A9");
    let first = fb.clone();
    draw_pattern(&mut fb, &v, &f, 5);
    draw_marker(&mut fb, &v, &f, "B");
    for y in 0..48 {
        for x in 0..64 {
            if x >= 52 || y >= 36 {
                assert_eq!(fb[y * 66 + x], !first[y * 66 + x]);
            }
        }
    }
}

#[test]
fn what_was_saved_is_put_back() {
    let mut fb = [1u8, 2, 3, 4];
    restore(&mut fb, &[9, 8, 7, 6]);
    assert_eq!(fb, [9, 8, 7, 6]);
    let mut none: Vec<u8> = vec![];
    restore(&mut none, &[]);
}

#[test]
fn runs_begin_where_the_screen_fits() {
    let (v, mut f) = screen(600, 800, 600);
    assert_eq!(run_begin(&v, &f), RunStep::Return { outcome: RunOutcome::NoMemory });
    f.smem_len = 479999;
    assert_eq!(run_begin(&v, &f), RunStep::Return { outcome: RunOutcome::DoesNotFit });
    f.smem_len = 480000;
    assert_eq!(run_begin(&v, &f), RunStep::MapMemory { len: 480000 });
}

#[test]
fn mapped_memory_is_restored_and_unmapped() {
    let map = RunStep::MapMemory { len: 5 };
    assert_eq!(run_next(map, false), RunStep::Return { outcome: RunOutcome::NotMapped });
    let course = |measured, refreshed, unmapped| {
        let a = run_next(map, true);
        let b = run_next(a, measured);
        let c = run_next(b, refreshed);
        let d = run_next(c, unmapped);
        assert_eq!(a, RunStep::Measure);
        assert_eq!(b, RunStep::Restore { which_fx: 3, measured });
        assert_eq!(c, RunStep::UnmapMemory { measured });
        assert_eq!(run_next(d, false), d);
        d
    };
    let end = |outcome| RunStep::Return { outcome };
    assert_eq!(course(true, true, true), end(RunOutcome::Done));
    assert_eq!(course(true, false, true), end(RunOutcome::Done));
    assert_eq!(course(false, true, true), end(RunOutcome::NotMeasured));
    assert_eq!(course(false, true, false), end(RunOutcome::NotMeasured));
    assert_eq!(course(true, true, false), end(RunOutcome::NotUnmapped));
}
