use k4refresh::bench::{Measurement, Place, Plan};
use k4refresh::cli::{
    bench_delay_ms, bench_label, bench_out, bench_start, command, default_label, depth_supported,
    fxupdate_request, fxupdate_struct, id_text,
    parse_i32_list, preference, probe, probed, rect_option, refresh_interval, refresh_kind,
    refresh_mode, refresh_rect, restore_request, update_mode, which_effect, Args, Command,
    Numbering, Preference, ProbeStep, RectOption,
};
use k4refresh::eink::{DriverError, FixScreenInfo, VarScreenInfo};

fn args(line: &str) -> Args {
    Args(line.split(' ').filter(|w| !w.is_empty()).map(|w| w.to_string()).collect())
}

fn panel(xres: u32, yres: u32) -> VarScreenInfo {
    let mut v = VarScreenInfo::zeroed();
    v.xres = xres;
    v.yres = yres;
    v
}

#[test]
fn flags_give_the_word_behind() {
    let a = args("bench --n 5 --n 6 --out");
    assert_eq!(a.flag("--n"), Some("5".to_string()));
    assert_eq!(a.flag("--out"), None);
    assert_eq!(a.flag("--fx"), None);
    assert_eq!(a.flag("5"), Some("--n".to_string()));
    assert!(a.has("--out"));
    assert!(!a.has("--o"));
}

#[test]
fn subcommands() {
    assert_eq!(command(&args("")), Command::Usage);
    assert_eq!(command(&args("--version")), Command::Version);
    assert_eq!(command(&args("version")), Command::Version);
    assert_eq!(command(&args("info")), Command::Info);
    assert_eq!(command(&args("refresh --kind ui")), Command::Refresh);
    assert_eq!(command(&args("flash")), Command::Flash);
    assert_eq!(command(&args("restore")), Command::Restore);
    assert_eq!(command(&args("fxupdate")), Command::FxUpdate);
    assert_eq!(command(&args("bench")), Command::Bench);
    assert_eq!(command(&args("Bench")), Command::Usage);
}

#[test]
fn refresh_options() {
    let a = args("refresh --mode fast --interval 6");
    assert_eq!((refresh_kind(&a), refresh_mode(&a), refresh_interval(&a)), (0, 0, 6));
    let a = args("refresh --mode conservative --interval x --kind full");
    assert_eq!((refresh_kind(&a), refresh_mode(&a), refresh_interval(&a)), (2, 1, 6));
    let a = args("refresh --interval 8 --kind ui");
    assert_eq!((refresh_kind(&a), refresh_mode(&a), refresh_interval(&a)), (1, 0, 8));
    assert_eq!(refresh_kind(&args("refresh --kind page")), 0);
}

#[test]
fn refresh_rectangles() {
    let v = panel(600, 800);
    assert_eq!(refresh_rect(&args("refresh"), &v), (0, 0, 600, 800));
    assert_eq!(refresh_rect(&args("refresh --y1 9"), &v), (0, 0, 600, 800));
    assert_eq!(refresh_rect(&args("refresh --x1 -5 --y1 9"), &v), (-5, 9, 600, 800));
    assert_eq!(
        refresh_rect(&args("refresh --x1 1 --y1 2 --x2 3 --y2 4"), &v),
        (1, 2, 3, 4)
    );
    assert_eq!(refresh_rect(&args("refresh --x2 3 --x1"), &v), (0, 0, 3, 800));
}

#[test]
fn numberings_are_tried_in_turn() {
    let failed = DriverError { raw_os_error: Some(25) };
    assert_eq!(preference(&args("restore --cmd new")), Preference::New);
    assert_eq!(preference(&args("restore --cmd old")), Preference::Old);
    assert_eq!(preference(&args("restore --cmd auto")), Preference::Auto);
    assert_eq!(preference(&args("restore")), Preference::Auto);
    assert_eq!(probe(Preference::Auto), ProbeStep::Try { numbering: Numbering::New });
    assert_eq!(probe(Preference::New), ProbeStep::Try { numbering: Numbering::New });
    assert_eq!(probe(Preference::Old), ProbeStep::Try { numbering: Numbering::Old });
    assert_eq!(
        probed(Preference::Auto, Numbering::New, Err(failed)),
        ProbeStep::Try { numbering: Numbering::Old }
    );
    assert_eq!(
        probed(Preference::Auto, Numbering::Old, Err(failed)),
        ProbeStep::Refused { error: failed }
    );
    assert_eq!(
        probed(Preference::New, Numbering::New, Err(failed)),
        ProbeStep::Refused { error: failed }
    );
    assert_eq!(
        probed(Preference::Auto, Numbering::New, Ok(())),
        ProbeStep::Accepted { numbering: Numbering::New }
    );
}

#[test]
fn numberings_have_their_requests() {
    assert_eq!(restore_request(Numbering::New), 0x46ef);
    assert_eq!(restore_request(Numbering::Old), 0x4644);
    assert_eq!(fxupdate_request(Numbering::New), 0x46e4);
    assert_eq!(fxupdate_request(Numbering::Old), 0x4642);
}

#[test]
fn effect_options() {
    assert_eq!(update_mode(&args("restore")), 1);
    assert_eq!(update_mode(&args("restore --mode 0")), 0);
    assert_eq!(which_effect(&args("fxupdate")), -1);
    assert_eq!(which_effect(&args("fxupdate --which 21")), 21);
}

#[test]
fn excluded_rectangles_are_read() {
    let name = "--exclude";
    assert_eq!(rect_option(&args("fxupdate"), name), RectOption::Absent);
    assert_eq!(
        rect_option(&args("fxupdate --exclude 1,2,3,4"), name),
        RectOption::Rect { x1: 1, y1: 2, x2: 3, y2: 4 }
    );
    assert_eq!(
        rect_option(&args("fxupdate --exclude -1,x,2,,3,4"), name),
        RectOption::Rect { x1: -1, y1: 2, x2: 3, y2: 4 }
    );
    assert_eq!(rect_option(&args("fxupdate --exclude 1,2,3"), name), RectOption::Malformed);
    assert_eq!(rect_option(&args("fxupdate --exclude 1,2,3,4,5"), name), RectOption::Malformed);
    assert_eq!(parse_i32_list(" 1 , -2,3.5,+4"), vec![1, -2, 4]);
}

#[test]
fn benchmark_options() {
    let bench = bench_start(&args("bench")).unwrap();
    match &bench.plan {
        Plan::Single { fx_list, n } => assert_eq!((fx_list, *n), (&vec![0, 2, 3], 20)),
        other => panic!("unexpected plan: {:?}", other),
    }
    let bench = bench_start(&args("bench --seq fast,fast,fast,slow --n 7")).unwrap();
    match &bench.plan {
        Plan::Sequence { seq, rounds } => assert_eq!((seq, *rounds), (&vec![2, 2, 2, 3], 7)),
        other => panic!("unexpected plan: {:?}", other),
    }
    assert_eq!(
        bench.next(),
        Some(Measurement { fx: 2, place: Place::InRound { round: 0, step: 0 }, frame: 0 })
    );
    assert!(bench_start(&args("bench --seq full")).is_none());
    assert_eq!(bench_start(&args("bench --fx bogus")).unwrap().next(), None);
}

#[test]
fn benchmark_output_and_pace() {
    assert_eq!(bench_out(&args("bench")), "latency.csv");
    assert_eq!(bench_out(&args("bench --out /dev/null")), "/dev/null");
    assert_eq!(bench_delay_ms(&args("bench")), 0);
    assert_eq!(bench_delay_ms(&args("bench --delay-ms 3000")), 3000);
}

#[test]
fn only_one_byte_per_pixel_is_drawn() {
    let mut v = panel(600, 800);
    assert!(!depth_supported(&v));
    v.bits_per_pixel = 8;
    assert!(depth_supported(&v));
}

#[test]
fn labels_are_trimmed_and_in_upper_case() {
    let label = |text: &str| {
        bench_label(&Args(vec!["bench".to_string(), "--label".to_string(), text.to_string()]))
    };
    assert_eq!(label("a"), "A");
    assert_eq!(label("  run b\t"), "RUN B");
    assert_eq!(label("straße"), "STRASSE");
    assert_eq!(label("  "), "T");
    assert_eq!(label(""), "T");
    assert_eq!(bench_label(&args("bench")), "T");
    assert_eq!(bench_label(&args("bench --label")), "T");
    assert_eq!(default_label(String::new()), "T");
    assert_eq!(default_label("x".to_string()), "x");
}

#[test]
fn device_names_are_decoded() {
    let mut f = FixScreenInfo::zeroed();
    f.id = *b"eink_fb         ";
    assert_eq!(id_text(&f), "eink_fb");
    f.id = *b"eink\xff           ";
    assert_eq!(id_text(&f), "eink\u{fffd}");
    f.id = *b"eink_fb\0\0\0\0\0\0\0\0\0";
    assert_eq!(id_text(&f), "eink_fb\0\0\0\0\0\0\0\0\0");
}

#[test]
fn excluded_rectangles_stand_in_order() {
    let fx = fxupdate_struct(&args("fxupdate --exclude2 5,6,7,8 --exclude 1,2,3,4 --mode 0"));
    assert_eq!((fx.update_mode, fx.which_fx), (0, -1));
    assert_eq!(fx.exclude_rects, vec![(1, 2, 3, 4), (5, 6, 7, 8)]);
    let fx = fxupdate_struct(&args("fxupdate --exclude 1,2 --exclude2 5,6,7,8 --which 21"));
    assert_eq!((fx.update_mode, fx.which_fx), (1, 21));
    assert_eq!(fx.exclude_rects, vec![(5, 6, 7, 8)]);
    assert!(fxupdate_struct(&args("fxupdate")).exclude_rects.is_empty());
}
