use k4refresh::eink::{
    call_result, to_coord, DriverError, FixScreenInfo, FxStruct, UpdateArea, VarScreenInfo,
    FBIOGET_FSCREENINFO, FBIOGET_VSCREENINFO, FBIO_EINK_UPDATE_DISPLAY,
    FBIO_EINK_UPDATE_DISPLAY_AREA,
};

#[test]
fn request_numbers() {
    assert_eq!(FBIO_EINK_UPDATE_DISPLAY, 0x46db);
    assert_eq!(FBIO_EINK_UPDATE_DISPLAY_AREA, 0x46dd);
    assert_eq!(FBIOGET_VSCREENINFO, 0x4600);
    assert_eq!(FBIOGET_FSCREENINFO, 0x4602);
    assert_eq!(FBIO_EINK_UPDATE_DISPLAY, (b'F' as u64) << 8 | 0xdb);
}

#[test]
fn structures_start_out_zeroed() {
    let v = VarScreenInfo::zeroed();
    assert_eq!((v.xres, v.yres, v.bits_per_pixel), (0, 0, 0));
    assert!(v._tail.iter().all(|b| *b == 0));
    let f = FixScreenInfo::zeroed();
    assert_eq!((f.smem_len, f.line_length, f.id), (0, 0, [0u8; 16]));
    assert!(f._tail.iter().all(|b| *b == 0));
}

#[test]
fn area_holds_its_edges_and_effect() {
    let area = UpdateArea::new(1, 2, 3, 4, 5);
    assert_eq!((area.x1, area.y1, area.x2, area.y2, area.which_fx), (1, 2, 3, 4, 5));
}

#[test]
fn negative_returns_are_failures() {
    assert_eq!(call_result(0, Some(9)), Ok(0));
    assert_eq!(call_result(7, None), Ok(7));
    assert_eq!(call_result(-1, Some(9)), Err(DriverError { raw_os_error: Some(9) }));
}

#[test]
fn resolutions_are_signed() {
    for v in [0, 600, 0x7fff_ffff, 0x8000_0000, 0xffff_fffe, u32::MAX] {
        assert_eq!(to_coord(v), v as i32);
    }
}

#[test]
fn excluded_rectangles_add_up() {
    let mut fx = FxStruct::new(1, -1);
    fx.push_exclude(0, 0, 10, 10);
    fx.push_exclude(5, 6, 7, 8);
    assert_eq!((fx.update_mode, fx.which_fx), (1, -1));
    assert_eq!(fx.exclude_rects, vec![(0, 0, 10, 10), (5, 6, 7, 8)]);
}
