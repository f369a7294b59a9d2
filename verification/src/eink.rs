//! The interface of the frame buffer driver: request numbers, the structures
//! that travel with the requests, and the meaning of what a call returns.
//!
//! Nothing here talks to the device. The structures hold the fields that the
//! driver's own structures have; whoever makes the calls lays them out in memory.

use vstd::prelude::*;

verus! {

/// Refreshes the whole screen; the argument is the effect.
pub const FBIO_EINK_UPDATE_DISPLAY: u64 = 0x46db;

/// Refreshes an area; the argument points to an `UpdateArea`.
pub const FBIO_EINK_UPDATE_DISPLAY_AREA: u64 = 0x46dd;

/// Reads the panel's resolution and depth.
pub const FBIOGET_VSCREENINFO: u64 = 0x4600;

/// Reads the layout of the frame buffer memory.
pub const FBIOGET_FSCREENINFO: u64 = 0x4602;

/// Pushes the virtual frame buffer out again, in the newer numbering.
pub const FBIO_EINK_RESTORE_DISPLAY_NEW: u64 = 0x46ef;

/// Pushes the virtual frame buffer out again, in the older numbering.
pub const FBIO_EINK_RESTORE_DISPLAY_OLD: u64 = 0x4644;

/// Refreshes the whole screen with a per-pixel effect, in the newer numbering.
pub const FBIO_EINK_UPDATE_DISPLAY_FX_NEW: u64 = 0x46e4;

/// Refreshes the whole screen with a per-pixel effect, in the older numbering.
pub const FBIO_EINK_UPDATE_DISPLAY_FX_OLD: u64 = 0x4642;

/// A failed call to the operating system, with the error number where there is one.
#[derive(Debug, Clone, Copy, PartialEq, Eq, Structural)]
pub struct DriverError {
    pub raw_os_error: Option<i32>,
}

/// A region to refresh. The right and bottom edges are exclusive. The buffer
/// pointer of the driver's own structure is always null and has no field here.
#[derive(Debug, Clone, Copy, PartialEq, Eq, Structural)]
pub struct UpdateArea {
    pub x1: i32,
    pub y1: i32,
    pub x2: i32,
    pub y2: i32,
    pub which_fx: i32,
}

impl UpdateArea {
    pub fn new(x1: i32, y1: i32, x2: i32, y2: i32, which_fx: i32) -> (area: Self)
        ensures
            area == (UpdateArea { x1, y1, x2, y2, which_fx }),
    {
        UpdateArea { x1, y1, x2, y2, which_fx }
    }
}

/// A refresh of the whole screen with a per-pixel effect, except for some
/// rectangles.
#[derive(Debug)]
pub struct FxStruct {
    pub update_mode: i32,
    pub which_fx: i32,
    pub exclude_rects: Vec<(i32, i32, i32, i32)>,
}

impl FxStruct {
    pub fn new(update_mode: i32, which_fx: i32) -> (fx: Self)
        ensures
            fx.update_mode == update_mode,
            fx.which_fx == which_fx,
            fx.exclude_rects@.len() == 0,
    {
        FxStruct { update_mode, which_fx, exclude_rects: Vec::new() }
    }

    /// Leaves one more rectangle out of the refresh.
    pub fn push_exclude(&mut self, x1: i32, y1: i32, x2: i32, y2: i32)
        ensures
            final(self).update_mode == old(self).update_mode,
            final(self).which_fx == old(self).which_fx,
            final(self).exclude_rects@ == old(self).exclude_rects@.push((x1, y1, x2, y2)),
    {
        self.exclude_rects.push((x1, y1, x2, y2));
    }
}

/// The part of the variable screen information that is read, and room for the
/// rest of what the kernel writes.
pub struct VarScreenInfo {
    pub xres: u32,
    pub yres: u32,
    pub xres_virtual: u32,
    pub yres_virtual: u32,
    pub xoffset: u32,
    pub yoffset: u32,
    pub bits_per_pixel: u32,
    pub _tail: [u8; 256],
}

impl VarScreenInfo {
    /// What is handed to the driver to be filled in.
    pub fn zeroed() -> (info: Self)
        ensures
            info.xres == 0,
            info.yres == 0,
            info.xres_virtual == 0,
            info.yres_virtual == 0,
            info.xoffset == 0,
            info.yoffset == 0,
            info.bits_per_pixel == 0,
            forall|i: int| 0 <= i < 256 ==> info._tail@[i] == 0,
    {
        VarScreenInfo {
            xres: 0,
            yres: 0,
            xres_virtual: 0,
            yres_virtual: 0,
            xoffset: 0,
            yoffset: 0,
            bits_per_pixel: 0,
            _tail: [0u8; 256],
        }
    }
}

/// The part of the fixed screen information that is read, and room for the rest
/// of what the kernel writes.
pub struct FixScreenInfo {
    pub id: [u8; 16],
    pub smem_start: u32,
    pub smem_len: u32,
    pub fb_type: u32,
    pub type_aux: u32,
    pub visual: u32,
    pub xpanstep: u16,
    pub ypanstep: u16,
    pub ywrapstep: u16,
    pub line_length: u32,
    pub _tail: [u8; 256],
}

impl FixScreenInfo {
    /// What is handed to the driver to be filled in.
    pub fn zeroed() -> (info: Self)
        ensures
            forall|i: int| 0 <= i < 16 ==> info.id@[i] == 0,
            info.smem_start == 0,
            info.smem_len == 0,
            info.fb_type == 0,
            info.type_aux == 0,
            info.visual == 0,
            info.xpanstep == 0,
            info.ypanstep == 0,
            info.ywrapstep == 0,
            info.line_length == 0,
            forall|i: int| 0 <= i < 256 ==> info._tail@[i] == 0,
    {
        FixScreenInfo {
            id: [0u8; 16],
            smem_start: 0,
            smem_len: 0,
            fb_type: 0,
            type_aux: 0,
            visual: 0,
            xpanstep: 0,
            ypanstep: 0,
            ywrapstep: 0,
            line_length: 0,
            _tail: [0u8; 256],
        }
    }
}

/// The signed reading of a 32-bit resolution.
pub open spec fn signed(v: u32) -> i32 {
    if v <= i32::MAX {
        v as i32
    } else {
        (v - 0x1_0000_0000) as i32
    }
}

/// Reads a resolution as a signed coordinate, as the driver's structures hold it.
pub fn to_coord(v: u32) -> (c: i32)
    ensures
        c == signed(v),
{
    assert(v > 0x7fff_ffff ==> v as i32 == v - 0x1_0000_0000) by (bit_vector);
    #[verifier::truncate]
    (v as i32)
}

/// What a call that returned `rv` amounts to: negative is failure, with the error
/// number that the call left behind, and anything else is the call's result.
pub fn call_result(rv: i32, last_os_error: Option<i32>) -> (r: Result<i32, DriverError>)
    ensures
        r == if rv < 0 {
            Err(DriverError { raw_os_error: last_os_error })
        } else {
            Ok::<i32, DriverError>(rv)
        },
{
    if rv < 0 {
        Err(DriverError { raw_os_error: last_os_error })
    } else {
        Ok(rv)
    }
}

/// The number of request `nr` in the frame buffer's group of requests that carry
/// no size.
pub open spec fn io_request(nr: u8) -> u64 {
    (('F' as u64) * 0x100 + nr) as u64
}

/// The requests stand at their places in the frame buffer's group, so each fits
/// a positive C `int` and no two are the same.
pub proof fn law_requests()
    ensures
        FBIO_EINK_UPDATE_DISPLAY == io_request(0xdb),
        FBIO_EINK_UPDATE_DISPLAY_AREA == io_request(0xdd),
        FBIOGET_VSCREENINFO == io_request(0x00),
        FBIOGET_FSCREENINFO == io_request(0x02),
        FBIO_EINK_RESTORE_DISPLAY_NEW == io_request(0xef),
        FBIO_EINK_RESTORE_DISPLAY_OLD == io_request(0x44),
        FBIO_EINK_UPDATE_DISPLAY_FX_NEW == io_request(0xe4),
        FBIO_EINK_UPDATE_DISPLAY_FX_OLD == io_request(0x42),
        forall|nr: u8| #[trigger] io_request(nr) <= i32::MAX,
        forall|a: u8, b: u8| #[trigger] io_request(a) == #[trigger] io_request(b) ==> a == b,
{
}

} // verus!
