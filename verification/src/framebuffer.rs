//! The framebuffer: its geometry, the packing of colors into pixels, and
//! the place of a pixel in the buffer.

use vstd::prelude::*;

verus! {

/// What the boot information says of the framebuffer.
#[derive(Clone, Copy, Debug, PartialEq, Eq, Structural)]
pub struct FbInfo {
    /// The address of the buffer.
    pub buffer_ptr: u64,
    /// The size of the buffer in bytes.
    pub size_bytes: u64,
    /// The visible width in pixels.
    pub width: usize,
    /// The visible height in pixels.
    pub height: usize,
    /// The bytes of a row.
    pub pitch: usize,
}

/// The order of the color channels in a pixel.
#[derive(Clone, Copy, Debug, PartialEq, Eq, Structural)]
pub enum PixelFormat {
    Rgb,
    Bgr,
    /// Any other layout; it is treated as `Rgb`.
    Other,
}

/// The pixel with full opacity and the three channels in the given order,
/// the first in the highest place.
pub open spec fn packed(first: u8, second: u8, third: u8) -> u32 {
    (0xFF00_0000 + first * 0x1_0000 + second * 0x100 + third) as u32
}

/// The pixel that a color is packed into under a format.
pub open spec fn pixel_of(format: PixelFormat, r: u8, g: u8, b: u8) -> u32 {
    match format {
        PixelFormat::Bgr => packed(b, g, r),
        _ => packed(r, g, b),
    }
}

/// Packs a color into a 32-bit pixel.
pub fn pack_color(format: PixelFormat, r: u8, g: u8, b: u8) -> (p: u32)
    ensures
        p == pixel_of(format, r, g, b),
{
    match format {
        PixelFormat::Bgr => pack(b, g, r),
        _ => pack(r, g, b),
    }
}

/// Packs three channels into a pixel, the first in the highest place.
fn pack(first: u8, second: u8, third: u8) -> (p: u32)
    ensures
        p == packed(first, second, third),
{
    let a = first as u32;
    let b = second as u32;
    let c = third as u32;
    assert(a <= 0xFF && b <= 0xFF && c <= 0xFF ==> (0xFFu32 << 24) | (a << 16) | (b << 8) | c
        == 0xFF00_0000 + a * 0x1_0000 + b * 0x100 + c) by (bit_vector);
    (0xFFu32 << 24) | (a << 16) | (b << 8) | c
}

/// The geometry of the framebuffer, from what the bootloader reports: the
/// pitch is the stride times the bytes of a pixel, the size the pitch times
/// the height. `None` where one of them is no machine word.
pub fn boot_fb_info(
    buffer_ptr: u64,
    width: usize,
    height: usize,
    stride: usize,
    bytes_per_pixel: usize,
) -> (r: Option<FbInfo>)
    ensures
        match r {
            Some(info) => info.buffer_ptr == buffer_ptr && info.width == width && info.height
                == height && info.pitch == stride * bytes_per_pixel && info.size_bytes == stride
                * bytes_per_pixel * height,
            None => stride * bytes_per_pixel > usize::MAX || stride * bytes_per_pixel * height
                > usize::MAX,
        },
{
    let pitch = match stride.checked_mul(bytes_per_pixel) {
        Some(p) => p,
        None => {
            return None;
        },
    };
    let size = match pitch.checked_mul(height) {
        Some(s) => s,
        None => {
            return None;
        },
    };
    Some(FbInfo { buffer_ptr, size_bytes: size as u64, width, height, pitch })
}

/// Where the pixel at `(x, y)` lies in a buffer of 32-bit pixels: `None`
/// outside the visible area.
pub fn pixel_index(info: &FbInfo, x: usize, y: usize) -> (r: Option<usize>)
    requires
        (info.pitch / 4) * info.height <= usize::MAX,
        info.width <= info.pitch / 4,
    ensures
        match r {
            Some(i) => x < info.width && y < info.height && i == y * (info.pitch / 4) + x && i < (
            info.pitch / 4) * info.height,
            None => x >= info.width || y >= info.height,
        },
{
    if x >= info.width || y >= info.height {
        return None;
    }
    let stride_pixels = info.pitch / 4;
    assert(y * stride_pixels + x < stride_pixels * info.height) by (nonlinear_arith)
        requires
            y < info.height,
            x < info.width,
            info.width <= stride_pixels,
    ;
    Some(y * stride_pixels + x)
}

} // verus!
