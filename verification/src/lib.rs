//! A software-rendered swapchain: CPU-writable images that an application
//! fills with plain memory writes and hands to the platform for display.
//!
//! The crate holds the platform-independent part: row-stride arithmetic,
//! image storage, the image pool with its acquire / lock / present protocol,
//! the ready notification latch and the registry of shared display
//! connections. Every function carries a contract that Verus proves.
use vstd::prelude::*;

pub mod align;
pub mod buffer;
pub mod cgl;
pub mod connection;
pub mod notifier;
pub mod surface;

verus! {

/// Configuration for a surface.
#[derive(Debug, Clone, Copy)]
pub struct Config {
    pub vsync: bool,
    /// The preferred number of swapchain images.
    pub image_count: usize,
    /// Whether the surface is opaque. If `false`, the content is blended over
    /// what lies below the window, with pre-multiplied alpha.
    pub opaque: bool,
    /// The alignment of each image's storage, a power of two.
    pub align: usize,
    /// The alignment of each row (scanline) of an image, a power of two.
    pub scanline_align: usize,
}

/// The configuration that `Config::new` and `Config::default` return.
pub open spec fn default_config() -> Config {
    Config { vsync: true, image_count: 2, opaque: true, align: 1, scanline_align: 1 }
}

impl Config {
    /// Construct a default `Config`.
    pub fn new() -> (c: Self)
        ensures
            c == default_config(),
    {
        Config { vsync: true, image_count: 2, opaque: true, align: 1, scanline_align: 1 }
    }
}

impl Default for Config {
    fn default() -> (c: Self)
        ensures
            c == default_config(),
    {
        Config::new()
    }
}

/// A pixel format. A backend may support only some of them.
#[derive(Debug, Clone, Copy, PartialEq, Eq, Hash, Structural)]
pub enum Format {
    /// 32-bit ARGB.
    Argb8888,
    /// 32-bit RGB; the high byte is ignored.
    Xrgb8888,
}

/// The geometry of the swapchain images: row-major, top-down bitmaps.
#[derive(Debug, Clone, Copy, PartialEq, Eq, Hash)]
pub struct ImageInfo {
    /// The image size, `[width, height]`, in pixels.
    pub extent: [u32; 2],
    /// The offset between rows, in bytes.
    pub stride: usize,
    /// The pixel format.
    pub format: Format,
}

/// The image info of a surface that was never configured.
pub open spec fn default_image_info() -> ImageInfo {
    ImageInfo { extent: [0u32, 0u32], stride: 0, format: Format::Argb8888 }
}

impl Default for ImageInfo {
    fn default() -> (info: Self)
        ensures
            info == default_image_info(),
    {
        ImageInfo { extent: [0, 0], stride: 0, format: Format::Argb8888 }
    }
}

/// What can go wrong in a call on a surface or on the connection registry.
#[derive(Debug, Clone, Copy, PartialEq, Eq, Hash, Structural)]
pub enum Error {
    /// An alignment is zero or not a power of two.
    InvalidAlignment,
    /// A stride or a size does not fit the integers that carry it.
    Overflow,
    /// The image is locked or in presentation and cannot be locked.
    ImageBusy,
    /// The call does not fit the state that the image or the surface is in.
    InvalidState,
    /// The backend does not support the pixel format.
    UnsupportedFormat,
    /// The platform refused the presentation.
    Present,
    /// The display connection is gone; the surface cannot present any more.
    ConnectionLost,
}

} // verus!
