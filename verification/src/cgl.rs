//! What the OpenGL backend passes to the texture upload calls.
use crate::Format;
use vstd::prelude::*;

verus! {

pub const GL_BGRA: i32 = 0x80E1;

pub const GL_RGBA: i32 = 0x1908;

pub const GL_RGB: i32 = 0x1907;

pub const GL_UNSIGNED_BYTE: i32 = 0x1401;

pub const GL_UNSIGNED_INT_8_8_8_8_REV: i32 = 0x8367;

/// The internal format, the pixel format and the component type under which
/// OpenGL takes images of `format`.
pub fn translate_format(format: Format) -> (r: (i32, i32, i32))
    ensures
        r == match format {
            Format::Argb8888 => (GL_RGBA, GL_BGRA, GL_UNSIGNED_BYTE),
            Format::Xrgb8888 => (GL_RGB, GL_BGRA, GL_UNSIGNED_INT_8_8_8_8_REV),
        },
{
    match format {
        Format::Argb8888 => (GL_RGBA, GL_BGRA, GL_UNSIGNED_BYTE),
        Format::Xrgb8888 => (GL_RGB, GL_BGRA, GL_UNSIGNED_INT_8_8_8_8_REV),
    }
}

/// The length of a row in pixels, as the unpack row length wants it, for a
/// stride in bytes.
pub fn unpack_row_length(stride: i32) -> (n: i32)
    requires
        stride >= 0,
    ensures
        n == stride / 4,
{
    stride / 4
}

} // verus!
