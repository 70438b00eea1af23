//! The primitive call surface of the graphics driver, as data.
//!
//! The library never talks to the driver itself: every operation appends
//! [`Command`] values to a caller-owned list, which the host executes in order
//! against a real context (or inspects, in a test). Handles created by the
//! driver come back into the library as plain integers.

use vstd::prelude::*;

verus! {

/// `GL_BYTE`
pub const BYTE: u32 = 0x1400;
/// `GL_UNSIGNED_BYTE`
pub const UNSIGNED_BYTE: u32 = 0x1401;
/// `GL_SHORT`
pub const SHORT: u32 = 0x1402;
/// `GL_UNSIGNED_SHORT`
pub const UNSIGNED_SHORT: u32 = 0x1403;
/// `GL_FLOAT`
pub const FLOAT: u32 = 0x1406;
/// `GL_FLOAT_VEC2`
pub const FLOAT_VEC2: u32 = 0x8B50;
/// `GL_FLOAT_VEC3`
pub const FLOAT_VEC3: u32 = 0x8B51;
/// `GL_FLOAT_VEC4`
pub const FLOAT_VEC4: u32 = 0x8B52;
/// `GL_FLOAT_MAT2`
pub const FLOAT_MAT2: u32 = 0x8B5A;
/// `GL_FLOAT_MAT3`
pub const FLOAT_MAT3: u32 = 0x8B5B;
/// `GL_FLOAT_MAT4`
pub const FLOAT_MAT4: u32 = 0x8B5C;

/// `GL_VERTEX_SHADER`
pub const VERTEX_SHADER: u32 = 0x8B31;
/// `GL_FRAGMENT_SHADER`
pub const FRAGMENT_SHADER: u32 = 0x8B30;

/// `GL_TEXTURE_MIN_FILTER`
pub const TEXTURE_MIN_FILTER: u32 = 0x2801;
/// `GL_TEXTURE_MAG_FILTER`
pub const TEXTURE_MAG_FILTER: u32 = 0x2800;
/// `GL_TEXTURE_WRAP_S`
pub const TEXTURE_WRAP_S: u32 = 0x2802;
/// `GL_TEXTURE_WRAP_T`
pub const TEXTURE_WRAP_T: u32 = 0x2803;

/// `GL_NEAREST`
pub const NEAREST: u32 = 0x2600;
/// `GL_LINEAR`
pub const LINEAR: u32 = 0x2601;
/// `GL_CLAMP_TO_EDGE`
pub const CLAMP_TO_EDGE: u32 = 0x812F;
/// `GL_REPEAT`
pub const REPEAT: u32 = 0x2901;

/// `GL_R8UI`
pub const R8UI: u32 = 0x8232;
/// `GL_RGB`
pub const RGB: u32 = 0x1907;
/// `GL_RGBA`
pub const RGBA: u32 = 0x1908;
/// `GL_RED_INTEGER`
pub const RED_INTEGER: u32 = 0x8D94;
/// `GL_RED`
pub const RED: u32 = 0x1903;
/// `GL_RG`
pub const RG: u32 = 0x8227;
/// `GL_RG_INTEGER`
pub const RG_INTEGER: u32 = 0x8228;
/// `GL_RGB_INTEGER`
pub const RGB_INTEGER: u32 = 0x8D98;
/// `GL_RGBA_INTEGER`
pub const RGBA_INTEGER: u32 = 0x8D99;
/// `GL_BGR`
pub const BGR: u32 = 0x80E0;
/// `GL_BGRA`
pub const BGRA: u32 = 0x80E1;
/// `GL_ALPHA`
pub const ALPHA: u32 = 0x1906;
/// `GL_LUMINANCE`
pub const LUMINANCE: u32 = 0x1909;
/// `GL_LUMINANCE_ALPHA`
pub const LUMINANCE_ALPHA: u32 = 0x190A;

/// One call into the graphics driver. Floating-point arguments travel as their
/// IEEE-754 bit patterns (`f32::to_bits`); the host turns them back with
/// `f32::from_bits` before making the call.
#[derive(Clone, Debug, PartialEq)]
pub enum Command {
    UseProgram(u32),
    BindVertexArray(u32),
    BindArrayBuffer(u32),
    /// Upload of the bound array buffer's content, one float per element.
    BufferArrayData(Vec<u32>),
    VertexAttribPointer {
        location: u32,
        size: i32,
        gl_type: u32,
        normalized: bool,
        stride: i32,
        offset: i32,
    },
    EnableVertexAttribArray(u32),
    DrawArraysTriangles(i32),
    DrawElementsTriangles(i32),
    Uniform1f(u32, u32),
    Uniform2f(u32, u32, u32),
    Uniform3f(u32, u32, u32, u32),
    Uniform4f(u32, u32, u32, u32, u32),
    Uniform1i(u32, i32),
    /// Selects texture unit `n` (`GL_TEXTURE0 + n`).
    ActiveTexture(u32),
    BindTexture2d(u32),
    TexParameter2d(u32, u32),
    TexImage2dFromBytes {
        internal_format: u32,
        width: i32,
        height: i32,
        format: u32,
        data: Vec<u8>,
    },
}

/// `c` uploads exactly `data` into the bound array buffer.
pub open spec fn is_buffer_upload(c: Command, data: Seq<u32>) -> bool {
    match c {
        Command::BufferArrayData(v) => v@ == data,
        _ => false,
    }
}

/// `c` uploads exactly these pixels into the bound 2D texture.
pub open spec fn is_image_upload(
    c: Command,
    internal_format: u32,
    width: i32,
    height: i32,
    format: u32,
    data: Seq<u8>,
) -> bool {
    match c {
        Command::TexImage2dFromBytes { internal_format: i, width: w, height: h, format: f, data: d } =>
            i == internal_format && w == width && h == height && f == format && d@ == data,
        _ => false,
    }
}

/// Bytes of one pixel of the given format when each component is one
/// unsigned byte, as texture uploads send it; 0 for a format not known here.
pub open spec fn spec_bytes_per_pixel(format: u32) -> int {
    if format == RED || format == RED_INTEGER || format == ALPHA || format == LUMINANCE {
        1
    } else if format == RG || format == RG_INTEGER || format == LUMINANCE_ALPHA {
        2
    } else if format == RGB || format == RGB_INTEGER || format == BGR {
        3
    } else if format == RGBA || format == RGBA_INTEGER || format == BGRA {
        4
    } else {
        0
    }
}

/// Number of bytes taken by one component of the given storage type.
pub open spec fn spec_size_of_type(gl_type: u32) -> i32 {
    if gl_type == BYTE || gl_type == UNSIGNED_BYTE {
        1
    } else if gl_type == SHORT || gl_type == UNSIGNED_SHORT {
        2
    } else if gl_type == FLOAT {
        4
    } else {
        1
    }
}

/// Number of components of a reflected attribute type; unknown types count as
/// one component.
pub open spec fn spec_component_count(attr_type: u32) -> i32 {
    if attr_type == FLOAT {
        1
    } else if attr_type == FLOAT_VEC2 {
        2
    } else if attr_type == FLOAT_VEC3 {
        3
    } else if attr_type == FLOAT_VEC4 || attr_type == FLOAT_MAT2 {
        4
    } else if attr_type == FLOAT_MAT3 {
        9
    } else if attr_type == FLOAT_MAT4 {
        16
    } else {
        1
    }
}

/// Storage type of one component: fixed-point bytes when normalized, floats
/// otherwise.
pub open spec fn spec_storage_type(normalize: bool) -> u32 {
    if normalize {
        UNSIGNED_BYTE
    } else {
        FLOAT
    }
}

pub fn bytes_per_pixel(format: u32) -> (r: u32)
    ensures
        r == spec_bytes_per_pixel(format),
{
    if format == RED || format == RED_INTEGER || format == ALPHA || format == LUMINANCE {
        1
    } else if format == RG || format == RG_INTEGER || format == LUMINANCE_ALPHA {
        2
    } else if format == RGB || format == RGB_INTEGER || format == BGR {
        3
    } else if format == RGBA || format == RGBA_INTEGER || format == BGRA {
        4
    } else {
        0
    }
}

pub fn size_of_type(gl_type: u32) -> (r: i32)
    ensures
        r == spec_size_of_type(gl_type),
        1 <= r <= 4,
{
    if gl_type == BYTE || gl_type == UNSIGNED_BYTE {
        1
    } else if gl_type == SHORT || gl_type == UNSIGNED_SHORT {
        2
    } else if gl_type == FLOAT {
        4
    } else {
        1
    }
}

/// Component count and storage type with which an attribute of the given
/// reflected type is uploaded.
pub fn get_attribute_size_and_type(attr_type: u32, normalize: bool) -> (r: (i32, u32))
    ensures
        r.0 == spec_component_count(attr_type),
        r.1 == spec_storage_type(normalize),
        1 <= r.0 <= 16,
{
    let t = if normalize {
        UNSIGNED_BYTE
    } else {
        FLOAT
    };
    if attr_type == FLOAT {
        (1, t)
    } else if attr_type == FLOAT_VEC2 {
        (2, t)
    } else if attr_type == FLOAT_VEC3 {
        (3, t)
    } else if attr_type == FLOAT_VEC4 || attr_type == FLOAT_MAT2 {
        (4, t)
    } else if attr_type == FLOAT_MAT3 {
        (9, t)
    } else if attr_type == FLOAT_MAT4 {
        (16, t)
    } else {
        (1, t)
    }
}

} // verus!
