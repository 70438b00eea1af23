//! Two-dimensional textures.

use vstd::prelude::*;
use crate::gli::{
    self, Command, is_image_upload, spec_bytes_per_pixel, CLAMP_TO_EDGE, LINEAR, RGBA, TEXTURE_MAG_FILTER,
    TEXTURE_MIN_FILTER, TEXTURE_WRAP_S, TEXTURE_WRAP_T,
};
use crate::uniforms::UniformValue;

verus! {

/// The calls that give a new texture its default sampling state: clamped to
/// the edge in both directions, linear filtering both ways.
pub open spec fn default_sampling(handle: u32) -> Seq<Command> {
    seq![
        Command::BindTexture2d(handle),
        Command::TexParameter2d(TEXTURE_WRAP_S, CLAMP_TO_EDGE),
        Command::TexParameter2d(TEXTURE_WRAP_T, CLAMP_TO_EDGE),
        Command::TexParameter2d(TEXTURE_MIN_FILTER, LINEAR),
        Command::TexParameter2d(TEXTURE_MAG_FILTER, LINEAR),
    ]
}

/// A texture object of the driver.
pub struct Texture {
    gl_texture: u32,
    width: i32,
    height: i32,
}

impl Texture {
    pub closed spec fn handle(&self) -> u32 {
        self.gl_texture
    }

    pub closed spec fn spec_width(&self) -> i32 {
        self.width
    }

    pub closed spec fn spec_height(&self) -> i32 {
        self.height
    }

    /// Wraps the texture object `texture` that the driver created, gives it the
    /// default sampling state and a single transparent black pixel, so that it
    /// can be sampled before any real pixels arrive.
    pub fn new(texture: u32, out: &mut Vec<Command>) -> (r: Texture)
        ensures
            r.handle() == texture,
            r.spec_width() == 1,
            r.spec_height() == 1,
            final(out)@.len() == old(out)@.len() + 6,
            final(out)@.take(old(out)@.len() + 5int) == old(out)@ + default_sampling(texture),
            is_image_upload(final(out)@[old(out)@.len() + 5int], RGBA, 1, 1, RGBA, seq![0u8, 0u8, 0u8, 0u8]),
    {
        let ghost before = out@;
        out.push(Command::BindTexture2d(texture));
        out.push(Command::TexParameter2d(gli::TEXTURE_WRAP_S, gli::CLAMP_TO_EDGE));
        out.push(Command::TexParameter2d(gli::TEXTURE_WRAP_T, gli::CLAMP_TO_EDGE));
        out.push(Command::TexParameter2d(gli::TEXTURE_MIN_FILTER, gli::LINEAR));
        out.push(Command::TexParameter2d(gli::TEXTURE_MAG_FILTER, gli::LINEAR));
        let empty: Vec<u8> = vec![0, 0, 0, 0];
        out.push(
            Command::TexImage2dFromBytes {
                internal_format: gli::RGBA,
                width: 1,
                height: 1,
                format: gli::RGBA,
                data: empty,
            },
        );
        assert(out@.take(before.len() + 5int) =~= before + default_sampling(texture));
        Texture { gl_texture: texture, width: 1, height: 1 }
    }

    pub fn set_wrap_mode(&self, s: u32, t: u32, out: &mut Vec<Command>)
        ensures
            final(out)@ == old(out)@ + seq![
                Command::BindTexture2d(self.handle()),
                Command::TexParameter2d(TEXTURE_WRAP_S, s),
                Command::TexParameter2d(TEXTURE_WRAP_T, t),
            ],
    {
        let ghost before = out@;
        out.push(Command::BindTexture2d(self.gl_texture));
        out.push(Command::TexParameter2d(gli::TEXTURE_WRAP_S, s));
        out.push(Command::TexParameter2d(gli::TEXTURE_WRAP_T, t));
        assert(out@ =~= before + seq![
            Command::BindTexture2d(self.handle()),
            Command::TexParameter2d(TEXTURE_WRAP_S, s),
            Command::TexParameter2d(TEXTURE_WRAP_T, t),
        ]);
    }

    pub fn set_filter_mode(&self, min: u32, mag: u32, out: &mut Vec<Command>)
        ensures
            final(out)@ == old(out)@ + seq![
                Command::BindTexture2d(self.handle()),
                Command::TexParameter2d(TEXTURE_MIN_FILTER, min),
                Command::TexParameter2d(TEXTURE_MAG_FILTER, mag),
            ],
    {
        let ghost before = out@;
        out.push(Command::BindTexture2d(self.gl_texture));
        out.push(Command::TexParameter2d(gli::TEXTURE_MIN_FILTER, min));
        out.push(Command::TexParameter2d(gli::TEXTURE_MAG_FILTER, mag));
        assert(out@ =~= before + seq![
            Command::BindTexture2d(self.handle()),
            Command::TexParameter2d(TEXTURE_MIN_FILTER, min),
            Command::TexParameter2d(TEXTURE_MAG_FILTER, mag),
        ]);
    }

    /// The value that binds this texture to a sampler uniform.
    pub fn as_uniform_value(&self) -> (r: UniformValue)
        ensures
            r == UniformValue::Texture2D(self.handle()),
    {
        UniformValue::Texture2D(self.gl_texture)
    }

    /// Uploads new pixels: `data` holds `width * height` pixels of `format`,
    /// one unsigned byte per component.
    pub fn set_from_bytes(
        &self,
        internal: u32,
        width: i32,
        height: i32,
        format: u32,
        data: &[u8],
        out: &mut Vec<Command>,
    )
        requires
            spec_bytes_per_pixel(format) > 0,
            width >= 0,
            height >= 0,
            data@.len() == width * height * spec_bytes_per_pixel(format),
        ensures
            final(out)@.len() == old(out)@.len() + 2,
            final(out)@.take(old(out)@.len() as int) == old(out)@,
            final(out)@[old(out)@.len() as int] == Command::BindTexture2d(self.handle()),
            is_image_upload(final(out)@[old(out)@.len() + 1int], internal, width, height, format, data@),
    {
        out.push(Command::BindTexture2d(self.gl_texture));
        out.push(
            Command::TexImage2dFromBytes {
                internal_format: internal,
                width,
                height,
                format,
                data: vstd::slice::slice_to_vec(data),
            },
        );
        assert(out@.take(old(out)@.len() as int) =~= old(out)@);
    }

    /// Binds this texture to texture unit `slot`.
    pub fn bind_to_slot(&self, slot: u32, out: &mut Vec<Command>)
        ensures
            final(out)@ == old(out)@ + seq![
                Command::ActiveTexture(slot),
                Command::BindTexture2d(self.handle()),
            ],
    {
        let ghost before = out@;
        out.push(Command::ActiveTexture(slot));
        out.push(Command::BindTexture2d(self.gl_texture));
        assert(out@ =~= before + seq![
            Command::ActiveTexture(slot),
            Command::BindTexture2d(self.handle()),
        ]);
    }

    pub fn width(&self) -> (r: i32)
        ensures
            r == self.spec_width(),
    {
        self.width
    }

    pub fn height(&self) -> (r: i32)
        ensures
            r == self.spec_height(),
    {
        self.height
    }
}

} // verus!
