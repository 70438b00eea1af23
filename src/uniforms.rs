//! Values that a draw hands to a program's uniforms, and their upload.

use vstd::prelude::*;
use crate::gli::Command;

verus! {

/// A value for one uniform. Float components are IEEE-754 bit patterns
/// (`f32::to_bits`); a texture is the driver's texture handle.
#[derive(Clone, Copy, Debug, PartialEq, Eq, Structural)]
pub enum UniformValue {
    Float(u32),
    FloatVec2(u32, u32),
    FloatVec3(u32, u32, u32),
    FloatVec4(u32, u32, u32, u32),
    Texture2D(u32),
}

/// The calls that upload `value` to the uniform at `location`. A texture is
/// bound through a texture unit by the node that draws, not here.
pub open spec fn upload_commands(location: u32, value: UniformValue) -> Seq<Command> {
    match value {
        UniformValue::Float(f) => seq![Command::Uniform1f(location, f)],
        UniformValue::FloatVec2(x, y) => seq![Command::Uniform2f(location, x, y)],
        UniformValue::FloatVec3(x, y, z) => seq![Command::Uniform3f(location, x, y, z)],
        UniformValue::FloatVec4(x, y, z, w) => seq![Command::Uniform4f(location, x, y, z, w)],
        UniformValue::Texture2D(_) => Seq::empty(),
    }
}

pub fn set_value_for_uniform(location: u32, value: &UniformValue, out: &mut Vec<Command>)
    ensures
        final(out)@ == old(out)@ + upload_commands(location, *value),
{
    let ghost before = out@;
    match value {
        UniformValue::Float(f) => out.push(Command::Uniform1f(location, *f)),
        UniformValue::FloatVec2(x, y) => out.push(Command::Uniform2f(location, *x, *y)),
        UniformValue::FloatVec3(x, y, z) => out.push(Command::Uniform3f(location, *x, *y, *z)),
        UniformValue::FloatVec4(x, y, z, w) => out.push(
            Command::Uniform4f(location, *x, *y, *z, *w),
        ),
        UniformValue::Texture2D(_) => {},
    }
    assert(out@ =~= before + upload_commands(location, *value));
}

} // verus!
