//! Plain data shared with a rendering layer.

use vstd::prelude::*;

verus! {

/// Locations of the shader uniforms a rendering layer binds when drawing
/// loaded geometry.  Plain data: the loader neither reads nor writes these;
/// they are carried alongside a compiled shader program.
#[derive(Clone, Copy, PartialEq, Eq, Structural, Debug)]
pub struct Uniforms {
    pub world: i32,
    pub view: i32,
    pub proj: i32,
    pub view_position: i32,
    pub light_position: i32,
    pub light_direction: i32,
    pub light_ambient: i32,
    pub light_diffuse: i32,
    pub light_specular: i32,
}

} // verus!
