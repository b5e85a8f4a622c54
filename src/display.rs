//! Plain records that the presentation layer fills in: the settings a window
//! is created with, and the OpenGL object names of each renderer.
use vstd::prelude::*;

verus! {

/// Settings a window is created with.
#[derive(Debug)]
pub struct WindowSettings {
    pub width: u32,
    pub height: u32,
    pub title: String,
}

/// OpenGL names of the circle renderer: its vertex array, its program, and the
/// locations of its uniforms.
#[derive(Clone, Copy, Debug, PartialEq, Eq)]
pub struct CircleRenderer {
    pub vao: u32,
    pub shader: u32,
    pub uniform_position: i32,
    pub uniform_radius: i32,
    pub uniform_resolution: i32,
    pub uniform_color: i32,
}

/// OpenGL names of the line renderer: its vertex array, its program, and the
/// locations of its uniforms.
#[derive(Clone, Copy, Debug, PartialEq, Eq)]
pub struct LineRenderer {
    pub vao: u32,
    pub shader: u32,
    pub uniform_from: i32,
    pub uniform_to: i32,
    pub uniform_resolution: i32,
    pub uniform_width: i32,
}

/// OpenGL names of the full-screen grid renderer: its vertex array, its
/// program, and the locations of its uniforms.
#[derive(Clone, Copy, Debug, PartialEq, Eq)]
pub struct GridRenderer {
    pub vao: u32,
    pub shader: u32,
    pub uniform_tex: i32,
    pub uniform_resolution: i32,
}

impl WindowSettings {
    pub fn new(width: u32, height: u32, title: String) -> (r: WindowSettings)
        ensures
            r.width == width,
            r.height == height,
            r.title@ == title@,
    {
        WindowSettings { width, height, title }
    }
}

} // verus!
