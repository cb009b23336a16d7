use vstd::prelude::*;
use crate::sprite_animation::FrameTag;

verus! {

/// A rectangle of a sprite sheet image, in pixels.
#[derive(Debug, Clone, Copy, PartialEq, Eq, Structural)]
pub struct SheetRect {
    pub x: u32,
    pub y: u32,
    pub w: u32,
    pub h: u32,
}

/// A size in pixels.
#[derive(Debug, Clone, Copy, PartialEq, Eq, Structural)]
pub struct SheetSize {
    pub w: u32,
    pub h: u32,
}

/// A frame of an aseprite sprite sheet: where it lies in the image and
/// how long it shows, in milliseconds.
#[derive(Debug)]
pub struct SheetFrame {
    pub filename: String,
    pub frame: SheetRect,
    pub rotated: bool,
    pub trimmed: bool,
    pub sprite_source_size: SheetRect,
    pub source_size: SheetSize,
    pub duration: u32,
}

/// How a layer of an aseprite sheet blends with those under it.
#[derive(Debug, Clone, Copy, PartialEq, Eq, Structural)]
pub enum BlendMode {
    Normal,
    Multiply,
    Screen,
    Overlay,
    Darken,
    Lighten,
    ColorDodge,
    ColorBurn,
    HardLight,
    SoftLight,
    Difference,
    Exclusion,
    HslHue,
    HslSaturation,
    HslColor,
    HslLuminosity,
}

/// A layer of an aseprite sheet.
#[derive(Debug)]
pub struct SheetLayer {
    pub name: String,
    pub opacity: u32,
    pub blend_mode: BlendMode,
}

/// The description of an aseprite sheet: the tool that wrote it, the
/// image size and file, its frame tags and layers.
#[derive(Debug)]
pub struct SheetMeta {
    pub app: String,
    pub version: String,
    pub format: String,
    pub size: SheetSize,
    pub scale: String,
    pub frame_tags: Option<Vec<FrameTag>>,
    pub layers: Option<Vec<SheetLayer>>,
    pub image: Option<String>,
}

/// An aseprite sprite sheet description: its frames and metadata.
#[derive(Debug)]
pub struct Spritesheet {
    pub frames: Vec<SheetFrame>,
    pub meta: SheetMeta,
}

} // verus!
