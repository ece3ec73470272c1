use crate::color::RGBA8;
use vstd::prelude::*;

verus! {

/// A two-dimensional vector of single-precision numbers, each held as its
/// IEEE 754 bit pattern.
#[derive(Copy, Clone, Debug, PartialEq, Eq, Structural)]
pub struct Vector2Bits {
    pub x: u32,
    pub y: u32,
}

/// A three-dimensional vector of single-precision numbers, each held as its
/// IEEE 754 bit pattern.
#[derive(Copy, Clone, Debug, PartialEq, Eq, Structural)]
pub struct Vector3Bits {
    pub x: u32,
    pub y: u32,
    pub z: u32,
}

/// One change to the quads, addressed by dense index.
#[derive(Copy, Clone, Debug, PartialEq, Eq, Structural)]
pub enum QuadMessage {
    Create { pos: Vector2Bits, size: Vector2Bits, color: RGBA8 },
    Update { id: usize, pos: Vector2Bits, size: Vector2Bits, color: RGBA8 },
    Remove { id: usize },
}

/// One change to the triangles, addressed by dense index. The height is the
/// bit pattern of a single-precision number.
#[derive(Copy, Clone, Debug, PartialEq, Eq, Structural)]
pub enum TriangleMessage {
    Create { pos: Vector2Bits, height: u32, color: RGBA8 },
    Update { id: usize, pos: Vector2Bits, height: u32, color: RGBA8 },
    Remove { id: usize },
}

/// The global translation to use from this frame on.
#[derive(Copy, Clone, Debug, PartialEq, Eq, Structural)]
pub struct SetTranslationMessage {
    pub translation: Vector3Bits,
}

/// Mathematical content of a frame.
pub struct FrameView {
    /// The quad commands, in the order they were issued.
    pub quads: Seq<QuadMessage>,
    /// The triangle commands, in the order they were issued.
    pub triangles: Seq<TriangleMessage>,
    /// The latest translation set during the frame, if any.
    pub translation: Option<SetTranslationMessage>,
}

impl FrameView {
    /// The frame with no command and no translation.
    pub open spec fn empty() -> FrameView {
        FrameView { quads: Seq::empty(), triangles: Seq::empty(), translation: None }
    }
}

/// Everything that changed during one logical tick.
#[derive(Clone, Debug, PartialEq, Eq)]
pub struct RenderFrame {
    pub quads: Vec<QuadMessage>,
    pub triangles: Vec<TriangleMessage>,
    pub translation: Option<SetTranslationMessage>,
}

impl View for RenderFrame {
    type V = FrameView;

    open spec fn view(&self) -> FrameView {
        FrameView {
            quads: self.quads@,
            triangles: self.triangles@,
            translation: self.translation,
        }
    }
}

impl RenderFrame {
    /// A frame with no command and no translation.
    pub fn new() -> (frame: RenderFrame)
        ensures
            frame@ == FrameView::empty(),
    {
        RenderFrame { quads: Vec::new(), triangles: Vec::new(), translation: None }
    }
}

} // verus!
