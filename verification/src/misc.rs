use vstd::prelude::*;
use std::sync::Arc;
use crate::ids::AxisDirection;

verus! {

/// A length in app units, 1/60 of a CSS pixel: the fixed-point
/// length unit the layout engine hands down.
#[derive(Copy, Clone, Debug, Eq, PartialEq, Structural, Hash)]
pub struct Au(pub i32);

/// Names a font installed on the platform, outside this crate's
/// control.
#[derive(Clone, Debug, Eq, PartialEq, Hash)]
pub struct NativeFontHandle(pub String);

/// A font the glyph rasterizer should use: raw font-file bytes
/// shared across threads, or a platform font handle.
pub enum FontTemplate {
    Raw(Arc<Vec<u8>>),
    Native(NativeFontHandle),
}

/// One low-level filter pass over a composited layer. Amounts are in
/// `Au`; the hue-rotation angle is fixed point, in 1/65535 of a
/// degree.
#[derive(Copy, Clone, Debug, Eq, PartialEq, Structural, Hash)]
pub enum LowLevelFilterOp {
    Blur(Au, AxisDirection),
    Brightness(Au),
    Contrast(Au),
    Grayscale(Au),
    HueRotate(i32),
    Invert(Au),
    Opacity(Au),
    Saturate(Au),
    Sepia(Au),
}

/// The blend mode a stacking context composites with.
#[derive(Copy, Clone, Debug, Eq, PartialEq, Structural, Hash)]
pub enum MixBlendMode {
    Normal,
    Multiply,
    Screen,
    Overlay,
    Darken,
    Lighten,
    ColorDodge,
    ColorBurn,
    HardLight,
    SoftLight,
    Difference,
    Exclusion,
    Hue,
    Saturation,
    Color,
    Luminosity,
}

/// How a composited stacking context reaches the frame: through a
/// blend mode or through a filter pass.
#[derive(Copy, Clone, Debug, Eq, PartialEq, Structural, Hash)]
pub enum CompositionOp {
    MixBlend(MixBlendMode),
    Filter(LowLevelFilterOp),
}

/// A point in a texture's coordinate space.
#[derive(Copy, Clone, Debug, Eq, PartialEq, Hash)]
pub struct Point2D<T> {
    pub x: T,
    pub y: T,
}

/// The texture coordinates of the four corners of one quad.
#[derive(Copy, Clone, Debug)]
pub struct RectUv<T> {
    pub top_left: Point2D<T>,
    pub top_right: Point2D<T>,
    pub bottom_left: Point2D<T>,
    pub bottom_right: Point2D<T>,
}

} // verus!
