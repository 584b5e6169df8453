use vstd::prelude::*;
use crate::ids::SourceTexture;

verus! {

/// Fixed shader sampler binding points. The numbering is a compile-time
/// contract shared with shader code and must not change independently.
#[derive(Copy, Clone, Debug, Eq, PartialEq, Structural, Hash)]
pub enum TextureSampler {
    Color0,
    Color1,
    Color2,
    Mask,
    Cache,
    Data16,
    Data32,
    Data64,
    Data128,
    Layers,
    RenderTasks,
    Geometry,
    ResourceRects,
}

impl TextureSampler {
    /// The sampler wired to color slot `n`. Exactly three color slots
    /// exist in the shared shader contract, so any larger index is a
    /// caller bug and is ruled out here.
    pub fn color(n: usize) -> (r: TextureSampler)
        requires
            n < 3,
        ensures
            n == 0 ==> r == TextureSampler::Color0,
            n == 1 ==> r == TextureSampler::Color1,
            n == 2 ==> r == TextureSampler::Color2,
    {
        match n {
            0 => TextureSampler::Color0,
            1 => TextureSampler::Color1,
            _ => TextureSampler::Color2,
        }
    }
}

/// The sampler used when some slot must be bound temporarily and any
/// slot will do.
pub const DEFAULT_TEXTURE: TextureSampler = TextureSampler::Color0;

/// Named vertex-buffer fields. Like `TextureSampler`, a fixed contract
/// shared with shader code.
#[derive(Copy, Clone, Debug, Eq, PartialEq, Structural, Hash)]
pub enum VertexAttribute {
    Position,
    PositionRect,
    ColorRectTL,
    ColorRectTR,
    ColorRectBR,
    ColorRectBL,
    ColorTexCoordRectTop,
    MaskTexCoordRectTop,
    ColorTexCoordRectBottom,
    MaskTexCoordRectBottom,
    BorderRadii,
    BorderPosition,
    BlurRadius,
    DestTextureSize,
    SourceTextureSize,
    Misc,
}

/// A color quantized to four 8-bit channels, laid out exactly as the
/// GPU vertex buffer expects it.
#[derive(Copy, Clone, Debug, Eq, PartialEq, Structural, Hash)]
pub struct PackedColor {
    pub r: u8,
    pub g: u8,
    pub b: u8,
    pub a: u8,
}

/// The textures bound to the three color sampler slots of one draw
/// call. Slots the batch does not use are `SourceTexture::Invalid`.
#[derive(Copy, Clone, Debug)]
pub struct BatchTextures {
    pub colors: [SourceTexture; 3],
}

impl BatchTextures {
    /// A draw batch may be handed to the GPU-owning thread only when
    /// its primary color slot names a real texture.
    pub open spec fn spec_submittable(self) -> bool {
        self.colors[0] != SourceTexture::Invalid
    }

    /// The baseline binding used whenever a draw call needs fewer than
    /// three source textures: every slot is `Invalid`, so the batch is
    /// not submittable as it stands.
    pub fn no_texture() -> (r: BatchTextures)
        ensures
            forall|i: int| 0 <= i < 3 ==> r.colors[i] == SourceTexture::Invalid,
            !r.spec_submittable(),
    {
        BatchTextures {
            colors: [SourceTexture::Invalid, SourceTexture::Invalid, SourceTexture::Invalid],
        }
    }

    /// Gate applied before a batch is submitted: true exactly when the
    /// primary color slot is not `Invalid`.
    pub fn submittable(&self) -> (r: bool)
        ensures
            r == self.spec_submittable(),
    {
        let c0 = self.colors[0];
        !matches!(c0, SourceTexture::Invalid)
    }
}

} // verus!
