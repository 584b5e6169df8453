use vstd::prelude::*;

verus! {

/// An identifier for a texture that is owned by the texture cache
/// subsystem. The cache manages allocation and freeing of these ids,
/// and the GPU-owning thread maintains a map from cache texture id to
/// native texture.
#[derive(Copy, Clone, Debug, Eq, PartialEq, Structural, Hash)]
pub struct CacheTextureId(pub usize);

/// An identifier for an externally provided image surface.
#[derive(Copy, Clone, Debug, Eq, PartialEq, Structural, Hash)]
pub struct ExternalImageId(pub u64);

/// The logical source for a texture wanted by a draw call. Values of
/// this type travel through the pipeline until they reach the
/// GPU-owning thread, where they are resolved to a native texture.
#[derive(Copy, Clone, Debug, Eq, PartialEq, Structural, Hash)]
pub enum SourceTexture {
    Invalid,
    TextureCache(CacheTextureId),
    WebGL(u32),
    External(ExternalImageId),
}

impl SourceTexture {
    /// True for every variant that may take part in a draw call;
    /// `Invalid` never does.
    pub open spec fn spec_is_drawable(self) -> bool {
        self != SourceTexture::Invalid
    }

    /// Whether this source may be bound for a draw call at all.
    pub fn is_drawable(&self) -> (r: bool)
        ensures
            r == self.spec_is_drawable(),
    {
        !matches!(*self, SourceTexture::Invalid)
    }
}

/// An index naming a stacking context within a built scene.
#[derive(Copy, Clone, Debug, Eq, PartialEq, Structural, Hash)]
pub struct StackingContextIndex(pub usize);

/// The axis a one-dimensional operation (such as a blur pass) runs on.
#[derive(Copy, Clone, Debug, Eq, PartialEq, Structural, Hash)]
pub enum AxisDirection {
    Horizontal,
    Vertical,
}

} // verus!
