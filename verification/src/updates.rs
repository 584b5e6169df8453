use vstd::prelude::*;
use std::sync::Arc;
use crate::ids::CacheTextureId;

verus! {

/// The pixel layout of a texture's backing storage.
#[derive(Copy, Clone, Debug, Eq, PartialEq, Structural, Hash)]
pub enum ImageFormat {
    Invalid,
    A8,
    RGB8,
    RGBA8,
    RGBAF32,
}

impl ImageFormat {
    /// Bytes each pixel of this format occupies; `Invalid` occupies none.
    pub open spec fn spec_bytes_per_pixel(self) -> u32 {
        match self {
            ImageFormat::Invalid => 0,
            ImageFormat::A8 => 1,
            ImageFormat::RGB8 => 3,
            ImageFormat::RGBA8 => 4,
            ImageFormat::RGBAF32 => 16,
        }
    }

    /// Bytes each pixel of this format occupies.
    pub fn bytes_per_pixel(&self) -> (r: u32)
        ensures
            r == self.spec_bytes_per_pixel(),
    {
        match *self {
            ImageFormat::Invalid => 0,
            ImageFormat::A8 => 1,
            ImageFormat::RGB8 => 3,
            ImageFormat::RGBA8 => 4,
            ImageFormat::RGBAF32 => 16,
        }
    }
}

/// The sampling filter requested for a texture.
#[derive(Copy, Clone, Debug, Eq, PartialEq, Structural, Hash)]
pub enum TextureFilter {
    Nearest,
    Linear,
}

/// Whether a texture is a plain resource, a single-layer render
/// target, or a multi-layer render target (with its layer count).
#[derive(Copy, Clone, Debug, Eq, PartialEq, Structural, Hash)]
pub enum RenderTargetMode {
    NoTarget,
    SimpleRenderTarget,
    LayerRenderTarget(i32),
}

/// One texture-cache mutation command.
///
/// `Create(width, height, format, filter, target_mode, initial_pixels)`
/// conveys enough to allocate device storage. `Update(x, y, width,
/// height, pixels, stride)` is a sub-rectangle blit; the optional
/// stride is the byte pitch between source rows for partial uploads.
/// `Grow(width, height, format, filter, target_mode)` reallocates
/// storage for an existing id; prior contents are not preserved.
pub enum TextureUpdateOp {
    Create(u32, u32, ImageFormat, TextureFilter, RenderTargetMode, Option<Arc<Vec<u8>>>),
    Update(u32, u32, u32, u32, Arc<Vec<u8>>, Option<u32>),
    Grow(u32, u32, ImageFormat, TextureFilter, RenderTargetMode),
}

/// One mutation command aimed at one cache texture id.
pub struct TextureUpdate {
    pub id: CacheTextureId,
    pub op: TextureUpdateOp,
}

/// An append-only, order-preserving list of texture-cache mutations.
/// The GPU-owning thread must replay the whole list, in order, exactly
/// once; nothing is reordered, deduplicated or coalesced.
pub struct TextureUpdateList {
    pub updates: Vec<TextureUpdate>,
}

/// True when the op allocates fresh storage for its id.
pub open spec fn is_create(op: TextureUpdateOp) -> bool {
    match op {
        TextureUpdateOp::Create(..) => true,
        _ => false,
    }
}

/// Op `i` of the list names an id that an earlier `Create` introduced.
pub open spec fn created_earlier(ops: Seq<TextureUpdate>, i: int) -> bool {
    exists|j: int| 0 <= j < i && is_create(#[trigger] ops[j].op) && ops[j].id == ops[i].id
}

/// Against a fresh set of ids, every `Update`/`Grow` in the list names
/// an id that a `Create` earlier in the same list introduced.
pub open spec fn references_in_order(ops: Seq<TextureUpdate>) -> bool {
    forall|i: int| 0 <= i < ops.len() && !is_create(#[trigger] ops[i].op) ==> created_earlier(ops, i)
}

/// Some `Create` among the first `upto` ops introduces raw id `x`.
pub open spec fn created_in_prefix(ops: Seq<TextureUpdate>, upto: int, x: usize) -> bool {
    exists|j: int| 0 <= j < upto && is_create(#[trigger] ops[j].op) && ops[j].id.0 == x
}

/// True when `ids` holds `x`.
fn contains_id(ids: &Vec<usize>, x: usize) -> (r: bool)
    ensures
        r == ids@.contains(x),
{
    let mut i: usize = 0;
    while i < ids.len()
        invariant
            0 <= i <= ids@.len(),
            forall|k: int| 0 <= k < i ==> ids@[k] != x,
        decreases ids@.len() - i,
    {
        if ids[i] == x {
            proof {
                assert(ids@[i as int] == x);
                assert(ids@.contains(x));
            }
            return true;
        }
        i += 1;
    }
    proof {
        assert(!ids@.contains(x)) by {
            if ids@.contains(x) {
                let k = choose|k: int| 0 <= k < ids@.len() && ids@[k] == x;
                assert(ids@[k] != x);
            }
        }
    }
    false
}

impl TextureUpdateList {
    /// A fresh, empty update list.
    pub fn new() -> (r: TextureUpdateList)
        ensures
            r.updates@.len() == 0,
    {
        TextureUpdateList { updates: Vec::new() }
    }

    /// Appends one update in producer order; nothing else changes.
    #[inline]
    pub fn push(&mut self, update: TextureUpdate)
        ensures
            final(self).updates@ == old(self).updates@.push(update),
    {
        self.updates.push(update);
    }

    /// Detection harness for the ordering contract: true exactly when
    /// every `Update`/`Grow` names an id introduced by an earlier
    /// `Create` of this list. Meant to run before the list reaches the
    /// GPU layer, where a violation would be a fatal caller bug.
    pub fn validate(&self) -> (r: bool)
        ensures
            r == references_in_order(self.updates@),
    {
        let ghost ops = self.updates@;
        let mut created: Vec<usize> = Vec::new();
        let mut i: usize = 0;
        while i < self.updates.len()
            invariant
                0 <= i <= ops.len(),
                ops == self.updates@,
                forall|x: usize| #[trigger] created@.contains(x) <==> created_in_prefix(ops, i as int, x),
                forall|j: int| 0 <= j < i && !is_create(#[trigger] ops[j].op) ==> created_earlier(ops, j),
            decreases ops.len() - i,
        {
            let u = &self.updates[i];
            let raw = u.id.0;
            let is_c = matches!(u.op, TextureUpdateOp::Create(..));
            if is_c {
                let ghost before = created@;
                created.push(raw);
                proof {
                    assert forall|x: usize| #[trigger] created@.contains(x)
                        implies created_in_prefix(ops, i + 1, x) by {
                        let k = choose|k: int| 0 <= k < created@.len() && created@[k] == x;
                        if k < before.len() {
                            assert(before[k] == x);
                            assert(before.contains(x));
                            let j = choose|j: int| 0 <= j < i && is_create(#[trigger] ops[j].op)
                                && ops[j].id.0 == x;
                            assert(0 <= j < i + 1 && is_create(ops[j].op) && ops[j].id.0 == x);
                        } else {
                            assert(created@[k] == raw);
                            assert(is_create(ops[i as int].op) && ops[i as int].id.0 == x);
                        }
                    }
                    assert forall|x: usize| created_in_prefix(ops, i + 1, x)
                        implies #[trigger] created@.contains(x) by {
                        let j = choose|j: int| 0 <= j < i + 1 && is_create(#[trigger] ops[j].op)
                            && ops[j].id.0 == x;
                        if j < i {
                            assert(created_in_prefix(ops, i as int, x));
                            assert(before.contains(x));
                            let k = choose|k: int| 0 <= k < before.len() && before[k] == x;
                            assert(created@[k] == x);
                        } else {
                            assert(ops[i as int].id.0 == x);
                            assert(x == raw);
                            assert(created@[created@.len() - 1] == x);
                        }
                    }
                }
            } else {
                let seen = contains_id(&created, raw);
                if !seen {
                    proof {
                        assert(!references_in_order(ops)) by {
                            if created_earlier(ops, i as int) {
                                let j = choose|j: int| 0 <= j < i && is_create(#[trigger] ops[j].op)
                                    && ops[j].id == ops[i as int].id;
                                assert(ops[j].id.0 == raw);
                                assert(created_in_prefix(ops, i as int, raw));
                                assert(created@.contains(raw));
                            }
                            assert(!is_create(ops[i as int].op) && !created_earlier(ops, i as int));
                        }
                    }
                    return false;
                }
                proof {
                    assert(created_earlier(ops, i as int)) by {
                        let j = choose|j: int| 0 <= j < i && is_create(#[trigger] ops[j].op)
                            && ops[j].id.0 == raw;
                        assert(ops[j].id == ops[i as int].id);
                    }
                }
            }
            i += 1;
        }
        true
    }
}

} // verus!
