use vstd::prelude::*;
use vstd::pervasive::VecAdditionalExecFns;
use std::sync::Arc;
use crate::ids::{CacheTextureId, SourceTexture};
use crate::updates::{ImageFormat, TextureFilter, RenderTargetMode, TextureUpdate, TextureUpdateOp};

verus! {

/// The storage backing one cache texture id, as the GPU-owning thread
/// sees it after replaying the update log.
pub struct CachedTexture {
    pub width: u32,
    pub height: u32,
    pub format: ImageFormat,
    pub filter: TextureFilter,
    pub mode: RenderTargetMode,
    pub pixels: Vec<u8>,
}

impl CachedTexture {
    /// The storage holds exactly one row of bytes per texel row.
    pub open spec fn well_formed(self) -> bool {
        self.pixels@.len() == self.width * self.height * self.format.spec_bytes_per_pixel()
    }
}

/// Why a replayed operation could not be satisfied. Unknown or reused
/// ids and malformed rectangles are caller contract violations made
/// detectable; oversized allocations are resource failures.
#[derive(Copy, Clone, Debug, Eq, PartialEq, Structural, Hash)]
pub enum TextureCacheError {
    IdAlreadyLive,
    UnknownId,
    SizeOverflow,
    RectOutOfBounds,
    BadStride,
    BadDataLength,
}

/// A sequence of `n` zero bytes, the contents of freshly allocated
/// storage.
pub open spec fn zeros(n: int) -> Seq<u8> {
    Seq::new(n as nat, |i: int| 0u8)
}

/// `dest` with its `n` bytes starting at `dstart` replaced by the `n`
/// bytes of `src` starting at `sstart`.
pub open spec fn blit_row(dest: Seq<u8>, dstart: int, src: Seq<u8>, sstart: int, n: int) -> Seq<u8> {
    Seq::new(dest.len(), |i: int| {
        if dstart <= i < dstart + n {
            src[sstart + (i - dstart)]
        } else {
            dest[i]
        }
    })
}

/// The first `rows` rows of a sub-rectangle blit applied to `dest`.
/// `row_pitch` is the byte width of one full destination row, `left`
/// the byte offset of the rectangle inside a row, `top` its first row,
/// `src_pitch` the byte pitch between consecutive source rows, and
/// `row_len` the number of bytes blitted per row.
pub open spec fn blit_rect(
    dest: Seq<u8>,
    row_pitch: int,
    left: int,
    top: int,
    src: Seq<u8>,
    src_pitch: int,
    row_len: int,
    rows: int,
) -> Seq<u8>
    decreases rows,
{
    if rows <= 0 {
        dest
    } else {
        blit_row(
            blit_rect(dest, row_pitch, left, top, src, src_pitch, row_len, rows - 1),
            (top + rows - 1) * row_pitch + left,
            src,
            (rows - 1) * src_pitch,
            row_len,
        )
    }
}

/// A blit never changes the length of the destination.
pub proof fn lemma_blit_rect_len(
    dest: Seq<u8>,
    row_pitch: int,
    left: int,
    top: int,
    src: Seq<u8>,
    src_pitch: int,
    row_len: int,
    rows: int,
)
    ensures
        blit_rect(dest, row_pitch, left, top, src, src_pitch, row_len, rows).len() == dest.len(),
    decreases rows,
{
    if rows > 0 {
        lemma_blit_rect_len(dest, row_pitch, left, top, src, src_pitch, row_len, rows - 1);
    }
}

/// A blit of zero-length rows leaves the destination as it was.
pub proof fn lemma_blit_rect_empty(
    dest: Seq<u8>,
    row_pitch: int,
    left: int,
    top: int,
    src: Seq<u8>,
    src_pitch: int,
    rows: int,
)
    ensures
        blit_rect(dest, row_pitch, left, top, src, src_pitch, 0, rows) == dest,
    decreases rows,
{
    if rows > 0 {
        lemma_blit_rect_empty(dest, row_pitch, left, top, src, src_pitch, rows - 1);
        assert(blit_rect(dest, row_pitch, left, top, src, src_pitch, 0, rows) =~= dest);
    }
}

/// A blit of the first `k` rows at the left edge, with the source
/// pitch equal to the destination row pitch and whole rows blitted,
/// lays down exactly the first `k * row_pitch` source bytes.
proof fn lemma_left_aligned_blit(dest: Seq<u8>, row_pitch: int, src: Seq<u8>, k: int)
    requires
        row_pitch >= 0,
        k >= 0,
        k * row_pitch <= dest.len(),
        k * row_pitch <= src.len(),
    ensures
        forall|i: int|
            0 <= i < dest.len() ==> blit_rect(dest, row_pitch, 0, 0, src, row_pitch, row_pitch,
                k)[i] == (if i < k * row_pitch {
                src[i]
            } else {
                dest[i]
            }),
    decreases k,
{
    lemma_blit_rect_len(dest, row_pitch, 0, 0, src, row_pitch, row_pitch, k);
    if k == 0 {
        assert(k * row_pitch == 0) by (nonlinear_arith)
            requires
                k == 0;
    }
    if k > 0 {
        assert((k - 1) * row_pitch + row_pitch == k * row_pitch && 0 <= (k - 1) * row_pitch)
            by (nonlinear_arith)
            requires
                k >= 1,
                row_pitch >= 0;
        lemma_left_aligned_blit(dest, row_pitch, src, k - 1);
        lemma_blit_rect_len(dest, row_pitch, 0, 0, src, row_pitch, row_pitch, k - 1);
        let prev = blit_rect(dest, row_pitch, 0, 0, src, row_pitch, row_pitch, k - 1);
        let cur = blit_rect(dest, row_pitch, 0, 0, src, row_pitch, row_pitch, k);
        assert(cur == blit_row(prev, (k - 1) * row_pitch, src, (k - 1) * row_pitch, row_pitch));
        assert forall|i: int| 0 <= i < dest.len() implies cur[i] == (if i < k * row_pitch {
            src[i]
        } else {
            dest[i]
        }) by {
            if (k - 1) * row_pitch <= i < (k - 1) * row_pitch + row_pitch {
                assert(cur[i] == src[(k - 1) * row_pitch + (i - (k - 1) * row_pitch)]);
                assert(cur[i] == src[i]);
            } else {
                assert(cur[i] == prev[i]);
            }
        }
    }
}

/// Round-trip law: a full-rectangle, tightly packed blit over a
/// texture's storage replaces its contents with exactly the uploaded
/// bytes, so resolving the texture afterwards yields the bytes that
/// were sent.
pub proof fn lemma_full_update_round_trip(dest: Seq<u8>, w: int, h: int, bpp: int, src: Seq<u8>)
    requires
        w >= 0,
        h >= 0,
        bpp >= 0,
        dest.len() == w * h * bpp,
        src.len() == w * h * bpp,
    ensures
        blit_rect(dest, w * bpp, 0, 0, src, w * bpp, w * bpp, h) == src,
{
    assert(h * (w * bpp) == w * h * bpp) by (nonlinear_arith);
    lemma_left_aligned_blit(dest, w * bpp, src, h);
    lemma_blit_rect_len(dest, w * bpp, 0, 0, src, w * bpp, w * bpp, h);
    assert(blit_rect(dest, w * bpp, 0, 0, src, w * bpp, w * bpp, h) =~= src);
}

/// A vector of `n` zero bytes.
fn zero_vec(n: usize) -> (r: Vec<u8>)
    ensures
        r@ == zeros(n as int),
{
    let mut r: Vec<u8> = Vec::new();
    let mut i: usize = 0;
    while i < n
        invariant
            i <= n,
            r@.len() == i,
            forall|k: int| 0 <= k < i ==> r@[k] == 0u8,
        decreases n - i,
    {
        r.push(0u8);
        i += 1;
    }
    proof {
        assert(r@ =~= zeros(n as int));
    }
    r
}

/// An owned copy of the bytes of `src`.
fn copy_vec(src: &Vec<u8>) -> (r: Vec<u8>)
    ensures
        r@ == src@,
{
    let mut r: Vec<u8> = Vec::new();
    let mut i: usize = 0;
    while i < src.len()
        invariant
            i <= src@.len(),
            r@.len() == i,
            forall|k: int| 0 <= k < i ==> r@[k] == src@[k],
        decreases src@.len() - i,
    {
        let b = src[i];
        r.push(b);
        i += 1;
    }
    proof {
        assert(r@ =~= src@);
    }
    r
}

/// Copies `n` bytes of `src` starting at `sstart` over the bytes of
/// `dest` starting at `dstart`.
fn copy_bytes(dest: &mut Vec<u8>, dstart: usize, src: &Vec<u8>, sstart: usize, n: usize)
    requires
        dstart + n <= old(dest)@.len(),
        sstart + n <= src@.len(),
    ensures
        final(dest)@ == blit_row(old(dest)@, dstart as int, src@, sstart as int, n as int),
{
    let ghost p0 = dest@;
    let dlen = dest.len();
    let slen = src.len();
    let mut c: usize = 0;
    while c < n
        invariant
            c <= n,
            dstart + n <= p0.len(),
            sstart + n <= src@.len(),
            dlen == p0.len(),
            slen == src@.len(),
            dest@.len() == p0.len(),
            dest@ == blit_row(p0, dstart as int, src@, sstart as int, c as int),
        decreases n - c,
    {
        let b = src[sstart + c];
        dest.set(dstart + c, b);
        proof {
            assert(dest@ =~= blit_row(p0, dstart as int, src@, sstart as int, c as int + 1));
        }
        c += 1;
    }
    proof {
        assert(dest@ =~= blit_row(p0, dstart as int, src@, sstart as int, n as int));
    }
}

/// Performs the sub-rectangle blit of an `Update` op on the raw byte
/// storage of one texture.
fn blit(
    pixels: &mut Vec<u8>,
    dest_w: u32,
    dest_h: u32,
    bpp: u32,
    x: u32,
    y: u32,
    w: u32,
    h: u32,
    src: &Vec<u8>,
    src_pitch: usize,
)
    requires
        old(pixels)@.len() == dest_w * dest_h * bpp,
        x + w <= dest_w,
        y + h <= dest_h,
        src_pitch >= w * bpp,
        h > 0 ==> (h - 1) * src_pitch + w * bpp <= src@.len(),
    ensures
        final(pixels)@ == blit_rect(
            old(pixels)@,
            dest_w * bpp,
            x * bpp,
            y as int,
            src@,
            src_pitch as int,
            w * bpp,
            h as int,
        ),
{
    let ghost p0 = pixels@;
    if w == 0 || bpp == 0 {
        proof {
            lemma_blit_rect_empty(p0, dest_w * bpp, x * bpp, y as int, src@, src_pitch as int,
                h as int);
            assert(w * bpp == 0);
        }
        return;
    }
    if h == 0 {
        return;
    }
    let plen = pixels.len();
    proof {
        assert(w * bpp <= dest_w * dest_h * bpp) by (nonlinear_arith)
            requires
                w <= dest_w,
                1 <= dest_h,
                bpp >= 0,
                dest_w >= 0;
    }
    let wb: usize = (w as usize) * (bpp as usize);
    let slen = src.len();
    let mut r: usize = 0;
    while r < h as usize
        invariant
            r <= h,
            pixels@.len() == p0.len(),
            p0.len() == dest_w * dest_h * bpp,
            slen == src@.len(),
            pixels@ == blit_rect(p0, dest_w * bpp, x * bpp, y as int, src@, src_pitch as int,
                w * bpp, r as int),
            wb == w * bpp,
            plen == p0.len(),
            1 <= w && 1 <= bpp && 1 <= h,
            x + w <= dest_w,
            y + h <= dest_h,
            src_pitch >= w * bpp,
            (h - 1) * src_pitch + w * bpp <= src@.len(),
        decreases h - r,
    {
        proof {
            assert(((y + r) * dest_w + x) * bpp + w * bpp <= dest_w * dest_h * bpp
                && ((y + r) * dest_w + x) * bpp == (y as int + r) * (dest_w * bpp) + x * bpp
                && (y as int + r) * dest_w + x <= dest_w * dest_h * bpp
                && r * src_pitch + w * bpp <= src@.len()
                && (y as int + r) * dest_w >= 0
                && r * src_pitch >= 0)
                by (nonlinear_arith)
                requires
                    0 <= r < h,
                    1 <= w,
                    1 <= bpp,
                    0 <= x,
                    0 <= y,
                    x + w <= dest_w,
                    y + h <= dest_h,
                    src_pitch >= w * bpp,
                    (h - 1) * src_pitch + w * bpp <= src@.len();
        }
        let row_cells: usize = (y as usize + r) * (dest_w as usize) + (x as usize);
        let dstart: usize = row_cells * (bpp as usize);
        let sstart: usize = r * src_pitch;
        copy_bytes(pixels, dstart, src, sstart, wb);
        proof {
            assert(pixels@ == blit_rect(p0, dest_w * bpp, x * bpp, y as int, src@,
                src_pitch as int, w * bpp, r as int + 1));
        }
        r += 1;
    }
}


/// The consumer-side texture store: the live texture standing behind
/// each cache id once the update log so far has been replayed in
/// order.
pub struct TextureCache {
    pub entries: Vec<(CacheTextureId, CachedTexture)>,
}

/// Every id other than `id` names the same live texture in `post` as
/// in `pre`.
pub open spec fn preserved_except(pre: TextureCache, post: TextureCache, id: CacheTextureId) -> bool {
    &&& forall|id2: CacheTextureId|
        id2 != id ==> (#[trigger] post.spec_live(id2) <==> pre.spec_live(id2))
    &&& forall|id2: CacheTextureId|
        id2 != id && pre.spec_live(id2) ==> #[trigger] post.spec_tex(id2) == pre.spec_tex(id2)
}

/// The least number of source bytes an `Update` of `h` rows needs,
/// given the pitch between rows and the bytes blitted per row.
pub open spec fn required_src_len(h: int, pitch: int, row_len: int) -> int {
    if h <= 0 {
        0
    } else {
        (h - 1) * pitch + row_len
    }
}

impl TextureCache {
    /// Ids are unambiguous and every texture's storage matches its
    /// dimensions.
    pub open spec fn wf(self) -> bool {
        &&& forall|k1: int, k2: int|
            0 <= k1 < k2 < self.entries@.len() ==> (#[trigger] self.entries@[k1]).0 != (
            #[trigger] self.entries@[k2]).0
        &&& forall|k: int|
            0 <= k < self.entries@.len() ==> (#[trigger] self.entries@[k]).1.well_formed()
    }

    /// Whether `id` names a live texture.
    pub open spec fn spec_live(self, id: CacheTextureId) -> bool {
        exists|k: int| 0 <= k < self.entries@.len() && (#[trigger] self.entries@[k]).0 == id
    }

    /// The position of the entry for `id`, when one is live.
    pub open spec fn idx_of(self, id: CacheTextureId) -> int {
        choose|k: int| 0 <= k < self.entries@.len() && (#[trigger] self.entries@[k]).0 == id
    }

    /// The live texture named by `id`.
    pub open spec fn spec_tex(self, id: CacheTextureId) -> CachedTexture {
        self.entries@[self.idx_of(id)].1
    }

    /// In a well-formed cache, the entry at a position holding `id` is
    /// the one entry `spec_tex` denotes.
    proof fn lemma_idx(self, id: CacheTextureId, k: int)
        requires
            self.wf(),
            0 <= k < self.entries@.len(),
            self.entries@[k].0 == id,
        ensures
            self.spec_live(id),
            self.idx_of(id) == k,
            self.spec_tex(id) == self.entries@[k].1,
    {
        assert(self.spec_live(id));
        let k2 = self.idx_of(id);
        assert(0 <= k2 < self.entries@.len() && self.entries@[k2].0 == id);
        if k2 < k {
            assert(self.entries@[k2].0 != self.entries@[k].0);
        }
        if k < k2 {
            assert(self.entries@[k].0 != self.entries@[k2].0);
        }
    }

    /// A fresh cache with no live textures.
    pub fn new() -> (r: TextureCache)
        ensures
            r.wf(),
            r.entries@.len() == 0,
            forall|id: CacheTextureId| !(#[trigger] r.spec_live(id)),
    {
        TextureCache { entries: Vec::new() }
    }

    /// The position of the entry for `id`, if any.
    fn find_index(&self, id: CacheTextureId) -> (r: Option<usize>)
        ensures
            match r {
                Some(k) => k < self.entries@.len() && self.entries@[k as int].0 == id,
                None => !self.spec_live(id),
            },
    {
        let mut i: usize = 0;
        while i < self.entries.len()
            invariant
                i <= self.entries@.len(),
                forall|m: int| 0 <= m < i ==> (#[trigger] self.entries@[m]).0 != id,
            decreases self.entries@.len() - i,
        {
            if self.entries[i].0 == id {
                return Some(i);
            }
            i += 1;
        }
        proof {
            if self.spec_live(id) {
                let k = choose|k: int|
                    0 <= k < self.entries@.len() && (#[trigger] self.entries@[k]).0 == id;
                assert(self.entries@[k].0 != id);
            }
        }
        None
    }

    /// Whether `id` names a live texture.
    pub fn live(&self, id: CacheTextureId) -> (r: bool)
        ensures
            r == self.spec_live(id),
    {
        match self.find_index(id) {
            Some(k) => {
                proof {
                    assert(self.spec_live(id));
                }
                true
            },
            None => false,
        }
    }
}

/// Appending an entry for an id that was not live keeps the cache
/// well formed and leaves every other id untouched.
proof fn lemma_append(pre: TextureCache, post: TextureCache, id: CacheTextureId, tex: CachedTexture)
    requires
        pre.wf(),
        !pre.spec_live(id),
        tex.well_formed(),
        post.entries@ == pre.entries@.push((id, tex)),
    ensures
        post.wf(),
        post.spec_live(id),
        post.spec_tex(id) == tex,
        preserved_except(pre, post, id),
{
    let n = pre.entries@.len() as int;
    assert(post.entries@[n] == (id, tex));
    assert forall|k1: int, k2: int| 0 <= k1 < k2 < post.entries@.len() implies (
    #[trigger] post.entries@[k1]).0 != (#[trigger] post.entries@[k2]).0 by {
        if k2 < n {
            assert(pre.entries@[k1].0 != pre.entries@[k2].0);
        } else {
            assert(post.entries@[k2].0 == id);
            if post.entries@[k1].0 == id {
                assert(pre.entries@[k1].0 == id);
                assert(pre.spec_live(id));
            }
        }
    }
    assert forall|k: int| 0 <= k < post.entries@.len() implies (
    #[trigger] post.entries@[k]).1.well_formed() by {
        if k < n {
            assert(pre.entries@[k].1.well_formed());
        }
    }
    assert(post.wf());
    post.lemma_idx(id, n);
    assert forall|id2: CacheTextureId| id2 != id implies (#[trigger] post.spec_live(id2)
        <==> pre.spec_live(id2)) by {
        if post.spec_live(id2) {
            let k = choose|k: int|
                0 <= k < post.entries@.len() && (#[trigger] post.entries@[k]).0 == id2;
            if k < n {
                assert(pre.entries@[k].0 == id2);
                assert(pre.spec_live(id2));
            }
        }
        if pre.spec_live(id2) {
            let k = choose|k: int|
                0 <= k < pre.entries@.len() && (#[trigger] pre.entries@[k]).0 == id2;
            assert(post.entries@[k].0 == id2);
            assert(post.spec_live(id2));
        }
    }
    assert forall|id2: CacheTextureId| id2 != id && pre.spec_live(id2) implies #[trigger] post.spec_tex(
        id2,
    ) == pre.spec_tex(id2) by {
        let k = choose|k: int| 0 <= k < pre.entries@.len() && (#[trigger] pre.entries@[k]).0 == id2;
        pre.lemma_idx(id2, k);
        assert(post.entries@[k].0 == id2);
        post.lemma_idx(id2, k);
    }
}

/// Replacing the texture behind the id at position `k` (moving its
/// entry to the end) keeps the cache well formed and leaves every
/// other id untouched.
proof fn lemma_replace(pre: TextureCache, post: TextureCache, k: int, tex: CachedTexture)
    requires
        pre.wf(),
        0 <= k < pre.entries@.len(),
        tex.well_formed(),
        post.entries@ == pre.entries@.update(k, pre.entries@.last()).drop_last().push(
            (pre.entries@[k].0, tex),
        ),
    ensures
        post.wf(),
        post.spec_live(pre.entries@[k].0),
        post.spec_tex(pre.entries@[k].0) == tex,
        preserved_except(pre, post, pre.entries@[k].0),
{
    let n = pre.entries@.len() as int;
    let id = pre.entries@[k].0;
    let a = pre.entries@.update(k, pre.entries@.last()).drop_last();
    assert(a.len() == n - 1);
    assert(post.entries@.len() == n);
    assert(post.entries@[n - 1] == (id, tex));
    // each position of `a` carries one entry of `pre`, none of them the
    // entry at `k`
    assert forall|j: int| 0 <= j < n - 1 implies (#[trigger] a[j]) == (if j == k {
        pre.entries@[n - 1]
    } else {
        pre.entries@[j]
    }) && (a[j].0 != id) by {
        if j == k {
            assert(a[j] == pre.entries@[n - 1]);
            if k < n - 1 {
                assert(pre.entries@[k].0 != pre.entries@[n - 1].0);
            }
        } else {
            assert(a[j] == pre.entries@[j]);
            if j < k {
                assert(pre.entries@[j].0 != pre.entries@[k].0);
            } else {
                assert(pre.entries@[k].0 != pre.entries@[j].0);
            }
        }
    }
    assert forall|k1: int, k2: int| 0 <= k1 < k2 < post.entries@.len() implies (
    #[trigger] post.entries@[k1]).0 != (#[trigger] post.entries@[k2]).0 by {
        if k2 < n - 1 {
            let m1: int = if k1 == k { n - 1 } else { k1 };
            let m2: int = if k2 == k { n - 1 } else { k2 };
            assert(post.entries@[k1] == pre.entries@[m1]);
            assert(post.entries@[k2] == pre.entries@[m2]);
            if m1 < m2 {
                assert(pre.entries@[m1].0 != pre.entries@[m2].0);
            } else {
                assert(pre.entries@[m2].0 != pre.entries@[m1].0);
            }
        } else {
            assert(post.entries@[k2].0 == id);
            assert(post.entries@[k1].0 != id);
        }
    }
    assert forall|j: int| 0 <= j < post.entries@.len() implies (
    #[trigger] post.entries@[j]).1.well_formed() by {
        if j < n - 1 {
            let m: int = if j == k { n - 1 } else { j };
            assert(post.entries@[j] == pre.entries@[m]);
            assert(pre.entries@[m].1.well_formed());
        }
    }
    assert(post.wf());
    post.lemma_idx(id, n - 1);
    assert forall|id2: CacheTextureId| id2 != id implies (#[trigger] post.spec_live(id2)
        <==> pre.spec_live(id2)) by {
        if post.spec_live(id2) {
            let j = choose|j: int|
                0 <= j < post.entries@.len() && (#[trigger] post.entries@[j]).0 == id2;
            if j < n - 1 {
                let m: int = if j == k { n - 1 } else { j };
                assert(pre.entries@[m].0 == id2);
                assert(pre.spec_live(id2));
            }
        }
        if pre.spec_live(id2) {
            let m = choose|m: int|
                0 <= m < pre.entries@.len() && (#[trigger] pre.entries@[m]).0 == id2;
            if m == k {
                assert(pre.entries@[k].0 == id2);
            } else if m < n - 1 {
                assert(post.entries@[m] == pre.entries@[m]);
                assert(post.spec_live(id2));
            } else {
                // m == n - 1 and m != k, so position k of `a` carries it
                assert(post.entries@[k] == pre.entries@[n - 1]);
                assert(post.spec_live(id2));
            }
        }
    }
    assert forall|id2: CacheTextureId| id2 != id && pre.spec_live(id2) implies #[trigger] post.spec_tex(
        id2,
    ) == pre.spec_tex(id2) by {
        let m = choose|m: int| 0 <= m < pre.entries@.len() && (#[trigger] pre.entries@[m]).0 == id2;
        pre.lemma_idx(id2, m);
        if m == k {
            assert(pre.entries@[k].0 == id2);
        } else if m < n - 1 {
            assert(post.entries@[m] == pre.entries@[m]);
            post.lemma_idx(id2, m);
        } else {
            assert(post.entries@[k] == pre.entries@[n - 1]);
            post.lemma_idx(id2, k);
        }
    }
}


impl TextureCache {
    /// The outcome replaying `u` on this cache state must have:
    /// `Update`/`Grow` demand a live id and `Create` a fresh one, the
    /// rectangle of an `Update` must lie inside the texture, its
    /// source pitch must cover one blitted row and its data all `h`
    /// rows, initial `Create` data must fill the allocation exactly,
    /// and an allocation must fit in addressable memory.
    pub open spec fn apply_result(self, u: TextureUpdate) -> Result<(), TextureCacheError> {
        match u.op {
            TextureUpdateOp::Create(w, h, format, _filter, _mode, data) => {
                if self.spec_live(u.id) {
                    Err(TextureCacheError::IdAlreadyLive)
                } else if w * h * format.spec_bytes_per_pixel() > usize::MAX as int {
                    Err(TextureCacheError::SizeOverflow)
                } else if data matches Some(d) && d@.len() != w * h
                    * format.spec_bytes_per_pixel() {
                    Err(TextureCacheError::BadDataLength)
                } else {
                    Ok(())
                }
            },
            TextureUpdateOp::Update(x, y, w, h, data, stride) => {
                if !self.spec_live(u.id) {
                    Err(TextureCacheError::UnknownId)
                } else {
                    let t = self.spec_tex(u.id);
                    let bpp = t.format.spec_bytes_per_pixel();
                    let pitch: int = match stride {
                        Some(s) => s as int,
                        None => w * bpp,
                    };
                    if x + w > t.width || y + h > t.height {
                        Err(TextureCacheError::RectOutOfBounds)
                    } else if pitch < w * bpp {
                        Err(TextureCacheError::BadStride)
                    } else if data@.len() < required_src_len(h as int, pitch, w * bpp) {
                        Err(TextureCacheError::BadDataLength)
                    } else {
                        Ok(())
                    }
                }
            },
            TextureUpdateOp::Grow(w, h, format, _filter, _mode) => {
                if !self.spec_live(u.id) {
                    Err(TextureCacheError::UnknownId)
                } else if w * h * format.spec_bytes_per_pixel() > usize::MAX as int {
                    Err(TextureCacheError::SizeOverflow)
                } else {
                    Ok(())
                }
            },
        }
    }
}

/// What a successfully replayed op leaves behind: `Create` a texture
/// with the given shape and its initial bytes (zeroes when none were
/// supplied), `Update` the same texture with the sub-rectangle
/// blitted over it, `Grow` a reallocation of the same id with fresh
/// zeroed storage. Every other id is untouched.
pub open spec fn apply_post(pre: TextureCache, post: TextureCache, u: TextureUpdate) -> bool {
    match u.op {
        TextureUpdateOp::Create(w, h, format, filter, mode, data) => {
            &&& post.spec_live(u.id)
            &&& post.spec_tex(u.id).width == w
            &&& post.spec_tex(u.id).height == h
            &&& post.spec_tex(u.id).format == format
            &&& post.spec_tex(u.id).filter == filter
            &&& post.spec_tex(u.id).mode == mode
            &&& post.spec_tex(u.id).pixels@ == (match data {
                Some(d) => d@,
                None => zeros(w * h * format.spec_bytes_per_pixel()),
            })
            &&& preserved_except(pre, post, u.id)
        },
        TextureUpdateOp::Update(x, y, w, h, data, stride) => {
            let t = pre.spec_tex(u.id);
            let bpp = t.format.spec_bytes_per_pixel();
            let pitch: int = match stride {
                Some(s) => s as int,
                None => w * bpp,
            };
            &&& post.spec_live(u.id)
            &&& post.spec_tex(u.id).width == t.width
            &&& post.spec_tex(u.id).height == t.height
            &&& post.spec_tex(u.id).format == t.format
            &&& post.spec_tex(u.id).filter == t.filter
            &&& post.spec_tex(u.id).mode == t.mode
            &&& post.spec_tex(u.id).pixels@ == blit_rect(t.pixels@, t.width * bpp, x * bpp,
                y as int, data@, pitch, w * bpp, h as int)
            &&& preserved_except(pre, post, u.id)
        },
        TextureUpdateOp::Grow(w, h, format, filter, mode) => {
            &&& post.spec_live(u.id)
            &&& post.spec_tex(u.id).width == w
            &&& post.spec_tex(u.id).height == h
            &&& post.spec_tex(u.id).format == format
            &&& post.spec_tex(u.id).filter == filter
            &&& post.spec_tex(u.id).mode == mode
            &&& post.spec_tex(u.id).pixels@ == zeros(w * h * format.spec_bytes_per_pixel())
            &&& preserved_except(pre, post, u.id)
        },
    }
}

impl TextureCache {
    /// The number of bytes a `w` by `h` allocation of `format` needs,
    /// or `SizeOverflow` when it cannot be addressed.
    fn alloc_bytes(w: u32, h: u32, format: ImageFormat) -> (r: Result<usize, TextureCacheError>)
        ensures
            match r {
                Ok(b) => b == w * h * format.spec_bytes_per_pixel(),
                Err(e) => e == TextureCacheError::SizeOverflow && w * h
                    * format.spec_bytes_per_pixel() > usize::MAX as int,
            },
    {
        let bpp = format.bytes_per_pixel();
        if bpp == 0 {
            return Ok(0);
        }
        let p = match (w as usize).checked_mul(h as usize) {
            None => {
                proof {
                    assert(w * h * bpp > usize::MAX as int) by (nonlinear_arith)
                        requires
                            w * h > usize::MAX as int,
                            bpp >= 1;
                }
                return Err(TextureCacheError::SizeOverflow);
            },
            Some(p) => p,
        };
        match p.checked_mul(bpp as usize) {
            None => Err(TextureCacheError::SizeOverflow),
            Some(b) => Ok(b),
        }
    }

    /// Replays one operation of the update log against this cache,
    /// mutating the named texture exactly as `apply_post` states, or
    /// reports why the operation cannot be satisfied and leaves every
    /// texture as it was.
    pub fn apply(&mut self, update: &TextureUpdate) -> (r: Result<(), TextureCacheError>)
        requires
            old(self).wf(),
        ensures
            final(self).wf(),
            r == old(self).apply_result(*update),
            r is Ok ==> apply_post(*old(self), *final(self), *update),
            r is Err ==> *final(self) == *old(self),
    {
        let id = update.id;
        match &update.op {
            TextureUpdateOp::Create(w, h, format, filter, mode, data) => {
                match self.find_index(id) {
                    Some(k) => {
                        proof {
                            self.lemma_idx(id, k as int);
                        }
                        return Err(TextureCacheError::IdAlreadyLive);
                    },
                    None => {},
                }
                let bytes = match Self::alloc_bytes(*w, *h, *format) {
                    Err(e) => {
                        return Err(e);
                    },
                    Ok(b) => b,
                };
                let px: Vec<u8> = match data {
                    Some(d) => {
                        let dv: &Vec<u8> = &**d;
                        if dv.len() != bytes {
                            return Err(TextureCacheError::BadDataLength);
                        }
                        copy_vec(dv)
                    },
                    None => zero_vec(bytes),
                };
                let tex = CachedTexture {
                    width: *w,
                    height: *h,
                    format: *format,
                    filter: *filter,
                    mode: *mode,
                    pixels: px,
                };
                let ghost pre = *self;
                let ghost gtex = tex;
                self.entries.push((id, tex));
                proof {
                    lemma_append(pre, *self, id, gtex);
                }
                Ok(())
            },
            TextureUpdateOp::Update(x, y, w, h, data, stride) => {
                let k = match self.find_index(id) {
                    None => {
                        return Err(TextureCacheError::UnknownId);
                    },
                    Some(k) => k,
                };
                proof {
                    self.lemma_idx(id, k as int);
                }
                let tw = self.entries[k].1.width;
                let th = self.entries[k].1.height;
                let bpp = self.entries[k].1.format.bytes_per_pixel();
                if *x > tw || *w > tw - *x || *y > th || *h > th - *y {
                    return Err(TextureCacheError::RectOutOfBounds);
                }
                proof {
                    assert((*w as int) * (bpp as int) <= u64::MAX as int) by (nonlinear_arith)
                        requires
                            0 <= *w <= u32::MAX,
                            0 <= bpp <= u32::MAX;
                }
                let wb64: u64 = (*w as u64) * (bpp as u64);
                let pitch64: u64 = match stride {
                    Some(s) => *s as u64,
                    None => wb64,
                };
                if pitch64 < wb64 {
                    return Err(TextureCacheError::BadStride);
                }
                let dv: &Vec<u8> = &**data;
                proof {
                    assert((*h as int - 1) * (pitch64 as int) + (wb64 as int) < u128::MAX as int)
                        by (nonlinear_arith)
                        requires
                            0 <= *h as int <= u32::MAX as int,
                            0 <= pitch64 as int <= u64::MAX as int,
                            0 <= wb64 as int <= u64::MAX as int;
                }
                let needed: u128 = if *h == 0 {
                    0
                } else {
                    (*h as u128 - 1) * (pitch64 as u128) + (wb64 as u128)
                };
                if (dv.len() as u128) < needed {
                    return Err(TextureCacheError::BadDataLength);
                }
                if *h == 0 {
                    proof {
                        let t = self.spec_tex(id);
                        assert(blit_rect(t.pixels@, t.width
                            * t.format.spec_bytes_per_pixel(), *x
                            * t.format.spec_bytes_per_pixel(), *y as int, dv@, pitch64 as int, *w
                            * t.format.spec_bytes_per_pixel(), 0) == t.pixels@);
                    }
                    return Ok(());
                }
                let pl = self.entries[k].1.pixels.len();
                proof {
                    assert(wb64 <= tw as int * th as int * bpp) by (nonlinear_arith)
                        requires
                            wb64 == (*w as int) * (bpp as int),
                            *w <= tw,
                            1 <= th,
                            bpp >= 0,
                            tw >= 0;
                    assert(self.entries@[k as int].1.well_formed());
                    assert(pl == tw as int * th as int * bpp);
                }
                let pitch_us: usize = match stride {
                    Some(s) => *s as usize,
                    None => (*w as usize) * (bpp as usize),
                };
                let ghost pre = *self;
                let mut entry = self.entries.swap_remove(k);
                blit(&mut entry.1.pixels, tw, th, bpp, *x, *y, *w, *h, dv, pitch_us);
                let ghost gtex = entry.1;
                self.entries.push(entry);
                proof {
                    lemma_blit_rect_len(pre.entries@[k as int].1.pixels@, tw * bpp, *x * bpp,
                        *y as int, dv@, pitch_us as int, *w * bpp, *h as int);
                    assert(gtex.well_formed());
                    lemma_replace(pre, *self, k as int, gtex);
                }
                Ok(())
            },
            TextureUpdateOp::Grow(w, h, format, filter, mode) => {
                let k = match self.find_index(id) {
                    None => {
                        return Err(TextureCacheError::UnknownId);
                    },
                    Some(k) => k,
                };
                proof {
                    self.lemma_idx(id, k as int);
                }
                let bytes = match Self::alloc_bytes(*w, *h, *format) {
                    Err(e) => {
                        return Err(e);
                    },
                    Ok(b) => b,
                };
                let ghost pre = *self;
                let mut entry = self.entries.swap_remove(k);
                entry.1 = CachedTexture {
                    width: *w,
                    height: *h,
                    format: *format,
                    filter: *filter,
                    mode: *mode,
                    pixels: zero_vec(bytes),
                };
                let ghost gtex = entry.1;
                self.entries.push(entry);
                proof {
                    lemma_replace(pre, *self, k as int, gtex);
                }
                Ok(())
            },
        }
    }

    /// Resolves the logical texture a draw call wants to the live
    /// cache texture backing it. `Invalid` never resolves; a
    /// `TextureCache` id that is no longer live yields nothing, so the
    /// caller can skip the draw rather than fault; surfaces provided
    /// from outside the cache are resolved elsewhere.
    pub fn resolve(&self, src: &SourceTexture) -> (r: Option<&CachedTexture>)
        requires
            self.wf(),
        ensures
            match *src {
                SourceTexture::TextureCache(id) => {
                    &&& self.spec_live(id) ==> (r matches Some(t) && *t == self.spec_tex(id))
                    &&& !self.spec_live(id) ==> r is None
                },
                _ => r is None,
            },
    {
        match src {
            SourceTexture::TextureCache(id) => {
                match self.find_index(*id) {
                    Some(k) => {
                        proof {
                            self.lemma_idx(*id, k as int);
                        }
                        Some(&self.entries[k].1)
                    },
                    None => None,
                }
            },
            _ => None,
        }
    }
}


/// Round-trip law over the replay contracts: when a fresh `Create`
/// of a `w` by `h` texture without initial data is followed by a
/// full-rectangle, tightly packed `Update` carrying exactly the
/// allocation's bytes, the texture named by `id` ends up holding
/// exactly the uploaded bytes, ready to be resolved for a draw.
pub proof fn lemma_create_update_round_trip(
    pre: TextureCache,
    mid: TextureCache,
    post: TextureCache,
    id: CacheTextureId,
    w: u32,
    h: u32,
    format: ImageFormat,
    filter: TextureFilter,
    mode: RenderTargetMode,
    data: Arc<Vec<u8>>,
)
    requires
        apply_post(pre, mid, (TextureUpdate {
            id,
            op: TextureUpdateOp::Create(w, h, format, filter, mode, None),
        })),
        apply_post(mid, post, (TextureUpdate {
            id,
            op: TextureUpdateOp::Update(0, 0, w, h, data, None),
        })),
        data@.len() == w * h * format.spec_bytes_per_pixel(),
    ensures
        post.spec_tex(id).pixels@ == data@,
{
    let bpp = format.spec_bytes_per_pixel() as int;
    let t = mid.spec_tex(id);
    assert(t.pixels@ == zeros(w * h * bpp));
    assert(zeros(w * h * bpp).len() == w * h * bpp);
    assert(0 * bpp == 0) by (nonlinear_arith);
    lemma_full_update_round_trip(t.pixels@, w as int, h as int, bpp, data@);
}


/// Liveness survives every successfully replayed operation: once an
/// id is live, `Create`, `Update` and `Grow` steps, on it or on any
/// other id, leave it live.
proof fn lemma_live_preserved(
    states: Seq<TextureCache>,
    ops: Seq<TextureUpdate>,
    id: CacheTextureId,
    from: int,
    to: int,
)
    requires
        0 <= from <= to <= ops.len(),
        states.len() == ops.len() + 1,
        forall|j: int| from <= j < to ==> apply_post(states[j], states[j + 1], #[trigger] ops[j]),
        states[from].spec_live(id),
    ensures
        states[to].spec_live(id),
    decreases to - from,
{
    if from < to {
        assert(apply_post(states[from], states[from + 1], ops[from]));
        if ops[from].id == id {
            match ops[from].op {
                TextureUpdateOp::Create(..) => {
                    assert(states[from + 1].spec_live(id));
                },
                TextureUpdateOp::Update(..) => {
                    assert(states[from + 1].spec_live(id));
                },
                TextureUpdateOp::Grow(..) => {
                    assert(states[from + 1].spec_live(id));
                },
            }
        } else {
            match ops[from].op {
                TextureUpdateOp::Create(..) => {
                    assert(preserved_except(states[from], states[from + 1], ops[from].id));
                },
                TextureUpdateOp::Update(..) => {
                    assert(preserved_except(states[from], states[from + 1], ops[from].id));
                },
                TextureUpdateOp::Grow(..) => {
                    assert(preserved_except(states[from], states[from + 1], ops[from].id));
                },
            }
            assert(states[from + 1].spec_live(id));
        }
        lemma_live_preserved(states, ops, id, from + 1, to);
    }
}

/// Ordering law for the update log: replay an ordered list against a
/// cache where its ids are fresh, one successful step per operation,
/// and every `Update`/`Grow` finds its id live when its turn comes.
/// Only a list that `TextureUpdateList::validate` would reject can
/// make the replay fault on an unknown id.
pub proof fn lemma_ordered_replay_finds_ids(
    states: Seq<TextureCache>,
    ops: Seq<TextureUpdate>,
    i: int,
)
    requires
        crate::updates::references_in_order(ops),
        states.len() == ops.len() + 1,
        forall|j: int| 0 <= j < ops.len() ==> !states[0].spec_live(#[trigger] ops[j].id),
        forall|j: int| 0 <= j < i ==> apply_post(states[j], states[j + 1], #[trigger] ops[j]),
        0 <= i < ops.len(),
        !crate::updates::is_create(ops[i].op),
    ensures
        states[i].spec_live(ops[i].id),
{
    assert(crate::updates::created_earlier(ops, i));
    let j = choose|j: int|
        0 <= j < i && crate::updates::is_create(#[trigger] ops[j].op) && ops[j].id == ops[i].id;
    assert(apply_post(states[j], states[j + 1], ops[j]));
    match ops[j].op {
        TextureUpdateOp::Create(..) => {
            assert(states[j + 1].spec_live(ops[j].id));
        },
        TextureUpdateOp::Update(..) => {},
        TextureUpdateOp::Grow(..) => {},
    }
    lemma_live_preserved(states, ops, ops[i].id, j + 1, i);
}

} // verus!
