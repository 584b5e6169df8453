use std::sync::Arc;
use webrender_internal::cache::{TextureCache, TextureCacheError};
use webrender_internal::ids::{CacheTextureId, ExternalImageId, SourceTexture};
use webrender_internal::updates::{
    ImageFormat, RenderTargetMode, TextureFilter, TextureUpdate, TextureUpdateList,
    TextureUpdateOp,
};

fn create(id: usize, w: u32, h: u32, fmt: ImageFormat, data: Option<Vec<u8>>) -> TextureUpdate {
    TextureUpdate {
        id: CacheTextureId(id),
        op: TextureUpdateOp::Create(
            w,
            h,
            fmt,
            TextureFilter::Linear,
            RenderTargetMode::NoTarget,
            data.map(Arc::new),
        ),
    }
}

fn update(id: usize, x: u32, y: u32, w: u32, h: u32, data: Vec<u8>, stride: Option<u32>) -> TextureUpdate {
    TextureUpdate {
        id: CacheTextureId(id),
        op: TextureUpdateOp::Update(x, y, w, h, Arc::new(data), stride),
    }
}

fn grow(id: usize, w: u32, h: u32, fmt: ImageFormat) -> TextureUpdate {
    TextureUpdate {
        id: CacheTextureId(id),
        op: TextureUpdateOp::Grow(w, h, fmt, TextureFilter::Nearest, RenderTargetMode::NoTarget),
    }
}

#[test]
fn update_list_keeps_producer_order() {
    let mut list = TextureUpdateList::new();
    assert_eq!(list.updates.len(), 0);
    list.push(create(1, 2, 2, ImageFormat::RGBA8, None));
    list.push(update(1, 0, 0, 2, 2, vec![1u8; 16], None));
    list.push(grow(1, 4, 4, ImageFormat::RGBA8));
    assert_eq!(list.updates.len(), 3);
    assert!(matches!(list.updates[0].op, TextureUpdateOp::Create(..)));
    assert!(matches!(list.updates[1].op, TextureUpdateOp::Update(..)));
    assert!(matches!(list.updates[2].op, TextureUpdateOp::Grow(..)));
}

#[test]
fn validate_accepts_references_in_order() {
    let mut list = TextureUpdateList::new();
    list.push(create(1, 2, 2, ImageFormat::RGBA8, None));
    list.push(update(1, 0, 0, 1, 1, vec![0u8; 4], None));
    list.push(create(2, 8, 8, ImageFormat::A8, None));
    list.push(grow(2, 16, 16, ImageFormat::A8));
    assert!(list.validate());
}

#[test]
fn validate_detects_update_before_create() {
    let mut list = TextureUpdateList::new();
    list.push(update(1, 0, 0, 1, 1, vec![0u8; 4], None));
    assert!(!list.validate());
}

#[test]
fn validate_detects_grow_of_foreign_id() {
    let mut list = TextureUpdateList::new();
    list.push(create(1, 2, 2, ImageFormat::RGBA8, None));
    list.push(grow(2, 4, 4, ImageFormat::RGBA8));
    assert!(!list.validate());
    let empty = TextureUpdateList::new();
    assert!(empty.validate());
}

#[test]
fn round_trip_create_update_resolve() {
    let mut cache = TextureCache::new();
    assert!(cache.apply(&create(1, 64, 64, ImageFormat::RGBA8, None)).is_ok());
    let bytes = vec![0xFFu8; 64 * 64 * 4];
    assert!(cache.apply(&update(1, 0, 0, 64, 64, bytes.clone(), None)).is_ok());
    let resolved = cache.resolve(&SourceTexture::TextureCache(CacheTextureId(1)));
    let tex = resolved.expect("a live resource");
    assert_eq!(tex.width, 64);
    assert_eq!(tex.height, 64);
    assert!(matches!(tex.format, ImageFormat::RGBA8));
    assert_eq!(tex.pixels, bytes);
}

#[test]
fn create_without_data_zeroes_storage() {
    let mut cache = TextureCache::new();
    assert!(cache.apply(&create(3, 2, 2, ImageFormat::A8, None)).is_ok());
    let tex = cache.resolve(&SourceTexture::TextureCache(CacheTextureId(3))).unwrap();
    assert_eq!(tex.pixels, vec![0u8; 4]);
}

#[test]
fn create_with_initial_pixels_keeps_them() {
    let mut cache = TextureCache::new();
    assert!(cache.apply(&create(2, 2, 1, ImageFormat::A8, Some(vec![7, 9]))).is_ok());
    let tex = cache.resolve(&SourceTexture::TextureCache(CacheTextureId(2))).unwrap();
    assert_eq!(tex.pixels, vec![7, 9]);
}

#[test]
fn partial_update_with_stride_blits_rows() {
    let mut cache = TextureCache::new();
    assert!(cache.apply(&create(1, 4, 2, ImageFormat::A8, None)).is_ok());
    // two rows of two bytes each, three bytes apart in the source
    let data = vec![1, 2, 9, 3, 4];
    assert!(cache.apply(&update(1, 1, 0, 2, 2, data, Some(3))).is_ok());
    let tex = cache.resolve(&SourceTexture::TextureCache(CacheTextureId(1))).unwrap();
    assert_eq!(tex.pixels, vec![0, 1, 2, 0, 0, 3, 4, 0]);
}

#[test]
fn update_of_unknown_id_is_detected() {
    let mut cache = TextureCache::new();
    let r = cache.apply(&update(5, 0, 0, 1, 1, vec![0u8; 4], None));
    assert_eq!(r, Err(TextureCacheError::UnknownId));
}

#[test]
fn create_of_live_id_is_detected() {
    let mut cache = TextureCache::new();
    assert!(cache.apply(&create(1, 2, 2, ImageFormat::A8, None)).is_ok());
    let r = cache.apply(&create(1, 2, 2, ImageFormat::A8, None));
    assert_eq!(r, Err(TextureCacheError::IdAlreadyLive));
}

#[test]
fn update_outside_bounds_is_rejected() {
    let mut cache = TextureCache::new();
    assert!(cache.apply(&create(1, 4, 4, ImageFormat::A8, None)).is_ok());
    let r = cache.apply(&update(1, 3, 0, 2, 1, vec![0u8; 2], None));
    assert_eq!(r, Err(TextureCacheError::RectOutOfBounds));
}

#[test]
fn update_with_short_data_is_rejected() {
    let mut cache = TextureCache::new();
    assert!(cache.apply(&create(1, 4, 4, ImageFormat::A8, None)).is_ok());
    let r = cache.apply(&update(1, 0, 0, 2, 2, vec![0u8; 3], None));
    assert_eq!(r, Err(TextureCacheError::BadDataLength));
}

#[test]
fn update_with_small_stride_is_rejected() {
    let mut cache = TextureCache::new();
    assert!(cache.apply(&create(1, 4, 4, ImageFormat::A8, None)).is_ok());
    let r = cache.apply(&update(1, 0, 0, 2, 2, vec![0u8; 8], Some(1)));
    assert_eq!(r, Err(TextureCacheError::BadStride));
}

#[test]
fn create_with_wrong_data_length_is_rejected() {
    let mut cache = TextureCache::new();
    let r = cache.apply(&create(1, 2, 2, ImageFormat::A8, Some(vec![0u8; 3])));
    assert_eq!(r, Err(TextureCacheError::BadDataLength));
}

#[test]
fn oversized_create_is_a_resource_failure() {
    let mut cache = TextureCache::new();
    let r = cache.apply(&create(1, u32::MAX, u32::MAX, ImageFormat::RGBAF32, None));
    assert_eq!(r, Err(TextureCacheError::SizeOverflow));
    assert!(!cache.live(CacheTextureId(1)));
}

#[test]
fn grow_keeps_identity_but_not_contents() {
    let mut cache = TextureCache::new();
    assert!(cache.apply(&create(1, 1, 1, ImageFormat::A8, Some(vec![5]))).is_ok());
    assert!(cache.apply(&grow(1, 2, 2, ImageFormat::A8)).is_ok());
    assert!(cache.live(CacheTextureId(1)));
    let tex = cache.resolve(&SourceTexture::TextureCache(CacheTextureId(1))).unwrap();
    assert_eq!(tex.width, 2);
    assert_eq!(tex.height, 2);
    assert_eq!(tex.pixels, vec![0u8; 4]);
}

#[test]
fn grow_of_unknown_id_is_detected() {
    let mut cache = TextureCache::new();
    let r = cache.apply(&grow(9, 2, 2, ImageFormat::A8));
    assert_eq!(r, Err(TextureCacheError::UnknownId));
}

#[test]
fn failed_update_leaves_contents_intact() {
    let mut cache = TextureCache::new();
    assert!(cache.apply(&create(1, 2, 1, ImageFormat::A8, Some(vec![8, 8]))).is_ok());
    assert!(cache.apply(&update(1, 1, 0, 2, 1, vec![0u8; 2], None)).is_err());
    let tex = cache.resolve(&SourceTexture::TextureCache(CacheTextureId(1))).unwrap();
    assert_eq!(tex.pixels, vec![8, 8]);
}

#[test]
fn resolution_of_non_cache_sources_is_elsewhere() {
    let mut cache = TextureCache::new();
    assert!(cache.apply(&create(1, 1, 1, ImageFormat::A8, None)).is_ok());
    assert!(cache.resolve(&SourceTexture::Invalid).is_none());
    assert!(cache.resolve(&SourceTexture::WebGL(4)).is_none());
    assert!(cache.resolve(&SourceTexture::External(ExternalImageId(10))).is_none());
    assert!(cache.resolve(&SourceTexture::TextureCache(CacheTextureId(2))).is_none());
}
