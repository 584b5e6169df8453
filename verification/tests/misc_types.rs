use std::sync::Arc;
use webrender_internal::ids::{AxisDirection, CacheTextureId, ExternalImageId, SourceTexture};
use webrender_internal::misc::{
    Au, CompositionOp, FontTemplate, LowLevelFilterOp, MixBlendMode, NativeFontHandle, Point2D,
    RectUv,
};

#[test]
fn invalid_source_never_draws() {
    assert!(!SourceTexture::Invalid.is_drawable());
    assert!(SourceTexture::TextureCache(CacheTextureId(0)).is_drawable());
    assert!(SourceTexture::External(ExternalImageId(1)).is_drawable());
    assert!(SourceTexture::WebGL(2).is_drawable());
}

#[test]
fn filter_and_composition_ops_compare() {
    let blur = CompositionOp::Filter(LowLevelFilterOp::Blur(Au(60), AxisDirection::Horizontal));
    assert_eq!(
        blur,
        CompositionOp::Filter(LowLevelFilterOp::Blur(Au(60), AxisDirection::Horizontal)),
    );
    assert_ne!(blur, CompositionOp::MixBlend(MixBlendMode::Multiply));
    assert_ne!(
        CompositionOp::Filter(LowLevelFilterOp::HueRotate(65535)),
        CompositionOp::Filter(LowLevelFilterOp::HueRotate(0)),
    );
}

#[test]
fn font_template_carries_its_source() {
    let raw = FontTemplate::Raw(Arc::new(vec![0, 1, 2]));
    match raw {
        FontTemplate::Raw(bytes) => assert_eq!(*bytes, vec![0, 1, 2]),
        FontTemplate::Native(_) => panic!("raw bytes must stay raw"),
    }
    let native = FontTemplate::Native(NativeFontHandle(String::from("DejaVu Sans")));
    assert!(matches!(native, FontTemplate::Native(_)));
}

#[test]
fn rect_uv_holds_four_corners() {
    let r = RectUv {
        top_left: Point2D { x: 0u32, y: 0 },
        top_right: Point2D { x: 1, y: 0 },
        bottom_left: Point2D { x: 0, y: 1 },
        bottom_right: Point2D { x: 1, y: 1 },
    };
    assert_eq!(r.top_right.x, 1);
    assert_eq!(r.bottom_left.y, 1);
    assert_eq!(r.top_left, Point2D { x: 0, y: 0 });
}
