use webrender_internal::batching::{
    BatchTextures, PackedColor, TextureSampler, DEFAULT_TEXTURE,
};
use webrender_internal::channel::{BackendProfileCounters, ResultChannel, ResultMsg};
use webrender_internal::context::{
    CreatedContext, GLContextAttributes, GLContextHandleWrapper, GLContextWrapper, GLLimits,
};
use webrender_internal::frame::{
    check_epochs_monotonic, Epoch, PipelineId, RendererFrame, ScrollLayerId,
};
use webrender_internal::ids::{CacheTextureId, SourceTexture, StackingContextIndex};
use webrender_internal::updates::TextureUpdateList;

#[test]
fn color_samplers_map_to_fixed_slots() {
    assert_eq!(TextureSampler::color(0), TextureSampler::Color0);
    assert_eq!(TextureSampler::color(1), TextureSampler::Color1);
    assert_eq!(TextureSampler::color(2), TextureSampler::Color2);
    assert_eq!(DEFAULT_TEXTURE, TextureSampler::Color0);
}

#[test]
fn no_texture_has_three_invalid_slots() {
    let b = BatchTextures::no_texture();
    assert_eq!(b.colors.len(), 3);
    for slot in b.colors.iter() {
        assert!(matches!(slot, SourceTexture::Invalid));
    }
    assert!(!b.submittable());
}

#[test]
fn batch_with_live_primary_slot_is_submittable() {
    let b = BatchTextures {
        colors: [
            SourceTexture::TextureCache(CacheTextureId(1)),
            SourceTexture::Invalid,
            SourceTexture::Invalid,
        ],
    };
    assert!(b.submittable());
    let w = BatchTextures {
        colors: [
            SourceTexture::Invalid,
            SourceTexture::WebGL(3),
            SourceTexture::Invalid,
        ],
    };
    assert!(!w.submittable());
}

#[test]
fn packed_color_is_byte_exact() {
    let c = PackedColor { r: 0, g: 128, b: 255, a: 128 };
    assert_eq!(c, PackedColor { r: 0, g: 128, b: 255, a: 128 });
    assert_eq!(StackingContextIndex(4), StackingContextIndex(4));
}

fn frame(entries: Vec<(PipelineId, Epoch)>) -> RendererFrame {
    RendererFrame::new(entries, Vec::new(), None)
}

#[test]
fn channel_delivers_in_send_order() {
    let mut ch = ResultChannel::new();
    ch.send(ResultMsg::RefreshShader(String::from("ps_text.glsl")));
    ch.send(ResultMsg::UpdateTextureCache(TextureUpdateList::new()));
    ch.send(ResultMsg::NewFrame(
        frame(vec![(PipelineId(1, 0), Epoch(1))]),
        BackendProfileCounters { total_time_ns: 12 },
    ));
    match ch.recv() {
        Some(ResultMsg::RefreshShader(path)) => assert_eq!(path, "ps_text.glsl"),
        _ => panic!("the first message sent must arrive first"),
    }
    match ch.recv() {
        Some(ResultMsg::UpdateTextureCache(list)) => assert_eq!(list.updates.len(), 0),
        _ => panic!("the second message sent must arrive second"),
    }
    match ch.recv() {
        Some(ResultMsg::NewFrame(f, counters)) => {
            assert_eq!(counters.total_time_ns, 12);
            assert_eq!(f.get_epoch(PipelineId(1, 0)), Some(Epoch(1)));
        }
        _ => panic!("the third message sent must arrive third"),
    }
    assert!(ch.recv().is_none());
}

#[test]
fn renderer_frame_records_epochs_and_layers() {
    let f = RendererFrame::new(
        vec![(PipelineId(1, 0), Epoch(3)), (PipelineId(2, 1), Epoch(7))],
        vec![ScrollLayerId { pipeline_id: PipelineId(1, 0), index: 0 }],
        None,
    );
    assert_eq!(f.get_epoch(PipelineId(1, 0)), Some(Epoch(3)));
    assert_eq!(f.get_epoch(PipelineId(2, 1)), Some(Epoch(7)));
    assert_eq!(f.get_epoch(PipelineId(9, 9)), None);
    assert_eq!(f.layers_bouncing_back.len(), 1);
    assert!(f.frame.is_none());
}

#[test]
fn epoch_monotonicity_is_checked_across_frames() {
    let prev = frame(vec![(PipelineId(1, 0), Epoch(2)), (PipelineId(2, 0), Epoch(5))]);
    let next_ok = frame(vec![(PipelineId(1, 0), Epoch(3)), (PipelineId(3, 0), Epoch(0))]);
    assert!(check_epochs_monotonic(&prev, &next_ok));
    let next_same = frame(vec![(PipelineId(2, 0), Epoch(5))]);
    assert!(check_epochs_monotonic(&prev, &next_same));
    let next_bad = frame(vec![(PipelineId(2, 0), Epoch(4))]);
    assert!(!check_epochs_monotonic(&prev, &next_bad));
}

fn limits() -> GLLimits {
    GLLimits {
        max_vertex_attribs: 16,
        max_tex_size: 1024,
        max_cube_map_tex_size: 1024,
        max_combined_texture_image_units: 32,
        max_fragment_uniform_vectors: 256,
        max_renderbuffer_size: 4096,
        max_texture_image_units: 16,
        max_varying_vectors: 16,
        max_vertex_texture_image_units: 16,
        max_vertex_uniform_vectors: 256,
    }
}

fn attrs() -> GLContextAttributes {
    GLContextAttributes {
        alpha: true,
        depth: true,
        stencil: false,
        antialias: false,
        premultiplied_alpha: true,
        preserve_drawing_buffer: false,
    }
}

#[test]
fn new_context_matches_the_handle_backend() {
    let info = CreatedContext { width: 256, height: 128, texture_id: 7, limits: limits() };
    let native = GLContextHandleWrapper::Native.new_context(attrs(), Ok(info)).unwrap();
    assert!(matches!(native, GLContextWrapper::Native(_)));
    let osmesa = GLContextHandleWrapper::OSMesa.new_context(attrs(), Ok(info)).unwrap();
    assert!(matches!(osmesa, GLContextWrapper::OSMesa(_)));
    let failed = GLContextHandleWrapper::Native.new_context(attrs(), Err("out of GPU memory"));
    assert_eq!(failed.err(), Some("out of GPU memory"));
}

#[test]
fn context_reports_its_creation_info() {
    let info = CreatedContext { width: 256, height: 128, texture_id: 7, limits: limits() };
    let ctx = GLContextHandleWrapper::OSMesa.new_context(attrs(), Ok(info)).unwrap();
    let ((w, h), tex, lim) = ctx.get_info();
    assert_eq!((w, h), (256, 128));
    assert_eq!(tex, 7);
    assert_eq!(lim.max_tex_size, 1024);
}

#[test]
fn context_bind_cycle_toggles_the_binding() {
    let info = CreatedContext { width: 64, height: 64, texture_id: 2, limits: limits() };
    let mut ctx = GLContextHandleWrapper::Native.new_context(attrs(), Ok(info)).unwrap();
    match &ctx {
        GLContextWrapper::Native(s) => assert!(s.current),
        GLContextWrapper::OSMesa(_) => panic!("backend must match the handle"),
    }
    ctx.unbind();
    match &ctx {
        GLContextWrapper::Native(s) => assert!(!s.current),
        GLContextWrapper::OSMesa(_) => panic!("backend must match the handle"),
    }
    ctx.make_current();
    match &ctx {
        GLContextWrapper::Native(s) => assert!(s.current),
        GLContextWrapper::OSMesa(_) => panic!("backend must match the handle"),
    }
}

#[test]
fn resize_failure_leaves_the_drawable_intact() {
    let info = CreatedContext { width: 64, height: 64, texture_id: 2, limits: limits() };
    let mut ctx = GLContextHandleWrapper::Native.new_context(attrs(), Ok(info)).unwrap();
    assert!(ctx.resize(2048, 32).is_err());
    assert_eq!(ctx.get_info().0, (64, 64));
    assert!(ctx.resize(0, 32).is_err());
    assert_eq!(ctx.get_info().0, (64, 64));
    assert!(ctx.resize(512, 256).is_ok());
    assert_eq!(ctx.get_info().0, (512, 256));
}
