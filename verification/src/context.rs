use vstd::prelude::*;

verus! {

/// The capabilities a caller requests when creating a context.
#[derive(Copy, Clone, Debug, Eq, PartialEq, Structural, Hash)]
pub struct GLContextAttributes {
    pub alpha: bool,
    pub depth: bool,
    pub stencil: bool,
    pub antialias: bool,
    pub premultiplied_alpha: bool,
    pub preserve_drawing_buffer: bool,
}

/// The capability limits a native backend negotiated at context
/// creation, for callers that must know concrete device limits
/// without knowing which backend is active.
#[derive(Copy, Clone, Debug, Eq, PartialEq, Structural, Hash)]
pub struct GLLimits {
    pub max_vertex_attribs: u32,
    pub max_tex_size: u32,
    pub max_cube_map_tex_size: u32,
    pub max_combined_texture_image_units: u32,
    pub max_fragment_uniform_vectors: u32,
    pub max_renderbuffer_size: u32,
    pub max_texture_image_units: u32,
    pub max_varying_vectors: u32,
    pub max_vertex_texture_image_units: u32,
    pub max_vertex_uniform_vectors: u32,
}

/// What the native layer reports for a context it has just created:
/// the real drawable size, the native id of the bound color-texture
/// attachment, and the negotiated limits.
#[derive(Copy, Clone, Debug, Eq, PartialEq, Structural, Hash)]
pub struct CreatedContext {
    pub width: i32,
    pub height: i32,
    pub texture_id: u32,
    pub limits: GLLimits,
}

/// A lightweight, copyable reference to an existing context, usable
/// to create a new context that shares its GPU object namespaces.
/// One variant per supported native backend: the hardware-accelerated
/// one and the software-rasterized offscreen one.
#[derive(Copy, Clone, Debug, Eq, PartialEq, Structural, Hash)]
pub enum GLContextHandleWrapper {
    Native,
    OSMesa,
}

/// The state this layer tracks for one live context: its drawable,
/// what it was created with, and whether it is bound to the owning
/// thread right now.
#[derive(Copy, Clone, Debug, Eq, PartialEq, Structural, Hash)]
pub struct GLContextState {
    pub width: i32,
    pub height: i32,
    pub texture_id: u32,
    pub limits: GLLimits,
    pub attributes: GLContextAttributes,
    pub current: bool,
}

/// The live, owning wrapper of one context instance. It is never
/// copyable: a context belongs to exactly one thread, is moved, and
/// every binding operation takes it by exclusive reference.
pub enum GLContextWrapper {
    Native(GLContextState),
    OSMesa(GLContextState),
}

impl GLContextHandleWrapper {
    /// Whether `ctx` runs on the same native backend as this handle.
    /// Cross-backend sharing is never possible.
    pub open spec fn spec_matches_backend(self, ctx: GLContextWrapper) -> bool {
        match (self, ctx) {
            (GLContextHandleWrapper::Native, GLContextWrapper::Native(_)) => true,
            (GLContextHandleWrapper::OSMesa, GLContextWrapper::OSMesa(_)) => true,
            _ => false,
        }
    }

    /// Creates a new context sharing GPU object namespaces with this
    /// handle's context, bound to an off-screen color-texture
    /// attachment. `creation` is what this handle's own native
    /// backend reported for the request, so the returned wrapper
    /// always runs on the handle's backend; it starts out current on
    /// the creating thread. A creation failure leaves nothing
    /// created and hands the backend's description up.
    pub fn new_context(
        &self,
        attributes: GLContextAttributes,
        creation: Result<CreatedContext, &'static str>,
    ) -> (r: Result<GLContextWrapper, &'static str>)
        ensures
            match creation {
                Ok(info) => r matches Ok(ctx) && self.spec_matches_backend(ctx) && ctx.state()
                    == (GLContextState {
                    width: info.width,
                    height: info.height,
                    texture_id: info.texture_id,
                    limits: info.limits,
                    attributes: attributes,
                    current: true,
                }),
                Err(e) => r == Err::<GLContextWrapper, &'static str>(e),
            },
    {
        match creation {
            Ok(info) => {
                let state = GLContextState {
                    width: info.width,
                    height: info.height,
                    texture_id: info.texture_id,
                    limits: info.limits,
                    attributes: attributes,
                    current: true,
                };
                match self {
                    GLContextHandleWrapper::Native => Ok(GLContextWrapper::Native(state)),
                    GLContextHandleWrapper::OSMesa => Ok(GLContextWrapper::OSMesa(state)),
                }
            },
            Err(e) => Err(e),
        }
    }
}

impl GLContextWrapper {
    /// The state behind whichever backend variant is live.
    pub open spec fn state(self) -> GLContextState {
        match self {
            GLContextWrapper::Native(s) => s,
            GLContextWrapper::OSMesa(s) => s,
        }
    }

    /// The same context with its thread binding changed.
    pub open spec fn with_current(self, b: bool) -> GLContextWrapper {
        match self {
            GLContextWrapper::Native(s) => GLContextWrapper::Native(
                GLContextState { current: b, ..s },
            ),
            GLContextWrapper::OSMesa(s) => GLContextWrapper::OSMesa(
                GLContextState { current: b, ..s },
            ),
        }
    }

    /// The same context with its drawable reallocated to a new size.
    pub open spec fn with_size(self, width: i32, height: i32) -> GLContextWrapper {
        match self {
            GLContextWrapper::Native(s) => GLContextWrapper::Native(
                GLContextState { width: width, height: height, ..s },
            ),
            GLContextWrapper::OSMesa(s) => GLContextWrapper::OSMesa(
                GLContextState { width: width, height: height, ..s },
            ),
        }
    }

    /// Binds the wrapped context to the calling thread. A failure of
    /// the native bind is a programming error that the native layer
    /// turns into a fatal abort, never a state this layer continues
    /// from, so here binding is total.
    pub fn make_current(&mut self)
        ensures
            *final(self) == old(self).with_current(true),
    {
        let s = match &*self {
            GLContextWrapper::Native(s) => *s,
            GLContextWrapper::OSMesa(s) => *s,
        };
        let ns = GLContextState { current: true, ..s };
        match &*self {
            GLContextWrapper::Native(_) => {
                *self = GLContextWrapper::Native(ns);
            },
            GLContextWrapper::OSMesa(_) => {
                *self = GLContextWrapper::OSMesa(ns);
            },
        }
    }

    /// Releases the wrapped context from the calling thread; as with
    /// binding, a native failure is fatal in the native layer, so
    /// unbinding is total here.
    pub fn unbind(&mut self)
        ensures
            *final(self) == old(self).with_current(false),
    {
        let s = match &*self {
            GLContextWrapper::Native(s) => *s,
            GLContextWrapper::OSMesa(s) => *s,
        };
        let ns = GLContextState { current: false, ..s };
        match &*self {
            GLContextWrapper::Native(_) => {
                *self = GLContextWrapper::Native(ns);
            },
            GLContextWrapper::OSMesa(_) => {
                *self = GLContextWrapper::OSMesa(ns);
            },
        }
    }

    /// The context's real drawable size, the native id of its bound
    /// color attachment, and the limits negotiated at creation,
    /// whichever backend is active.
    pub fn get_info(&self) -> (r: ((i32, i32), u32, GLLimits))
        ensures
            r.0.0 == self.state().width,
            r.0.1 == self.state().height,
            r.1 == self.state().texture_id,
            r.2 == self.state().limits,
    {
        match self {
            GLContextWrapper::Native(s) => ((s.width, s.height), s.texture_id, s.limits),
            GLContextWrapper::OSMesa(s) => ((s.width, s.height), s.texture_id, s.limits),
        }
    }

    /// Whether the backend can satisfy a drawable of this size: both
    /// extents positive and within the negotiated texture limit.
    pub open spec fn spec_resize_ok(self, width: int, height: int) -> bool {
        0 < width && 0 < height && width <= self.state().limits.max_tex_size && height
            <= self.state().limits.max_tex_size
    }

    /// Reallocates the backing drawable to the given size. When the
    /// backend cannot satisfy it, the previous drawable stays intact
    /// and a descriptive failure is handed back.
    pub fn resize(&mut self, width: i32, height: i32) -> (r: Result<(), &'static str>)
        ensures
            old(self).spec_resize_ok(width as int, height as int) ==> r is Ok && *final(self)
                == old(self).with_size(width, height),
            !old(self).spec_resize_ok(width as int, height as int) ==> r is Err && *final(self)
                == *old(self),
    {
        let s = match &*self {
            GLContextWrapper::Native(s) => *s,
            GLContextWrapper::OSMesa(s) => *s,
        };
        if width <= 0 || height <= 0 {
            return Err("drawable size must be positive");
        }
        if (width as u32) > s.limits.max_tex_size || (height as u32) > s.limits.max_tex_size {
            return Err("drawable size exceeds the device texture limit");
        }
        let ns = GLContextState { width: width, height: height, ..s };
        match &*self {
            GLContextWrapper::Native(_) => {
                *self = GLContextWrapper::Native(ns);
            },
            GLContextWrapper::OSMesa(_) => {
                *self = GLContextWrapper::OSMesa(ns);
            },
        }
        Ok(())
    }
}

} // verus!
