use vstd::prelude::*;

use crate::backend::MathBackend;
use crate::camera::{CamOp, Camera};
use crate::codec;
use crate::codec::{Class, FrameError, Request, RequestModel};
use crate::layers;
use crate::layers::LayerStore;

verus! {

/// The per-tick budget for draining pending commands, in milliseconds.
pub const TICK_BUDGET_MS: i64 = 20;

/// The engine: the layer store and the camera, mutated only through the
/// command dispatcher (and owned by a single thread; any other thread
/// reaches it through a channel, never by shared mutation). The scalar
/// arithmetic is the `math` backend's.
pub struct Stage<B: MathBackend> {
    pub math: B,
    pub store: LayerStore,
    pub camera: Camera,
}

/// How one fire-and-forget command leaves the engine: a draw-line extends
/// the named layer and leaves the camera alone; pan and zoom append their
/// mutation to the camera's record and leave the store alone.
pub open spec fn sub_applied<B: MathBackend>(
    pre: Stage<B>,
    post: Stage<B>,
    req: RequestModel,
) -> bool {
    match req {
        RequestModel::DrawLine { name, x1, y1, x2, y2, thickness, r, g, b, a } => {
            &&& layers::draw_line_applied(pre.store, post.store, name, [r, g, b, a])
            &&& post.camera == pre.camera
        },
        RequestModel::Pan { x, y } => {
            &&& post.store == pre.store
            &&& post.camera.ops@ == pre.camera.ops@.push(CamOp::Pan { x, y })
        },
        RequestModel::Zoom { scale } => {
            &&& post.store == pre.store
            &&& post.camera.ops@ == pre.camera.ops@.push(CamOp::Zoom { scale })
        },
        _ => false,
    }
}

/// How one query/ack command leaves the engine and what its one reply
/// frame holds. Queries leave the state alone; the layer mutations act on
/// the store exactly as the store's own relations say and report whether
/// the name existed.
pub open spec fn query_reply<B: MathBackend>(
    pre: Stage<B>,
    post: Stage<B>,
    req: RequestModel,
    screen_w: u32,
    screen_h: u32,
    reply: Seq<u8>,
) -> bool {
    match req {
        RequestModel::Hello => {
            &&& post == pre
            &&& reply == codec::str_enc(codec::hello_bytes())
        },
        RequestModel::ScreenToWorld { x, y } => {
            &&& post == pre
            &&& exists|a: u32, b: u32| reply == codec::u32_le(a) + codec::u32_le(b)
        },
        RequestModel::GetLayers => {
            &&& post == pre
            &&& reply == codec::names_enc(pre.store.names())
        },
        RequestModel::DeleteLayer { name } => {
            &&& post.camera == pre.camera
            &&& layers::layer_removed(pre.store, post.store, name)
            &&& reply == codec::bool_enc(pre.store.has(name))
        },
        RequestModel::ShowLayer { name } => {
            &&& post.camera == pre.camera
            &&& layers::visibility_set(pre.store, post.store, name, false)
            &&& reply == codec::bool_enc(pre.store.has(name))
        },
        RequestModel::HideLayer { name } => {
            &&& post.camera == pre.camera
            &&& layers::visibility_set(pre.store, post.store, name, true)
            &&& reply == codec::bool_enc(pre.store.has(name))
        },
        RequestModel::SetLayerPos { name, x, y } => {
            &&& post.camera == pre.camera
            &&& layers::position_set(pre.store, post.store, name, x, y)
            &&& reply == codec::bool_enc(pre.store.has(name))
        },
        RequestModel::ScreenSize => {
            &&& post == pre
            &&& reply == codec::u32_le(screen_w) + codec::u32_le(screen_h)
        },
        _ => false,
    }
}

impl<B: MathBackend> Stage<B> {
    /// A fresh engine over the given arithmetic backend: no layers, an
    /// identity camera.
    pub fn new(math: B) -> (s: Stage<B>)
        ensures
            s.store.wf(),
            s.store.entries@.len() == 0,
            s.camera.proj@ == crate::backend::spec_identity(),
            s.camera.ops@ == Seq::<CamOp>::empty(),
    {
        Stage { math, store: LayerStore::new(), camera: Camera::new() }
    }

    /// Draws a line into the named layer (fire-and-forget).
    pub fn draw_line(
        &mut self,
        name: Vec<u8>,
        x1: u32,
        y1: u32,
        x2: u32,
        y2: u32,
        thickness: u32,
        r: u32,
        g: u32,
        b: u32,
        a: u32,
    )
        requires
            old(self).store.wf(),
        ensures
            final(self).store.wf(),
            layers::draw_line_applied(old(self).store, final(self).store, name@, [r, g, b, a]),
            final(self).store.has(name@),
            final(self).camera == old(self).camera,
    {
        self.store.draw_line(&self.math, name, x1, y1, x2, y2, thickness, [r, g, b, a]);
    }

    /// Pans the camera (fire-and-forget).
    pub fn pan(&mut self, x: u32, y: u32)
        ensures
            final(self).store == old(self).store,
            final(self).camera.ops@ == old(self).camera.ops@.push(CamOp::Pan { x, y }),
    {
        self.camera.pan(&self.math, x, y);
    }

    /// Zooms the camera (fire-and-forget).
    pub fn zoom(&mut self, scale: u32)
        ensures
            final(self).store == old(self).store,
            final(self).camera.ops@ == old(self).camera.ops@.push(CamOp::Zoom { scale }),
    {
        self.camera.zoom(&self.math, scale);
    }

    /// The effective projection for the given viewport.
    pub fn calc_proj_matrix(&self, screen_w: u32, screen_h: u32) -> [u32; 16] {
        self.camera.calc_proj_matrix(&self.math, screen_w, screen_h)
    }

    /// Maps normalized screen coordinates to world coordinates through
    /// the inverse of the effective projection, recomputed per call.
    pub fn screen_to_world(&self, x: u32, y: u32, screen_w: u32, screen_h: u32) -> (u32, u32) {
        self.camera.screen_to_world(&self.math, x, y, screen_w, screen_h)
    }

    /// Builds the pointer-motion notification for a pointer at pixel
    /// coordinates `(x, y)`: normalized by the viewport, then mapped to
    /// world coordinates, so subscribers never see raw pixels.
    pub fn mouse_motion_event(&self, x: u32, y: u32, screen_w: u32, screen_h: u32) -> (r: Vec<
        u8,
    >)
        ensures
            exists|a: u32, b: u32| r@ == codec::mouse_motion_enc(a, b),
    {
        let nx: u32 = self.math.fdiv(x, screen_w);
        let ny: u32 = self.math.fdiv(y, screen_h);
        let (wx, wy) = self.screen_to_world(nx, ny, screen_w, screen_h);
        let r: Vec<u8> = codec::encode_mouse_motion(wx, wy);
        proof {
            assert(r@ == codec::mouse_motion_enc(wx, wy));
        }
        r
    }

    /// Builds the wheel notification; the delta passes through untouched.
    pub fn mouse_wheel_event(&self, x: u32, y: u32) -> (r: Vec<u8>)
        ensures
            r@ == codec::mouse_wheel_enc(x, y),
    {
        codec::encode_mouse_wheel(x, y)
    }

    /// Builds the button-down notification for a button at pixel
    /// coordinates `(x, y)`, with the coordinates mapped to world space.
    pub fn mouse_button_down_event(
        &self,
        button: u8,
        x: u32,
        y: u32,
        screen_w: u32,
        screen_h: u32,
    ) -> (r: Vec<u8>)
        ensures
            exists|a: u32, b: u32| r@ == codec::mouse_button_enc(true, button, a, b),
    {
        let nx: u32 = self.math.fdiv(x, screen_w);
        let ny: u32 = self.math.fdiv(y, screen_h);
        let (wx, wy) = self.screen_to_world(nx, ny, screen_w, screen_h);
        let r: Vec<u8> = codec::encode_mouse_button(true, button, wx, wy);
        proof {
            assert(r@ == codec::mouse_button_enc(true, button, wx, wy));
        }
        r
    }

    /// Builds the button-up notification, as [`Stage::mouse_button_down_event`].
    pub fn mouse_button_up_event(
        &self,
        button: u8,
        x: u32,
        y: u32,
        screen_w: u32,
        screen_h: u32,
    ) -> (r: Vec<u8>)
        ensures
            exists|a: u32, b: u32| r@ == codec::mouse_button_enc(false, button, a, b),
    {
        let nx: u32 = self.math.fdiv(x, screen_w);
        let ny: u32 = self.math.fdiv(y, screen_h);
        let (wx, wy) = self.screen_to_world(nx, ny, screen_w, screen_h);
        let r: Vec<u8> = codec::encode_mouse_button(false, button, wx, wy);
        proof {
            assert(r@ == codec::mouse_button_enc(false, button, wx, wy));
        }
        r
    }

    /// Dispatches one frame from the query/ack channel: decodes it,
    /// performs exactly one store or camera operation, and encodes
    /// exactly one reply frame. A malformed frame is reported as the
    /// framing error that [`codec::parse_request`] assigns it and leaves
    /// the engine untouched.
    pub fn process_req(&mut self, parts: &Vec<Vec<u8>>, screen_w: u32, screen_h: u32) -> (r:
        Result<Vec<u8>, FrameError>)
        requires
            old(self).store.wf(),
        ensures
            final(self).store.wf(),
            ({
                let p = codec::parse_request(codec::parts_view(parts@), Class::Query);
                match r {
                    Ok(reply) => p matches Ok(req) && query_reply(
                        *old(self),
                        *final(self),
                        req,
                        screen_w,
                        screen_h,
                        reply@,
                    ),
                    Err(e) => p == Err::<RequestModel, FrameError>(e) && *final(self) == *old(
                        self,
                    ),
                }
            }),
    {
        proof {
            codec::lemma_parse_request_class(codec::parts_view(parts@), Class::Query);
        }
        let req: Request = match codec::decode_request(parts, Class::Query) {
            Err(e) => {
                return Err(e);
            },
            Ok(q) => q,
        };
        let mut reply: Vec<u8> = Vec::new();
        match req {
            Request::Hello => {
                codec::write_varint(&mut reply, 5);
                reply.push(0x68);
                reply.push(0x65);
                reply.push(0x6C);
                reply.push(0x6C);
                reply.push(0x6F);
                proof {
                    assert(reply@ =~= codec::str_enc(codec::hello_bytes()));
                }
            },
            Request::ScreenToWorld { x, y } => {
                let (wx, wy) = self.screen_to_world(x, y, screen_w, screen_h);
                codec::write_u32_le(&mut reply, wx);
                codec::write_u32_le(&mut reply, wy);
            },
            Request::GetLayers => {
                let names: Vec<Vec<u8>> = self.store.list_layers();
                codec::write_names(&mut reply, &names);
            },
            Request::DeleteLayer { name } => {
                let ok: bool = self.store.delete_layer(&name);
                codec::write_bool(&mut reply, ok);
            },
            Request::ShowLayer { name } => {
                let ok: bool = self.store.set_visible(&name, false);
                codec::write_bool(&mut reply, ok);
            },
            Request::HideLayer { name } => {
                let ok: bool = self.store.set_visible(&name, true);
                codec::write_bool(&mut reply, ok);
            },
            Request::SetLayerPos { name, x, y } => {
                let ok: bool = self.store.set_layer_position(&name, x, y);
                codec::write_bool(&mut reply, ok);
            },
            Request::ScreenSize => {
                codec::write_u32_le(&mut reply, screen_w);
                codec::write_u32_le(&mut reply, screen_h);
            },
            Request::DrawLine { .. } | Request::Pan { .. } | Request::Zoom { .. } => {
                proof {
                    assert(false);
                }
                return Err(FrameError::WrongClass);
            },
        }
        Ok(reply)
    }

    /// Dispatches one frame from the fire-and-forget channel: decodes it
    /// and performs exactly one mutation, with no reply. A malformed
    /// frame is reported as the framing error that
    /// [`codec::parse_request`] assigns it and leaves the engine
    /// untouched.
    pub fn process_sub(&mut self, parts: &Vec<Vec<u8>>) -> (r: Result<(), FrameError>)
        requires
            old(self).store.wf(),
        ensures
            final(self).store.wf(),
            ({
                let p = codec::parse_request(codec::parts_view(parts@), Class::FireForget);
                match r {
                    Ok(_) => p matches Ok(req) && sub_applied(*old(self), *final(self), req),
                    Err(e) => p == Err::<RequestModel, FrameError>(e) && *final(self) == *old(
                        self,
                    ),
                }
            }),
    {
        proof {
            codec::lemma_parse_request_class(codec::parts_view(parts@), Class::FireForget);
        }
        let req: Request = match codec::decode_request(parts, Class::FireForget) {
            Err(e) => {
                return Err(e);
            },
            Ok(q) => q,
        };
        match req {
            Request::DrawLine { name, x1, y1, x2, y2, thickness, r, g, b, a } => {
                self.draw_line(name, x1, y1, x2, y2, thickness, r, g, b, a);
            },
            Request::Pan { x, y } => {
                self.pan(x, y);
            },
            Request::Zoom { scale } => {
                self.zoom(scale);
            },
            Request::Hello | Request::ScreenToWorld { .. } | Request::GetLayers
                | Request::DeleteLayer { .. } | Request::ShowLayer { .. } | Request::HideLayer {
                ..
            } | Request::SetLayerPos { .. } | Request::ScreenSize => {
                proof {
                    assert(false);
                }
                return Err(FrameError::WrongClass);
            },
        }
        Ok(())
    }
}

/// One decision of the drain loop: after `elapsed_ms` of the budget have
/// gone, how much remains, and whether to keep draining. The budget is a
/// ceiling, not a guarantee: once it is spent the tick moves on to
/// rendering.
pub fn drain_step(remaining: i64, elapsed_ms: i64) -> (r: (i64, bool))
    requires
        0 <= remaining <= TICK_BUDGET_MS,
        0 <= elapsed_ms,
    ensures
        r.0 == if elapsed_ms < remaining {
            remaining - elapsed_ms
        } else {
            0
        },
        r.1 == (elapsed_ms < remaining),
{
    if elapsed_ms < remaining {
        (remaining - elapsed_ms, true)
    } else {
        (0, false)
    }
}

} // verus!
