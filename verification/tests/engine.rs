use darkfi_serial::{serialize, Encodable};
use drawcanvas::backend::MathBackend;
use drawcanvas::codec::FrameError;
use drawcanvas::geometry;
use drawcanvas::stage::Stage;
use glam::Vec4Swizzles;

struct F32Backend;

fn mat(m: &[u32; 16]) -> glam::Mat4 {
    glam::Mat4::from_cols_array(&m.map(f32::from_bits))
}

fn mat_bits(m: glam::Mat4) -> [u32; 16] {
    m.to_cols_array().map(f32::to_bits)
}

impl MathBackend for F32Backend {
    fn perp_offset(
        &self,
        x1: u32,
        y1: u32,
        x2: u32,
        y2: u32,
        thickness: u32,
    ) -> Option<(u32, u32)> {
        let (x1, y1, x2, y2, thickness) = (
            f32::from_bits(x1),
            f32::from_bits(y1),
            f32::from_bits(x2),
            f32::from_bits(y2),
            f32::from_bits(thickness),
        );
        let dx = x2 - x1;
        let dy = y2 - y1;
        let nx = -dy;
        let ny = dx;
        let tlen = (nx * nx + ny * ny).sqrt() / (thickness * 0.5);
        // 0/0 (zero length, zero thickness) is not a number: degenerate
        if !(tlen >= f32::EPSILON) {
            return None;
        }
        Some(((nx / tlen).to_bits(), (ny / tlen).to_bits()))
    }

    fn fadd(&self, a: u32, b: u32) -> u32 {
        (f32::from_bits(a) + f32::from_bits(b)).to_bits()
    }

    fn fsub(&self, a: u32, b: u32) -> u32 {
        (f32::from_bits(a) - f32::from_bits(b)).to_bits()
    }

    fn fmul(&self, a: u32, b: u32) -> u32 {
        (f32::from_bits(a) * f32::from_bits(b)).to_bits()
    }

    fn fdiv(&self, a: u32, b: u32) -> u32 {
        (f32::from_bits(a) / f32::from_bits(b)).to_bits()
    }

    fn mat_mul(&self, a: &[u32; 16], b: &[u32; 16]) -> [u32; 16] {
        mat_bits(mat(a) * mat(b))
    }

    fn mat_inverse(&self, m: &[u32; 16]) -> [u32; 16] {
        mat_bits(mat(m).inverse())
    }

    fn transform_point(&self, m: &[u32; 16], x: u32, y: u32) -> (u32, u32) {
        let world = (mat(m) * glam::vec4(f32::from_bits(x), f32::from_bits(y), 0.0, 1.0)).xy();
        (world.x.to_bits(), world.y.to_bits())
    }
}

fn bits(x: f32) -> u32 {
    x.to_bits()
}

fn val(x: u32) -> f32 {
    f32::from_bits(x)
}

fn frame(tag: u8, payload: Vec<u8>) -> Vec<Vec<u8>> {
    vec![vec![tag], payload]
}

fn draw_line_payload(name: &str, fields: [f32; 9]) -> Vec<u8> {
    let mut p = Vec::new();
    name.encode(&mut p).unwrap();
    for x in fields {
        x.encode(&mut p).unwrap();
    }
    p
}

fn fresh() -> Stage<F32Backend> {
    Stage::new(F32Backend)
}

const W: f32 = 800.0;
const H: f32 = 600.0;

#[test]
fn build_line_emits_a_quad_of_four_equidistant_corners() {
    let color = [bits(1.0), bits(0.0), bits(0.0), bits(1.0)];
    let (verts, faces) = geometry::build_line(
        &F32Backend,
        bits(-0.1),
        bits(0.0),
        bits(0.1),
        bits(0.0),
        bits(0.001),
        color,
    );
    assert_eq!(verts.len(), 4);
    assert_eq!(faces.len(), 2);
    assert_eq!(faces[0].idxs, [0, 1, 2]);
    assert_eq!(faces[1].idxs, [2, 1, 3]);
    for face in &faces {
        for &i in &face.idxs {
            assert!(i < 4);
        }
    }
    for v in &verts {
        // the segment lies on the x axis, so the distance of each corner
        // to it is |y|: half the thickness, reached perpendicularly
        let y = val(v.pos[1]);
        assert!((y.abs() - 0.0005).abs() < 1e-8, "corner distance {y}");
        assert_eq!(v.color, color);
        assert_eq!(v.uv, [0, 0]);
    }
    // corners sit perpendicular over the endpoints
    assert!((val(verts[0].pos[0]) + 0.1).abs() < 1e-6);
    assert!((val(verts[1].pos[0]) + 0.1).abs() < 1e-6);
    assert!((val(verts[2].pos[0]) - 0.1).abs() < 1e-6);
    assert!((val(verts[3].pos[0]) - 0.1).abs() < 1e-6);
}

#[test]
fn build_line_degenerate_segments_emit_nothing() {
    let color = [bits(1.0), bits(1.0), bits(1.0), bits(1.0)];
    // zero-length segment
    let (verts, faces) = geometry::build_line(
        &F32Backend,
        bits(0.25),
        bits(-0.5),
        bits(0.25),
        bits(-0.5),
        bits(0.1),
        color,
    );
    assert!(verts.is_empty());
    assert!(faces.is_empty());
    // a thickness so large the perpendicular scale is sub-epsilon
    let (verts, faces) = geometry::build_line(
        &F32Backend,
        bits(-0.1),
        bits(0.0),
        bits(0.1),
        bits(0.0),
        bits(1e30),
        color,
    );
    assert!(verts.is_empty());
    assert!(faces.is_empty());
}

#[test]
fn zero_length_zero_thickness_draws_nothing() {
    // 0/0 in the perpendicular scale must not defeat the degeneracy
    // guard: zero length always draws nothing
    let color = [bits(1.0), bits(0.0), bits(0.0), bits(1.0)];
    let (verts, faces) = geometry::build_line(
        &F32Backend,
        bits(0.0),
        bits(0.0),
        bits(0.0),
        bits(0.0),
        bits(0.0),
        color,
    );
    assert!(verts.is_empty());
    assert!(faces.is_empty());
    let mut st = fresh();
    let payload = draw_line_payload("a", [0.0; 9]);
    st.process_sub(&frame(1, payload)).unwrap();
    assert_eq!(st.store.entries.len(), 1);
    assert_eq!(st.store.entries[0].layer.verts.len(), 0);
}

#[test]
fn assemble_quad_places_each_corner() {
    let color = [bits(0.5), bits(0.25), bits(0.75), bits(1.0)];
    let p0 = [bits(-1.0), bits(1.0)];
    let p1 = [bits(-1.0), bits(-1.0)];
    let p2 = [bits(1.0), bits(1.0)];
    let p3 = [bits(1.0), bits(-1.0)];
    let (verts, faces) = geometry::assemble_quad(p0, p1, p2, p3, color);
    assert_eq!(verts.len(), 4);
    assert_eq!(faces.len(), 2);
    assert_eq!(verts[0].pos, p0);
    assert_eq!(verts[1].pos, p1);
    assert_eq!(verts[2].pos, p2);
    assert_eq!(verts[3].pos, p3);
    for v in &verts {
        assert_eq!(v.color, color);
        assert_eq!(v.uv, [0, 0]);
    }
    assert_eq!(faces[0].idxs, [0, 1, 2]);
    assert_eq!(faces[1].idxs, [2, 1, 3]);
}

#[test]
fn visible_indices_excludes_hidden_layers() {
    let mut st = fresh();
    for name in ["a", "b", "c"] {
        let payload =
            draw_line_payload(name, [-0.1, 0.0, 0.1, 0.0, 0.001, 1.0, 0.0, 0.0, 1.0]);
        st.process_sub(&frame(1, payload)).unwrap();
    }
    assert_eq!(st.store.visible_indices(), vec![0, 1, 2]);
    assert!(st.store.set_visible(&b"b".to_vec(), true));
    assert_eq!(st.store.visible_indices(), vec![0, 2]);
    // hidden, yet still listed
    assert_eq!(st.store.list_layers().len(), 3);
    assert!(st.store.set_visible(&b"b".to_vec(), false));
    assert_eq!(st.store.visible_indices(), vec![0, 1, 2]);
}

#[test]
fn appending_twice_keeps_indices_in_range() {
    let mut st = fresh();
    st.draw_line(
        b"a".to_vec(),
        bits(-0.1),
        bits(0.0),
        bits(0.1),
        bits(0.0),
        bits(0.001),
        bits(1.0),
        bits(0.0),
        bits(0.0),
        bits(1.0),
    );
    st.draw_line(
        b"a".to_vec(),
        bits(0.0),
        bits(0.1),
        bits(0.0),
        bits(-0.1),
        bits(0.001),
        bits(0.0),
        bits(1.0),
        bits(0.0),
        bits(1.0),
    );
    assert_eq!(st.store.entries.len(), 1);
    let layer = &st.store.entries[0].layer;
    assert_eq!(layer.verts.len(), 8);
    assert_eq!(layer.faces.len(), 4);
    for face in &layer.faces {
        for &i in &face.idxs {
            assert!((i as usize) < layer.verts.len());
        }
    }
    // the second call's triangles reference only its own four vertices
    for face in &layer.faces[2..] {
        for &i in &face.idxs {
            assert!(i >= 4 && i < 8);
        }
    }
}

#[test]
fn layer_queries_report_false_until_drawn() {
    let mut st = fresh();
    let name = b"a".to_vec();
    assert!(!st.store.delete_layer(&name));
    assert!(!st.store.set_visible(&name, true));
    assert!(!st.store.set_visible(&name, false));
    assert!(!st.store.set_layer_position(&name, bits(1.0), bits(2.0)));
    st.draw_line(
        name.clone(),
        bits(-0.1),
        bits(0.0),
        bits(0.1),
        bits(0.0),
        bits(0.001),
        bits(1.0),
        bits(0.0),
        bits(0.0),
        bits(1.0),
    );
    assert!(st.store.set_visible(&name, true));
    assert!(st.store.set_visible(&name, false));
    assert!(st.store.set_layer_position(&name, bits(1.0), bits(2.0)));
    assert!(st.store.delete_layer(&name));
    assert!(!st.store.delete_layer(&name));
}

#[test]
fn screen_center_maps_to_world_origin() {
    let st = fresh();
    let (wx, wy) = st.screen_to_world(bits(0.5), bits(0.5), bits(W), bits(H));
    assert!(val(wx).abs() < 1e-6);
    assert!(val(wy).abs() < 1e-6);
}

#[test]
fn screen_to_world_inverts_the_forward_transform() {
    let mut st = fresh();
    st.pan(bits(0.25), bits(-0.5));
    st.zoom(bits(2.0));
    let (wx, wy) = st.screen_to_world(bits(0.75), bits(0.25), bits(W), bits(H));
    // forward: clip = effective_projection * world
    let clip =
        mat(&st.calc_proj_matrix(bits(W), bits(H))) * glam::vec4(val(wx), val(wy), 0.0, 1.0);
    assert!((clip.x - (2.0 * 0.75 - 1.0)).abs() < 1e-5);
    assert!((clip.y - (1.0 - 2.0 * 0.25)).abs() < 1e-5);
}

#[test]
fn pan_round_trip_restores_the_effective_projection() {
    let mut st = fresh();
    st.zoom(bits(1.5));
    let before = st.calc_proj_matrix(bits(W), bits(H));
    st.pan(bits(0.3), bits(0.7));
    st.pan(bits(-0.3), bits(-0.7));
    let after = st.calc_proj_matrix(bits(W), bits(H));
    for k in 0..16 {
        assert!((val(before[k]) - val(after[k])).abs() < 1e-6);
    }
}

#[test]
fn end_to_end_draw_list_hide() {
    let mut st = fresh();
    let payload =
        draw_line_payload("a", [-0.1, 0.0, 0.1, 0.0, 0.001, 1.0, 0.0, 0.0, 1.0]);
    st.process_sub(&frame(1, payload)).unwrap();

    let reply = st
        .process_req(&frame(5, vec![]), bits(W), bits(H))
        .unwrap();
    assert_eq!(reply, serialize(&vec!["a".to_string()]));

    let reply = st
        .process_req(&frame(8, serialize(&"a".to_string())), bits(W), bits(H))
        .unwrap();
    assert_eq!(reply, vec![1u8]);
    assert!(st.store.entries[0].layer.is_hidden);

    // hidden, but still listed
    let reply = st
        .process_req(&frame(5, vec![]), bits(W), bits(H))
        .unwrap();
    assert_eq!(reply, serialize(&vec!["a".to_string()]));

    // and showable again
    let reply = st
        .process_req(&frame(7, serialize(&"a".to_string())), bits(W), bits(H))
        .unwrap();
    assert_eq!(reply, vec![1u8]);
    assert!(!st.store.entries[0].layer.is_hidden);
}

#[test]
fn fire_and_forget_pans_apply_in_arrival_order() {
    let mut st = fresh();
    let mut p1 = Vec::new();
    1.0f32.encode(&mut p1).unwrap();
    0.0f32.encode(&mut p1).unwrap();
    st.process_sub(&frame(2, p1)).unwrap();
    let mut p2 = Vec::new();
    0.0f32.encode(&mut p2).unwrap();
    1.0f32.encode(&mut p2).unwrap();
    st.process_sub(&frame(2, p2)).unwrap();
    let expected = glam::Mat4::IDENTITY
        * glam::Mat4::from_translation(glam::vec3(1.0, 0.0, 0.0))
        * glam::Mat4::from_translation(glam::vec3(0.0, 1.0, 0.0));
    assert_eq!(mat(&st.camera.proj), expected);
}

#[test]
fn zoom_scales_the_projection() {
    let mut st = fresh();
    st.process_sub(&frame(3, serialize(&2.0f32))).unwrap();
    let expected =
        glam::Mat4::IDENTITY * glam::Mat4::from_scale(glam::vec3(2.0, 2.0, 1.0));
    assert_eq!(mat(&st.camera.proj), expected);
}

#[test]
fn degenerate_draw_still_creates_the_layer() {
    let mut st = fresh();
    let payload =
        draw_line_payload("a", [0.0, 0.0, 0.0, 0.0, 0.001, 1.0, 0.0, 0.0, 1.0]);
    st.process_sub(&frame(1, payload)).unwrap();
    assert_eq!(st.store.entries.len(), 1);
    assert_eq!(st.store.entries[0].layer.verts.len(), 0);
    assert_eq!(st.store.entries[0].layer.faces.len(), 0);
}

#[test]
fn set_layer_pos_overwrites_the_transform() {
    let mut st = fresh();
    let payload =
        draw_line_payload("a", [-0.1, 0.0, 0.1, 0.0, 0.001, 1.0, 0.0, 0.0, 1.0]);
    st.process_sub(&frame(1, payload)).unwrap();

    let mut p = Vec::new();
    "a".encode(&mut p).unwrap();
    3.0f32.encode(&mut p).unwrap();
    4.0f32.encode(&mut p).unwrap();
    let reply = st.process_req(&frame(9, p), bits(W), bits(H)).unwrap();
    assert_eq!(reply, vec![1u8]);
    let expected = glam::Mat4::from_translation(glam::vec3(3.0, 4.0, 0.0));
    assert_eq!(mat(&st.store.entries[0].layer.model), expected);

    // overwritten, not composed
    let mut p = Vec::new();
    "a".encode(&mut p).unwrap();
    (-1.0f32).encode(&mut p).unwrap();
    2.0f32.encode(&mut p).unwrap();
    st.process_req(&frame(9, p), bits(W), bits(H)).unwrap();
    let expected = glam::Mat4::from_translation(glam::vec3(-1.0, 2.0, 0.0));
    assert_eq!(mat(&st.store.entries[0].layer.model), expected);
}

#[test]
fn hello_and_screen_size_replies() {
    let mut st = fresh();
    let reply = st
        .process_req(&frame(0, vec![]), bits(W), bits(H))
        .unwrap();
    assert_eq!(reply, serialize(&"hello"));

    let reply = st
        .process_req(&frame(10, vec![]), bits(W), bits(H))
        .unwrap();
    let mut expected = Vec::new();
    W.encode(&mut expected).unwrap();
    H.encode(&mut expected).unwrap();
    assert_eq!(reply, expected);
}

#[test]
fn screen_to_world_query_replies_world_coordinates() {
    let mut st = fresh();
    let mut p = Vec::new();
    0.5f32.encode(&mut p).unwrap();
    0.5f32.encode(&mut p).unwrap();
    let reply = st.process_req(&frame(4, p), bits(W), bits(H)).unwrap();
    assert_eq!(reply.len(), 8);
    let wx = f32::from_le_bytes(reply[0..4].try_into().unwrap());
    let wy = f32::from_le_bytes(reply[4..8].try_into().unwrap());
    assert!(wx.abs() < 1e-6);
    assert!(wy.abs() < 1e-6);
}

#[test]
fn malformed_frames_are_rejected_not_guessed() {
    let mut st = fresh();
    // wrong part count
    assert_eq!(
        st.process_req(&vec![vec![0u8]], bits(W), bits(H)),
        Err(FrameError::Shape)
    );
    // tag part not a single byte
    assert_eq!(
        st.process_req(&vec![vec![0u8, 0u8], vec![]], bits(W), bits(H)),
        Err(FrameError::Shape)
    );
    // unknown tag
    assert_eq!(
        st.process_req(&frame(11, vec![]), bits(W), bits(H)),
        Err(FrameError::UnknownTag)
    );
    // fire-and-forget command on the query channel
    assert_eq!(
        st.process_req(&frame(2, vec![]), bits(W), bits(H)),
        Err(FrameError::WrongClass)
    );
    // query command on the fire-and-forget channel
    assert_eq!(st.process_sub(&frame(0, vec![])), Err(FrameError::WrongClass));
    // the greeting takes no payload
    assert_eq!(
        st.process_req(&frame(0, vec![1u8]), bits(W), bits(H)),
        Err(FrameError::Payload)
    );
    // none of it reached the store
    assert!(st.store.entries.is_empty());
}

#[test]
fn bad_payloads_are_payload_errors() {
    let mut st = fresh();
    // delete-layer must consume its payload exactly
    let mut p = serialize(&"a".to_string());
    p.push(0);
    assert_eq!(
        st.process_req(&frame(6, p), bits(W), bits(H)),
        Err(FrameError::Payload)
    );
    // a layer name must be valid UTF-8
    assert_eq!(
        st.process_req(&frame(6, vec![0x01, 0xFF]), bits(W), bits(H)),
        Err(FrameError::Payload)
    );
    // a name length must be minimally encoded
    let mut p = vec![0xFD, 0x01, 0x00];
    p.push(b'a');
    assert_eq!(
        st.process_req(&frame(6, p), bits(W), bits(H)),
        Err(FrameError::Payload)
    );
    // pan needs two scalars
    assert_eq!(
        st.process_sub(&frame(2, vec![0u8; 7])),
        Err(FrameError::Payload)
    );
    // but, read field by field, it ignores trailing bytes
    assert!(st.process_sub(&frame(2, vec![0u8; 9])).is_ok());
    // zoom is decoded as one value and must consume everything
    assert_eq!(
        st.process_sub(&frame(3, vec![0u8; 5])),
        Err(FrameError::Payload)
    );
    // draw-line must consume everything
    let mut p = draw_line_payload("a", [0.0; 9]);
    p.push(0);
    assert_eq!(st.process_sub(&frame(1, p)), Err(FrameError::Payload));
}

#[test]
fn pointer_notifications_carry_world_coordinates() {
    let st = fresh();
    // the screen center is world origin for a fresh camera
    let event = st.mouse_motion_event(bits(W / 2.0), bits(H / 2.0), bits(W), bits(H));
    assert_eq!(event[0], 1);
    assert_eq!(event.len(), 9);
    let wx = f32::from_le_bytes(event[1..5].try_into().unwrap());
    let wy = f32::from_le_bytes(event[5..9].try_into().unwrap());
    assert!(wx.abs() < 1e-6);
    assert!(wy.abs() < 1e-6);

    let event = st.mouse_button_down_event(0, bits(W / 2.0), bits(H / 2.0), bits(W), bits(H));
    assert_eq!(event[0], 3);
    assert_eq!(event[1], 0);
    let wx = f32::from_le_bytes(event[2..6].try_into().unwrap());
    assert!(wx.abs() < 1e-6);

    let event = st.mouse_button_up_event(1, bits(W / 2.0), bits(H / 2.0), bits(W), bits(H));
    assert_eq!(event[0], 4);
    assert_eq!(event[1], 1);

    let event = st.mouse_wheel_event(bits(0.0), bits(1.0));
    let mut expected = Vec::new();
    2u8.encode(&mut expected).unwrap();
    0.0f32.encode(&mut expected).unwrap();
    1.0f32.encode(&mut expected).unwrap();
    assert_eq!(event, expected);
}

#[test]
fn layer_list_keeps_creation_order() {
    let mut st = fresh();
    for name in ["c", "a", "b"] {
        let payload =
            draw_line_payload(name, [-0.1, 0.0, 0.1, 0.0, 0.001, 1.0, 0.0, 0.0, 1.0]);
        st.process_sub(&frame(1, payload)).unwrap();
    }
    let names = st.store.list_layers();
    assert_eq!(names, vec![b"c".to_vec(), b"a".to_vec(), b"b".to_vec()]);
    // deleting the middle layer keeps the others' order
    assert!(st.store.delete_layer(&b"a".to_vec()));
    let names = st.store.list_layers();
    assert_eq!(names, vec![b"c".to_vec(), b"b".to_vec()]);
}
