use mgstudio_render::actions::{DrawItem, GpuAction};
use mgstudio_render::backend::{
    CameraInput, GpuBackend, SpriteArith, SURFACE_TARGET_HANDLE, TEXTURE_FORMAT_BGRA8_SRGB,
};
use mgstudio_render::fbits::ColorBits;

fn color(v: f32) -> ColorBits {
    let b = v.to_bits();
    ColorBits { r: b, g: b, b: b, a: b }
}

fn still_camera(w: i32, h: i32) -> CameraInput {
    let wl = w.max(1) as f32;
    let hl = h.max(1) as f32;
    CameraInput {
        x: 0.0f32.to_bits(),
        y: 0.0f32.to_bits(),
        rotation: 0.0f32.to_bits(),
        scale: 1.0f32.to_bits(),
        rot_cos: (-0.0f32).cos().to_bits(),
        rot_sin: (-0.0f32).sin().to_bits(),
        width_bits: wl.to_bits(),
        height_bits: hl.to_bits(),
        proj_x: (2.0 / wl / 1.0).to_bits(),
        proj_y: (2.0 / hl / 1.0).to_bits(),
    }
}

fn open_pass(b: &mut GpuBackend) {
    b.set_surface();
    b.configure_surface(320, 240, TEXTURE_FORMAT_BGRA8_SRGB);
    b.begin_frame(true);
    b.begin_pass(SURFACE_TARGET_HANDLE, color(0.0), still_camera(320, 240), (0, 0, 320, 240))
        .unwrap();
}

fn plain_sprite(b: &mut GpuBackend, tex: i32) {
    let zero = 0.0f32.to_bits();
    let one = 1.0f32.to_bits();
    let prep = b.prepare_sprite(tex, (zero, zero), (one, one), (one, one)).unwrap();
    let region = prep.tex_width as f32 * f32::from_bits(prep.uv_scale_x);
    let arith = SpriteArith {
        rotation_cos: one,
        rotation_sin: zero,
        region_x: region.to_bits(),
        region_y: region.to_bits(),
        scale_region_x: (region / 128.0).to_bits(),
        scale_region_y: (region / 128.0).to_bits(),
        scale_unit_x: one,
        scale_unit_y: one,
    };
    b.draw_sprite_uv(prep, zero, zero, color(1.0), (zero, zero), arith);
}

#[test]
fn mesh_uniform_blocks_sit_at_alignment_strides() {
    let mut b = GpuBackend::new(256);
    let mesh = b.create_mesh_rectangle(4.0f32.to_bits(), 4.0f32.to_bits());
    open_pass(&mut b);
    let one = 1.0f32.to_bits();
    let zero = 0.0f32.to_bits();
    let x1 = 11.5f32.to_bits();
    let x2 = 99.0f32.to_bits();
    b.draw_mesh(mesh, x1, zero, one, zero, one, one, color(1.0));
    b.draw_mesh(mesh, x2, zero, one, zero, one, one, color(0.5));
    b.end_pass();
    let actions = b.take_actions();
    let mut upload: Option<&Vec<u8>> = None;
    let mut offsets: Vec<u32> = Vec::new();
    for a in &actions {
        match a {
            GpuAction::UploadUniform { bytes } => upload = Some(bytes),
            GpuAction::RecordPass { record } => {
                for d in &record.draws {
                    if let DrawItem::MeshDraw { uniform_offset, index_count, mesh_id } = d {
                        assert_eq!(*mesh_id, mesh);
                        assert_eq!(*index_count, 6);
                        offsets.push(*uniform_offset);
                    }
                }
            }
            _ => {}
        }
    }
    let bytes = upload.expect("uniform bytes were uploaded");
    // One 256-byte stride per mesh draw, 80 bytes of payload each.
    assert_eq!(bytes.len(), 512);
    assert_eq!(offsets, vec![0, 256]);
    // Each block leads with the draw position.
    assert_eq!(&bytes[0..4], &x1.to_le_bytes());
    assert_eq!(&bytes[256..260], &x2.to_le_bytes());
    // The padding after the 80-byte block is zero.
    assert!(bytes[80..256].iter().all(|&v| v == 0));
}

#[test]
fn interleaved_draws_keep_submission_order() {
    let mut b = GpuBackend::new(256);
    let mesh = b.create_mesh_rectangle(1.0f32.to_bits(), 1.0f32.to_bits());
    let tex = b.create_texture_rgba8(1, 1, &[8u8; 4], false);
    open_pass(&mut b);
    let one = 1.0f32.to_bits();
    let zero = 0.0f32.to_bits();
    plain_sprite(&mut b, tex);
    plain_sprite(&mut b, tex);
    b.draw_mesh(mesh, zero, zero, one, zero, one, one, color(1.0));
    plain_sprite(&mut b, tex);
    b.end_pass();
    let actions = b.take_actions();
    let record = actions
        .iter()
        .find_map(|a| match a {
            GpuAction::RecordPass { record } => Some(record),
            _ => None,
        })
        .expect("a pass was recorded");
    // Two segments: the sprites before the mesh, and the one after.
    assert_eq!(record.segments.len(), 2);
    assert_eq!(record.segments[0].offset_bytes, 0);
    assert_eq!(record.segments[0].size_bytes, 2 * 16 * 4);
    assert_eq!(record.segments[1].offset_bytes, 2 * 16 * 4);
    assert_eq!(record.segments[1].size_bytes, 16 * 4);
    assert_eq!(record.draws.len(), 3);
    assert!(matches!(
        record.draws[0],
        DrawItem::SpriteBatch { segment: 0, first_instance: 0, instance_count: 2, .. }
    ));
    assert!(matches!(record.draws[1], DrawItem::MeshDraw { uniform_offset: 0, .. }));
    assert!(matches!(
        record.draws[2],
        DrawItem::SpriteBatch { segment: 1, first_instance: 0, instance_count: 1, .. }
    ));
}

#[test]
fn instance_buffer_grows_to_exact_requirement() {
    let mut b = GpuBackend::new(256);
    let tex = b.create_texture_rgba8(1, 1, &[8u8; 4], false);
    open_pass(&mut b);
    // 1025 sprites need 65,600 bytes: past the 65,536-byte initial size.
    for _ in 0..1025 {
        plain_sprite(&mut b, tex);
    }
    b.end_pass();
    let actions = b.take_actions();
    let mut grew = None;
    let mut uploaded = None;
    for a in &actions {
        match a {
            GpuAction::GrowInstanceBuffer { size_bytes } => grew = Some(*size_bytes),
            GpuAction::UploadInstances { words } => uploaded = Some(words.len()),
            _ => {}
        }
    }
    assert_eq!(grew, Some(1025 * 16 * 4));
    assert_eq!(uploaded, Some(1025 * 16));
    // A second pass of the same size reuses the grown buffer.
    b.begin_frame(true);
    b.begin_pass(SURFACE_TARGET_HANDLE, color(0.0), still_camera(320, 240), (0, 0, 320, 240))
        .unwrap();
    for _ in 0..1025 {
        plain_sprite(&mut b, tex);
    }
    b.end_pass();
    let actions = b.take_actions();
    assert!(!actions.iter().any(|a| matches!(a, GpuAction::GrowInstanceBuffer { .. })));
}

#[test]
fn dropped_pass_still_uploads_but_records_nothing() {
    // The frame acquired no presentable image: the pass's uploads are
    // queued, but no render pass is recorded and no error raised.
    let mut b = GpuBackend::new(256);
    let tex = b.create_texture_rgba8(1, 1, &[8u8; 4], false);
    b.set_surface();
    b.configure_surface(320, 240, TEXTURE_FORMAT_BGRA8_SRGB);
    b.begin_frame(false);
    b.begin_pass(SURFACE_TARGET_HANDLE, color(0.0), still_camera(320, 240), (0, 0, 320, 240))
        .unwrap();
    plain_sprite(&mut b, tex);
    b.end_pass();
    b.end_frame();
    let actions = b.take_actions();
    assert!(actions.iter().any(|a| matches!(a, GpuAction::UploadInstances { .. })));
    assert!(!actions.iter().any(|a| matches!(a, GpuAction::RecordPass { .. })));
    assert!(actions.iter().any(|a| matches!(a, GpuAction::SubmitFrame { present: false })));
}

#[test]
fn sprite_record_layout_is_sixteen_words() {
    let mut b = GpuBackend::new(256);
    let tex = b.create_texture_rgba8(64, 32, &[1u8; 64 * 32 * 4], false);
    open_pass(&mut b);
    let zero = 0.0f32.to_bits();
    let x = 10.0f32.to_bits();
    let y = 20.0f32.to_bits();
    let umin = (0.25f32.to_bits(), 0.5f32.to_bits());
    let umax = (0.75f32.to_bits(), 1.0f32.to_bits());
    let raw = ((0.75f32 - 0.25f32).to_bits(), (1.0f32 - 0.5f32).to_bits());
    let prep = b.prepare_sprite(tex, umin, umax, raw).unwrap();
    assert_eq!((prep.tex_width, prep.tex_height), (64, 32));
    let region_x = 64.0f32 * 0.5;
    let region_y = 32.0f32 * 0.5;
    let arith = SpriteArith {
        rotation_cos: 1.0f32.to_bits(),
        rotation_sin: zero,
        region_x: region_x.to_bits(),
        region_y: region_y.to_bits(),
        scale_region_x: (2.0f32 * (region_x / 128.0)).to_bits(),
        scale_region_y: (2.0f32 * (region_y / 128.0)).to_bits(),
        scale_unit_x: 2.0f32.to_bits(),
        scale_unit_y: 2.0f32.to_bits(),
    };
    b.draw_sprite_uv(prep, x, y, color(1.0), umin, arith);
    b.end_pass();
    let actions = b.take_actions();
    let words = actions
        .iter()
        .find_map(|a| match a {
            GpuAction::UploadInstances { words } => Some(words),
            _ => None,
        })
        .expect("instances were uploaded");
    assert_eq!(words.len(), 16);
    assert_eq!(words[0], x);
    assert_eq!(words[1], y);
    assert_eq!(words[2], 1.0f32.to_bits());
    assert_eq!(words[3], zero);
    // The regions are positive, so the region-derived scale is taken.
    assert_eq!(words[4], (2.0f32 * (region_x / 128.0)).to_bits());
    assert_eq!(words[5], (2.0f32 * (region_y / 128.0)).to_bits());
    assert_eq!(words[12], umin.0);
    assert_eq!(words[13], umin.1);
    assert_eq!(words[14], 0.5f32.to_bits());
    assert_eq!(words[15], 0.5f32.to_bits());
}
