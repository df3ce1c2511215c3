use mgstudio_render::actions::{DrawItem, GpuAction, RenderError};
use mgstudio_render::backend::{
    CameraInput, GpuBackend, SpriteArith, SpritePrep, FALLBACK_TEXTURE_HANDLE,
    SURFACE_TARGET_HANDLE, TEXTURE_FORMAT_BGRA8_SRGB, TEXTURE_FORMAT_RGBA8,
};
use mgstudio_render::fbits::ColorBits;

fn white() -> ColorBits {
    let one = 1.0f32.to_bits();
    ColorBits { r: one, g: one, b: one, a: one }
}

fn black() -> ColorBits {
    let z = 0.0f32.to_bits();
    let one = 1.0f32.to_bits();
    ColorBits { r: z, g: z, b: z, a: one }
}

fn camera(x: f32, y: f32, rot: f32, scale: f32, w: i32, h: i32) -> CameraInput {
    let eff = if scale == 0.0 { 1.0 } else { scale };
    let wl = w.max(1) as f32;
    let hl = h.max(1) as f32;
    CameraInput {
        x: x.to_bits(),
        y: y.to_bits(),
        rotation: rot.to_bits(),
        scale: scale.to_bits(),
        rot_cos: (-rot).cos().to_bits(),
        rot_sin: (-rot).sin().to_bits(),
        width_bits: wl.to_bits(),
        height_bits: hl.to_bits(),
        proj_x: (2.0 / wl / eff).to_bits(),
        proj_y: (2.0 / hl / eff).to_bits(),
    }
}

fn sprite_arith(rot: f32, sx: f32, sy: f32, tex_w: u32, tex_h: u32, prep: &SpritePrep) -> SpriteArith {
    let su = f32::from_bits(prep.uv_scale_x);
    let sv = f32::from_bits(prep.uv_scale_y);
    let region_x = tex_w as f32 * su;
    let region_y = tex_h as f32 * sv;
    SpriteArith {
        rotation_cos: rot.cos().to_bits(),
        rotation_sin: rot.sin().to_bits(),
        region_x: region_x.to_bits(),
        region_y: region_y.to_bits(),
        scale_region_x: (sx * (region_x / 128.0)).to_bits(),
        scale_region_y: (sy * (region_y / 128.0)).to_bits(),
        scale_unit_x: (sx * 1.0).to_bits(),
        scale_unit_y: (sy * 1.0).to_bits(),
    }
}

fn ready_backend() -> GpuBackend {
    let mut b = GpuBackend::new(256);
    b.set_surface();
    b.configure_surface(800, 600, TEXTURE_FORMAT_BGRA8_SRGB);
    b.begin_frame(true);
    let _ = b.take_actions();
    b
}

fn draw_one(b: &mut GpuBackend, tex: i32) {
    let prep = b
        .prepare_sprite(tex, (0.0f32.to_bits(), 0.0f32.to_bits()), (1.0f32.to_bits(), 1.0f32.to_bits()), (1.0f32.to_bits(), 1.0f32.to_bits()))
        .expect("frame is open");
    let arith = sprite_arith(0.0, 1.0, 1.0, prep.tex_width, prep.tex_height, &prep);
    b.draw_sprite_uv(prep, 100.0f32.to_bits(), 100.0f32.to_bits(), white(), (0.0f32.to_bits(), 0.0f32.to_bits()), arith);
}

fn recorded_pass(actions: &[GpuAction]) -> Option<&GpuAction> {
    actions.iter().find(|a| matches!(a, GpuAction::RecordPass { .. }))
}

#[test]
fn same_texture_draws_form_one_batch() {
    let mut b = ready_backend();
    let tex = b.create_texture_rgba8(2, 2, &[7u8; 16], false);
    assert!(tex >= 1);
    b.begin_pass(SURFACE_TARGET_HANDLE, black(), camera(0.0, 0.0, 0.0, 1.0, 800, 600), (0, 0, 800, 600))
        .unwrap();
    for _ in 0..5 {
        draw_one(&mut b, tex);
    }
    b.end_pass();
    let actions = b.take_actions();
    let record = recorded_pass(&actions).expect("a pass was recorded");
    if let GpuAction::RecordPass { record } = record {
        assert_eq!(record.draws.len(), 1);
        match record.draws[0] {
            DrawItem::SpriteBatch { texture_id, first_instance, instance_count, .. } => {
                assert_eq!(texture_id, tex);
                assert_eq!(first_instance, 0);
                assert_eq!(instance_count, 5);
            }
            _ => panic!("expected a sprite batch"),
        }
    }
}

#[test]
fn alternating_textures_form_one_batch_each() {
    let mut b = ready_backend();
    let ta = b.create_texture_rgba8(1, 1, &[1u8; 4], false);
    let tb = b.create_texture_rgba8(1, 1, &[2u8; 4], false);
    assert_ne!(ta, tb);
    b.begin_pass(SURFACE_TARGET_HANDLE, black(), camera(0.0, 0.0, 0.0, 1.0, 800, 600), (0, 0, 800, 600))
        .unwrap();
    let n = 6;
    for i in 0..n {
        draw_one(&mut b, if i % 2 == 0 { ta } else { tb });
    }
    b.end_pass();
    let actions = b.take_actions();
    if let Some(GpuAction::RecordPass { record }) = recorded_pass(&actions) {
        assert_eq!(record.draws.len(), n);
        for (i, d) in record.draws.iter().enumerate() {
            match d {
                DrawItem::SpriteBatch { texture_id, first_instance, instance_count, .. } => {
                    assert_eq!(*texture_id, if i % 2 == 0 { ta } else { tb });
                    assert_eq!(*first_instance, i as u32);
                    assert_eq!(*instance_count, 1);
                }
                _ => panic!("expected sprite batches only"),
            }
        }
    } else {
        panic!("a pass was recorded");
    }
}

#[test]
fn degenerate_uv_rectangle_defaults_scale_to_one() {
    let mut b = ready_backend();
    // uv_max equal to uv_min on both axes: the raw extent is ignored.
    let prep = b
        .prepare_sprite(
            1,
            (0.25f32.to_bits(), 0.75f32.to_bits()),
            (0.25f32.to_bits(), 0.25f32.to_bits()),
            ((0.25f32 - 0.25f32).to_bits(), (0.25f32 - 0.75f32).to_bits()),
        )
        .unwrap();
    assert_eq!(prep.uv_scale_x, 1.0f32.to_bits());
    assert_eq!(prep.uv_scale_y, 1.0f32.to_bits());
    // A proper rectangle keeps its raw extent.
    let prep2 = b
        .prepare_sprite(
            1,
            (0.25f32.to_bits(), 0.25f32.to_bits()),
            (0.75f32.to_bits(), 0.5f32.to_bits()),
            ((0.75f32 - 0.25f32).to_bits(), (0.5f32 - 0.25f32).to_bits()),
        )
        .unwrap();
    assert_eq!(prep2.uv_scale_x, 0.5f32.to_bits());
    assert_eq!(prep2.uv_scale_y, 0.25f32.to_bits());
}

#[test]
fn zero_camera_scale_matches_scale_of_one() {
    let run = |scale: f32| -> Vec<u32> {
        let mut b = ready_backend();
        b.begin_pass(SURFACE_TARGET_HANDLE, black(), camera(3.0, 4.0, 0.5, scale, 800, 600), (0, 0, 800, 600))
            .unwrap();
        for a in b.take_actions() {
            if let GpuAction::WriteSpriteGlobals { words } = a {
                return words;
            }
        }
        panic!("pass globals were written");
    };
    let with_zero = run(0.0);
    let with_one = run(1.0);
    assert_eq!(with_zero, with_one);
}

#[test]
fn mesh_triangles_truncate_to_multiple_of_three() {
    let mut b = GpuBackend::new(256);
    // Four vertices: truncated down to one triangle.
    let coords: Vec<u32> = vec![0.0f32, 0.0, 1.0, 0.0, 1.0, 1.0, 0.0, 1.0]
        .into_iter()
        .map(f32::to_bits)
        .collect();
    let id = b.create_mesh_triangles_xy(&coords);
    assert!(id >= 1);
    let actions = b.take_actions();
    assert_eq!(actions.len(), 1);
    match &actions[0] {
        GpuAction::CreateMesh { vertex_words, indices, .. } => {
            assert_eq!(vertex_words.len(), 6);
            assert_eq!(vertex_words.as_slice(), &coords[..6]);
            assert_eq!(indices.as_slice(), &[0u16, 1, 2]);
        }
        _ => panic!("expected a mesh creation"),
    }
}

#[test]
fn mesh_triangles_reject_empty_and_oversized() {
    let mut b = GpuBackend::new(256);
    assert_eq!(b.create_mesh_triangles_xy(&[]), 0);
    // Two vertices: usable count is zero.
    assert_eq!(b.create_mesh_triangles_xy(&[0, 0, 0, 0]), 0);
    // 65,538 vertices: usable count 65,538 exceeds the 16-bit index limit.
    let big = vec![0u32; 65538 * 2];
    assert_eq!(b.create_mesh_triangles_xy(&big), 0);
    assert!(b.take_actions().is_empty());
}

#[test]
fn mesh_rectangle_builds_two_triangles() {
    let mut b = GpuBackend::new(256);
    let hw = 8.0f32.to_bits();
    let hh = 2.0f32.to_bits();
    let id = b.create_mesh_rectangle(hw, hh);
    assert_eq!(id, 1);
    let actions = b.take_actions();
    match &actions[0] {
        GpuAction::CreateMesh { vertex_words, indices, .. } => {
            let nw = (-8.0f32).to_bits();
            let nh = (-2.0f32).to_bits();
            assert_eq!(vertex_words.as_slice(), &[nw, nh, hw, nh, hw, hh, nw, hh]);
            assert_eq!(indices.as_slice(), &[0u16, 1, 2, 0, 2, 3]);
        }
        _ => panic!("expected a mesh creation"),
    }
}

#[test]
fn end_frame_with_open_pass_matches_explicit_end_pass() {
    let run = |explicit: bool| -> Vec<String> {
        let mut b = ready_backend();
        let tex = b.create_texture_rgba8(2, 2, &[9u8; 16], true);
        b.begin_pass(SURFACE_TARGET_HANDLE, black(), camera(0.0, 0.0, 0.0, 1.0, 800, 600), (0, 0, 800, 600))
            .unwrap();
        draw_one(&mut b, tex);
        if explicit {
            b.end_pass();
        }
        b.end_frame();
        b.take_actions().iter().map(|a| format!("{a:?}")).collect()
    };
    assert_eq!(run(false), run(true));
}

#[test]
fn short_pixel_buffer_leaves_texture_unchanged() {
    let mut b = GpuBackend::new(256);
    let tex = b.create_texture_rgba8(4, 4, &[3u8; 64], false);
    let _ = b.take_actions();
    // 4 * 4 * 4 = 64 bytes are needed; 63 are supplied.
    b.write_texture_region_rgba8(tex, 0, 0, 4, 4, &[1u8; 63]);
    assert!(b.take_actions().is_empty());
    assert_eq!(b.texture_width(tex), 4);
    assert_eq!(b.texture_height(tex), 4);
    // A full buffer goes through, clipped to exactly the needed bytes.
    b.write_texture_region_rgba8(tex, 1, 1, 2, 2, &[5u8; 20]);
    let actions = b.take_actions();
    assert_eq!(actions.len(), 1);
    match &actions[0] {
        GpuAction::WriteTextureRegion { id, x, y, width, height, pixels } => {
            assert_eq!((*id, *x, *y, *width, *height), (tex, 1, 1, 2, 2));
            assert_eq!(pixels.len(), 16);
        }
        _ => panic!("expected a region write"),
    }
}

#[test]
fn missing_texture_draw_uses_fallback_without_registering() {
    let mut b = ready_backend();
    let zero = 0.0f32.to_bits();
    let one = 1.0f32.to_bits();
    let prep = b
        .prepare_sprite(5, (zero, zero), (one, one), (one, one))
        .unwrap();
    assert_eq!(prep.texture, FALLBACK_TEXTURE_HANDLE);
    assert_eq!((prep.tex_width, prep.tex_height), (1, 1));
    // The missing handle never became a registry entry.
    assert!(!b.is_texture_loaded(5));
    assert_eq!(b.texture_width(5), 0);
    let actions = b.take_actions();
    assert!(matches!(actions.as_slice(), [GpuAction::CreateFallbackTexture]));
    // The fallback is created once only.
    let _ = b.prepare_sprite(6, (zero, zero), (one, one), (one, one)).unwrap();
    assert!(b.take_actions().is_empty());
}

#[test]
fn absent_texture_scenario_records_one_fallback_batch() {
    // One frame, one pass on the surface, one sprite against an absent
    // handle: no error, one batch on the fallback texture, one draw of
    // the six-vertex quad with a single instance.
    let mut b = GpuBackend::new(256);
    b.set_surface();
    b.configure_surface(800, 600, TEXTURE_FORMAT_BGRA8_SRGB);
    b.begin_frame(true);
    b.begin_pass(
        SURFACE_TARGET_HANDLE,
        black(),
        camera(0.0, 0.0, 0.0, 1.0, 800, 600),
        (0, 0, 800, 600),
    )
    .unwrap();
    draw_one(&mut b, 5);
    b.end_pass();
    b.end_frame();
    let actions = b.take_actions();
    let record = recorded_pass(&actions).expect("a pass was recorded");
    if let GpuAction::RecordPass { record } = record {
        assert_eq!(record.target_id, SURFACE_TARGET_HANDLE);
        assert_eq!(record.segments.len(), 1);
        assert_eq!(record.draws.len(), 1);
        assert!(matches!(
            record.draws[0],
            DrawItem::SpriteBatch {
                texture_id: FALLBACK_TEXTURE_HANDLE,
                first_instance: 0,
                instance_count: 1,
                ..
            }
        ));
    }
    assert!(actions.iter().any(|a| matches!(a, GpuAction::SubmitFrame { present: true })));
}

#[test]
fn copy_texture_clips_to_destination_space() {
    let mut b = GpuBackend::new(256);
    let dst = b.create_texture_rgba8(4, 4, &[0u8; 64], false);
    let src = b.create_texture_rgba8(8, 8, &[0u8; 256], false);
    let _ = b.take_actions();
    b.copy_texture_to_texture(dst, 1, 2, src);
    let actions = b.take_actions();
    match &actions[0] {
        GpuAction::CopyTexture { src_id, dst_id, dst_x, dst_y, width, height } => {
            assert_eq!((*src_id, *dst_id, *dst_x, *dst_y), (src, dst, 1, 2));
            // Source is 8x8 but only 3x2 texels remain from (1, 2) in a 4x4 target.
            assert_eq!((*width, *height), (3, 2));
        }
        _ => panic!("expected a texture copy"),
    }
    // A copy with nothing left to cover is absorbed.
    b.copy_texture_to_texture(dst, 4, 0, src);
    assert!(b.take_actions().is_empty());
}

#[test]
fn sampler_change_rebuilds_binding() {
    let mut b = GpuBackend::new(256);
    let tex = b.create_texture_rgba8(1, 1, &[0u8; 4], false);
    let _ = b.take_actions();
    b.set_texture_sampler(tex, 1);
    let actions = b.take_actions();
    assert!(matches!(
        actions.as_slice(),
        [GpuAction::SetTextureSampler { nearest: true, .. }]
    ));
    // An unknown handle is absorbed (the sprite resources were already built).
    b.set_texture_sampler(999, 0);
    assert!(b.take_actions().is_empty());
}

#[test]
fn begin_pass_against_missing_target_is_the_hard_error() {
    let mut b = ready_backend();
    let r = b.begin_pass(77, black(), camera(0.0, 0.0, 0.0, 1.0, 64, 64), (0, 0, 64, 64));
    assert_eq!(r, Err(RenderError::MissingRenderTarget { target_id: 77 }));
    // Against an existing render target it succeeds with the registry format.
    let rt = b.create_render_target(64, 64, false);
    b.begin_pass(rt, black(), camera(0.0, 0.0, 0.0, 1.0, 64, 64), (0, 0, 64, 64)).unwrap();
    b.end_pass();
    let actions = b.take_actions();
    if let Some(GpuAction::RecordPass { record }) = recorded_pass(&actions) {
        assert_eq!(record.target_id, rt);
        assert_eq!(record.format, TEXTURE_FORMAT_RGBA8);
    } else {
        panic!("a pass was recorded");
    }
}

#[test]
fn unconfigured_surface_target_is_rejected() {
    let mut b = GpuBackend::new(256);
    b.set_surface();
    b.begin_frame(true);
    let r = b.begin_pass(SURFACE_TARGET_HANDLE, black(), camera(0.0, 0.0, 0.0, 1.0, 8, 8), (0, 0, 8, 8));
    assert_eq!(r, Err(RenderError::SurfaceNotConfigured));
}

#[test]
fn draws_outside_a_pass_are_absorbed() {
    let mut b = ready_backend();
    // No pass is open: the draw is a no-op, not an error.
    let prep = b
        .prepare_sprite(1, (0, 0), (0, 0), (0, 0))
        .unwrap();
    let arith = sprite_arith(0.0, 1.0, 1.0, prep.tex_width, prep.tex_height, &prep);
    b.draw_sprite_uv(prep, 0, 0, white(), (0, 0), arith);
    b.draw_mesh(1, 0, 0, 0, 0, 0, 0, white());
    b.end_frame();
    let actions = b.take_actions();
    assert!(recorded_pass(&actions).is_none());
    assert!(actions.iter().any(|a| matches!(a, GpuAction::SubmitFrame { present: true })));
}
