//! The backend state machine: frames, passes, draws and the resource
//! registry, as verified decision logic over plain values.
//!
//! Every public method mirrors one host command. A method updates the
//! model state and appends [`GpuAction`] values for the executor; it never
//! touches a device. Scalar arithmetic the backend cannot perform (the
//! host float unit's subtractions, products, quotients and trigonometry)
//! is handed in as argument bit patterns, and every decision taken on such
//! a value — which branch, which batch, which buffer size — is verified
//! here.

use vstd::prelude::*;
use vstd::std_specs::hash::obeys_key_model;
use std::collections::HashMap;

use crate::actions::{
    ActionModel, DrawItem, GpuAction, PassRecord, PassRecordModel, RenderError, SegmentRange,
};
use crate::fbits::{
    f32_bits_gt_zero, f32_bits_is_zero, f32_bits_le, spec_f32_bits_gt_zero, spec_f32_bits_is_zero,
    spec_f32_bits_le, spec_f32_bits_neg, ColorBits, F32_ONE_BITS, F32_ZERO_BITS,
};
use crate::sprite::{
    lemma_batch_total_nonneg, spec_push_sprite, SegmentModel, SpriteBatch, SpriteSegment,
};

verus! {

broadcast use vstd::std_specs::hash::group_hash_axioms;

/// Format code of the registry texture format (8-bit RGBA, linear).
pub const TEXTURE_FORMAT_RGBA8: u32 = 1;

/// Format code of the 8-bit BGRA sRGB surface format.
pub const TEXTURE_FORMAT_BGRA8_SRGB: u32 = 2;

/// Format code of the 8-bit RGBA sRGB surface format.
pub const TEXTURE_FORMAT_RGBA8_SRGB: u32 = 3;

/// Target handle reserved for the presentable surface.
pub const SURFACE_TARGET_HANDLE: i32 = -1;

/// Handle reserved for the 1x1 opaque-white fallback texture. It is never
/// a registry entry: positive handles belong to created resources, and a
/// draw against an absent handle substitutes this one.
pub const FALLBACK_TEXTURE_HANDLE: i32 = 0;

/// Initial size of the sprite instance buffer, in bytes.
pub const INSTANCE_BUFFER_INITIAL_BYTES: u64 = 65536;

/// Floor for a reallocated sprite instance buffer, in bytes.
pub const INSTANCE_BUFFER_FLOOR_BYTES: u64 = 256;

/// Initial size of the mesh uniform buffer, in bytes.
pub const UNIFORM_BUFFER_INITIAL_BYTES: u64 = 256;

/// Floor for the effective uniform-offset alignment, in bytes.
pub const UNIFORM_ALIGN_FLOOR: u64 = 256;

/// Byte size of one mesh uniform block (20 words).
pub const MESH_UNIFORM_BLOCK_BYTES: u64 = 80;

/// Capacity bound on commands recorded per pass; draws past it are dropped.
pub const MAX_PASS_COMMANDS: usize = 0x0100_0000;

/// A registry texture: dimensions, filter mode, and whether it can serve
/// as a render target. All registry textures use the RGBA8 format.
#[derive(Clone, Copy, Debug, PartialEq, Eq, Structural)]
pub struct TextureInfo {
    pub width: u32,
    pub height: u32,
    pub nearest: bool,
    pub render_target: bool,
}

/// A registry mesh: vertex and index counts; buffers are immutable after
/// creation.
#[derive(Clone, Copy, Debug, PartialEq, Eq, Structural)]
pub struct MeshInfo {
    pub vertex_count: u32,
    pub index_count: u32,
}

/// The transient frame: whether a presentable image was acquired.
#[derive(Clone, Copy, Debug, PartialEq, Eq, Structural)]
pub struct FrameState {
    pub has_surface_view: bool,
}

/// Sprite renderer bookkeeping: which device objects exist and how large
/// the instance buffer currently is.
#[derive(Clone, Copy, Debug, PartialEq, Eq, Structural)]
pub struct SpriteEngine {
    /// Layouts, globals and instance buffers, and the RGBA8 pipeline exist.
    pub resources_ready: bool,
    /// The surface-format sprite pipeline exists for this format code.
    pub surface_pipeline_format: Option<u32>,
    /// Current instance buffer size in bytes.
    pub instance_capacity: u64,
}

/// Mesh renderer bookkeeping.
#[derive(Debug)]
pub struct MeshEngine {
    /// Uniform layout, buffer and binding exist.
    pub resources_ready: bool,
    /// Format codes a mesh pipeline exists for.
    pub pipeline_formats: Vec<u32>,
    /// Current uniform buffer size in bytes.
    pub uniform_capacity: u64,
}

/// Ghost mirror of [`MeshEngine`]; the pipeline formats become a set.
pub struct MeshEngineModel {
    pub resources_ready: bool,
    pub pipeline_formats: Set<u32>,
    pub uniform_capacity: u64,
}

impl View for MeshEngine {
    type V = MeshEngineModel;

    open spec fn view(&self) -> MeshEngineModel {
        MeshEngineModel {
            resources_ready: self.resources_ready,
            pipeline_formats: self.pipeline_formats@.to_set(),
            uniform_capacity: self.uniform_capacity,
        }
    }
}

/// Everything a pass snapshots at `begin_pass`, immutable once set.
#[derive(Clone, Copy, Debug, PartialEq, Eq, Structural)]
pub struct PassState {
    pub target_id: i32,
    pub target_format: u32,
    /// Clear color.
    pub clear: ColorBits,
    pub camera_x: u32,
    pub camera_y: u32,
    pub camera_rot: u32,
    /// Effective camera scale: a zero input is replaced by one.
    pub camera_scale: u32,
    /// Cosine and sine of the negated camera rotation.
    pub cam_cos: u32,
    pub cam_sin: u32,
    /// Projection scale per axis: zero when the logical size is degenerate.
    pub proj_x: u32,
    pub proj_y: u32,
    /// Logical size as scalar bits (clamped to at least one).
    pub width_logical: u32,
    pub height_logical: u32,
    /// Physical viewport/scissor rectangle.
    pub viewport_x: u32,
    pub viewport_y: u32,
    pub viewport_w: u32,
    pub viewport_h: u32,
}

/// One mesh draw command, recorded in submission order.
#[derive(Clone, Copy, Debug, PartialEq, Eq, Structural)]
pub struct MeshDraw {
    pub mesh_id: i32,
    pub x: u32,
    pub y: u32,
    /// Cosine and sine of the draw rotation.
    pub rotation_cos: u32,
    pub rotation_sin: u32,
    pub scale_x: u32,
    pub scale_y: u32,
    pub color: ColorBits,
}

/// One recorded draw command of a pass.
#[derive(Debug)]
pub enum DrawCmd {
    Sprites(SpriteSegment),
    Mesh(MeshDraw),
}

/// Ghost mirror of [`DrawCmd`].
pub enum DrawCmdModel {
    Sprites(SegmentModel),
    Mesh(MeshDraw),
}

impl View for DrawCmd {
    type V = DrawCmdModel;

    open spec fn view(&self) -> DrawCmdModel {
        match self {
            DrawCmd::Sprites(seg) => DrawCmdModel::Sprites(seg@),
            DrawCmd::Mesh(d) => DrawCmdModel::Mesh(*d),
        }
    }
}

/// The open pass: its snapshot, the sealed commands, and the sprite
/// segment currently accumulating.
#[derive(Debug)]
pub struct PassRecorder {
    pub st: PassState,
    pub commands: Vec<DrawCmd>,
    pub cur_sprites: SpriteSegment,
}

/// Ghost mirror of [`PassRecorder`].
pub struct PassModel {
    pub st: PassState,
    pub commands: Seq<DrawCmdModel>,
    pub cur_sprites: SegmentModel,
}

impl View for PassRecorder {
    type V = PassModel;

    open spec fn view(&self) -> PassModel {
        PassModel {
            st: self.st,
            commands: self.commands@.map_values(|c: DrawCmd| c@),
            cur_sprites: self.cur_sprites@,
        }
    }
}

impl PassModel {
    /// Internal invariant of an open pass.
    pub open spec fn wf(self) -> bool {
        &&& self.cur_sprites.wf()
        &&& self.commands.len() <= MAX_PASS_COMMANDS
        &&& forall|i: int|
            0 <= i < self.commands.len() ==> match #[trigger] self.commands[i] {
                DrawCmdModel::Sprites(seg) => seg.wf() && seg.instance_count >= 1,
                DrawCmdModel::Mesh(_) => true,
            }
    }
}

/// The backend's whole state, as plain mathematical values.
pub struct RenderModel {
    pub surface_present: bool,
    pub surface_format: Option<u32>,
    pub configured_width: u32,
    pub configured_height: u32,
    pub frame: Option<FrameState>,
    pub pass: Option<PassModel>,
    pub textures: Map<i32, TextureInfo>,
    pub next_texture_id: i32,
    pub meshes: Map<i32, MeshInfo>,
    pub next_mesh_id: i32,
    pub sprite: SpriteEngine,
    pub mesh: MeshEngineModel,
    pub uniform_align: u32,
    pub fallback_ready: bool,
    pub actions: Seq<ActionModel>,
}

impl RenderModel {
    /// The backend's internal invariant: handles below the counters, and a
    /// well-formed open pass.
    pub open spec fn wf(self) -> bool {
        &&& self.next_texture_id >= 1
        &&& self.next_mesh_id >= 1
        &&& forall|k: i32|
            #[trigger] self.textures.contains_key(k) ==> 1 <= k < self.next_texture_id
        &&& forall|k: i32|
            #[trigger] self.meshes.contains_key(k) ==> 1 <= k < self.next_mesh_id
        &&& match self.pass {
            Some(p) => p.wf(),
            None => true,
        }
    }
}

/// The backend. It owns no device object: the executor owns those, keyed
/// by the same handles, and performs the queued actions after each call.
#[derive(Debug)]
pub struct GpuBackend {
    pub surface_present: bool,
    pub surface_format: Option<u32>,
    pub configured_width: u32,
    pub configured_height: u32,
    pub frame: Option<FrameState>,
    pub pass: Option<PassRecorder>,
    pub textures: HashMap<i32, TextureInfo>,
    pub next_texture_id: i32,
    pub meshes: HashMap<i32, MeshInfo>,
    pub next_mesh_id: i32,
    pub sprite: SpriteEngine,
    pub mesh: MeshEngine,
    /// The device's minimum uniform-buffer-offset alignment.
    pub uniform_align: u32,
    pub fallback_ready: bool,
    pub actions: Vec<GpuAction>,
}

impl View for GpuBackend {
    type V = RenderModel;

    open spec fn view(&self) -> RenderModel {
        RenderModel {
            surface_present: self.surface_present,
            surface_format: self.surface_format,
            configured_width: self.configured_width,
            configured_height: self.configured_height,
            frame: self.frame,
            pass: match self.pass {
                Some(p) => Some(p@),
                None => None,
            },
            textures: self.textures@,
            next_texture_id: self.next_texture_id,
            meshes: self.meshes@,
            next_mesh_id: self.next_mesh_id,
            sprite: self.sprite,
            mesh: self.mesh@,
            uniform_align: self.uniform_align,
            fallback_ready: self.fallback_ready,
            actions: self.actions@.map_values(|a: GpuAction| a@),
        }
    }
}

/// The state a fresh backend starts in.
pub open spec fn spec_initial(uniform_align: u32) -> RenderModel {
    RenderModel {
        surface_present: false,
        surface_format: None,
        configured_width: 0,
        configured_height: 0,
        frame: None,
        pass: None,
        textures: Map::empty(),
        next_texture_id: 1,
        meshes: Map::empty(),
        next_mesh_id: 1,
        sprite: SpriteEngine {
            resources_ready: false,
            surface_pipeline_format: None,
            instance_capacity: 0,
        },
        mesh: MeshEngineModel {
            resources_ready: false,
            pipeline_formats: Set::empty(),
            uniform_capacity: 0,
        },
        uniform_align: uniform_align,
        fallback_ready: false,
        actions: Seq::empty(),
    }
}

impl GpuBackend {
    /// A fresh backend for a device with the given minimum uniform-buffer-
    /// offset alignment. No device objects exist yet; the first pass or
    /// resource creation queues the actions that build them.
    pub fn new(uniform_align: u32) -> (r: GpuBackend)
        ensures
            r@ == spec_initial(uniform_align),
            r@.wf(),
    {
        let r = GpuBackend {
            surface_present: false,
            surface_format: None,
            configured_width: 0,
            configured_height: 0,
            frame: None,
            pass: None,
            textures: HashMap::new(),
            next_texture_id: 1,
            meshes: HashMap::new(),
            next_mesh_id: 1,
            sprite: SpriteEngine {
                resources_ready: false,
                surface_pipeline_format: None,
                instance_capacity: 0,
            },
            mesh: MeshEngine {
                resources_ready: false,
                pipeline_formats: Vec::new(),
                uniform_capacity: 0,
            },
            uniform_align,
            fallback_ready: false,
            actions: Vec::new(),
        };
        proof {
            assert(r@.textures =~= spec_initial(uniform_align).textures);
            assert(r@.meshes =~= spec_initial(uniform_align).meshes);
            assert(r@.mesh.pipeline_formats =~= spec_initial(uniform_align).mesh.pipeline_formats);
            assert(r@.actions =~= spec_initial(uniform_align).actions);
        }
        r
    }

    /// Record that the executor attached a presentable surface.
    pub fn set_surface(&mut self)
        requires
            old(self)@.wf(),
        ensures
            final(self)@ == (RenderModel { surface_present: true, ..old(self)@ }),
            final(self)@.wf(),
    {
        self.surface_present = true;
    }

    /// Whether a presentable surface is attached.
    pub fn is_surface_ready(&self) -> (r: bool)
        ensures
            r == self@.surface_present,
    {
        self.surface_present
    }

    /// Drain the queued GPU work, in emission order.
    pub fn take_actions(&mut self) -> (r: Vec<GpuAction>)
        requires
            old(self)@.wf(),
        ensures
            r@.map_values(|a: GpuAction| a@) == old(self)@.actions,
            final(self)@ == (RenderModel { actions: Seq::empty(), ..old(self)@ }),
            final(self)@.wf(),
    {
        let mut out: Vec<GpuAction> = Vec::new();
        core::mem::swap(&mut self.actions, &mut out);
        proof {
            assert(self@.actions =~= Seq::<ActionModel>::empty());
        }
        out
    }
}

/// Prefer an sRGB surface format when the surface offers one, else take
/// the first offered, else fall back to BGRA8 sRGB.
pub open spec fn spec_pick_surface_format(formats: Seq<u32>) -> u32 {
    if exists|i: int|
        0 <= i < formats.len() && (formats[i] == TEXTURE_FORMAT_BGRA8_SRGB || formats[i]
            == TEXTURE_FORMAT_RGBA8_SRGB) {
        let i = choose|i: int|
            0 <= i < formats.len() && (formats[i] == TEXTURE_FORMAT_BGRA8_SRGB || formats[i]
                == TEXTURE_FORMAT_RGBA8_SRGB) && forall|j: int|
                0 <= j < i ==> !(#[trigger] formats[j] == TEXTURE_FORMAT_BGRA8_SRGB || formats[j]
                    == TEXTURE_FORMAT_RGBA8_SRGB);
        formats[i]
    } else if formats.len() > 0 {
        formats[0]
    } else {
        TEXTURE_FORMAT_BGRA8_SRGB
    }
}

/// Pick the surface format from the capability list, preferring sRGB.
pub fn pick_surface_format(formats: &Vec<u32>) -> (r: u32)
    ensures
        r == spec_pick_surface_format(formats@),
{
    let mut i: usize = 0;
    while i < formats.len()
        invariant
            0 <= i <= formats@.len(),
            forall|j: int|
                0 <= j < i ==> !(#[trigger] formats@[j] == TEXTURE_FORMAT_BGRA8_SRGB || formats@[j]
                    == TEXTURE_FORMAT_RGBA8_SRGB),
        decreases formats@.len() - i,
    {
        let f = formats[i];
        if f == TEXTURE_FORMAT_BGRA8_SRGB || f == TEXTURE_FORMAT_RGBA8_SRGB {
            return f;
        }
        i = i + 1;
    }
    if formats.len() > 0 {
        formats[0]
    } else {
        TEXTURE_FORMAT_BGRA8_SRGB
    }
}


/// Create the sprite layouts, buffers and RGBA8 pipeline once.
pub open spec fn spec_ensure_sprite_resources(s: RenderModel) -> RenderModel {
    if s.sprite.resources_ready {
        s
    } else {
        RenderModel {
            sprite: SpriteEngine {
                resources_ready: true,
                surface_pipeline_format: s.sprite.surface_pipeline_format,
                instance_capacity: INSTANCE_BUFFER_INITIAL_BYTES,
            },
            actions: s.actions.push(ActionModel::EnsureSpriteResources),
            ..s
        }
    }
}

/// Configure the surface to a clamped pixel size and remember the format.
pub open spec fn spec_configure_surface(
    s: RenderModel,
    width: u32,
    height: u32,
    format: u32,
) -> RenderModel {
    if !s.surface_present {
        s
    } else {
        let w = if width >= 1 { width } else { 1u32 };
        let h = if height >= 1 { height } else { 1u32 };
        RenderModel {
            surface_format: Some(format),
            configured_width: w,
            configured_height: h,
            actions: s.actions.push(
                ActionModel::ConfigureSurface { width: w, height: h, format },
            ),
            ..s
        }
    }
}

/// Reconfigure only when the requested size differs from the last one
/// configured (or no format is known yet).
pub open spec fn spec_ensure_surface_configured(
    s: RenderModel,
    width: u32,
    height: u32,
    format: u32,
) -> RenderModel {
    if !s.surface_present {
        s
    } else if s.configured_width == width && s.configured_height == height
        && s.surface_format is Some {
        s
    } else {
        spec_configure_surface(s, width, height, format)
    }
}

/// Register a texture under a fresh handle, uploading the pixel prefix
/// when enough bytes were supplied.
pub open spec fn spec_create_texture(
    s0: RenderModel,
    width: u32,
    height: u32,
    pixels: Seq<u8>,
    nearest: bool,
    render_target: bool,
) -> (RenderModel, i32) {
    let s = spec_ensure_sprite_resources(s0);
    if s.next_texture_id == i32::MAX {
        (s, 0)
    } else {
        let id = s.next_texture_id;
        let w = if width >= 1 { width } else { 1u32 };
        let h = if height >= 1 { height } else { 1u32 };
        let expected = w as int * h as int * 4;
        let upload: Seq<u8> = if pixels.len() >= expected {
            pixels.take(expected)
        } else {
            Seq::empty()
        };
        (
            RenderModel {
                next_texture_id: (id + 1) as i32,
                textures: s.textures.insert(
                    id,
                    TextureInfo { width: w, height: h, nearest, render_target },
                ),
                actions: s.actions.push(
                    ActionModel::CreateTexture {
                        id,
                        width: w,
                        height: h,
                        nearest,
                        render_target,
                        pixels: upload,
                    },
                ),
                ..s
            },
            id,
        )
    }
}

/// Queue a region write when the buffer covers the whole rectangle; a
/// short buffer or an unknown handle leaves everything unchanged.
pub open spec fn spec_write_texture_region(
    s: RenderModel,
    texture_id: i32,
    x: u32,
    y: u32,
    width: u32,
    height: u32,
    pixels: Seq<u8>,
) -> RenderModel {
    if !s.textures.contains_key(texture_id) {
        s
    } else if pixels.len() < width as int * height as int * 4 {
        s
    } else {
        RenderModel {
            actions: s.actions.push(
                ActionModel::WriteTextureRegion {
                    id: texture_id,
                    x,
                    y,
                    width,
                    height,
                    pixels: pixels.take(width as int * height as int * 4),
                },
            ),
            ..s
        }
    }
}

/// Queue a texture-to-texture copy of the rectangle clipped to the source
/// size and the destination's remaining space; an empty clip is a no-op.
pub open spec fn spec_copy_texture_to_texture(
    s: RenderModel,
    dst_texture_id: i32,
    dst_x: u32,
    dst_y: u32,
    src_texture_id: i32,
) -> RenderModel {
    if !s.textures.contains_key(dst_texture_id) || !s.textures.contains_key(src_texture_id) {
        s
    } else {
        let dst = s.textures[dst_texture_id];
        let src = s.textures[src_texture_id];
        let avail_w = if dst_x >= dst.width { 0u32 } else { (dst.width - dst_x) as u32 };
        let avail_h = if dst_y >= dst.height { 0u32 } else { (dst.height - dst_y) as u32 };
        let w = if src.width <= avail_w { src.width } else { avail_w };
        let h = if src.height <= avail_h { src.height } else { avail_h };
        if w == 0 || h == 0 {
            s
        } else {
            RenderModel {
                actions: s.actions.push(
                    ActionModel::CopyTexture {
                        src_id: src_texture_id,
                        dst_id: dst_texture_id,
                        dst_x,
                        dst_y,
                        width: w,
                        height: h,
                    },
                ),
                ..s
            }
        }
    }
}

/// Rebuild a texture's sampler and binding in place; an unknown handle is
/// a no-op (the sprite resources are still ensured first).
pub open spec fn spec_set_texture_sampler(
    s0: RenderModel,
    texture_id: i32,
    sampler_kind: i32,
) -> RenderModel {
    let nearest = sampler_kind != 0;
    let s = spec_ensure_sprite_resources(s0);
    if !s.textures.contains_key(texture_id) {
        s
    } else {
        let info = s.textures[texture_id];
        RenderModel {
            textures: s.textures.insert(
                texture_id,
                TextureInfo { nearest, ..info },
            ),
            actions: s.actions.push(ActionModel::SetTextureSampler { id: texture_id, nearest }),
            ..s
        }
    }
}

/// Register a rectangle mesh: four corner vertices around the origin from
/// the half extents (negation flips the scalar sign bit), two triangles.
pub open spec fn spec_create_mesh_rectangle(
    s: RenderModel,
    half_width: u32,
    half_height: u32,
) -> (RenderModel, i32) {
    if s.next_mesh_id == i32::MAX {
        (s, 0)
    } else {
        let id = s.next_mesh_id;
        let nw = spec_f32_bits_neg(half_width);
        let nh = spec_f32_bits_neg(half_height);
        let vertex_words = seq![nw, nh, half_width, nh, half_width, half_height, nw, half_height];
        let indices = seq![0u16, 1u16, 2u16, 0u16, 2u16, 3u16];
        (
            RenderModel {
                next_mesh_id: (id + 1) as i32,
                meshes: s.meshes.insert(id, MeshInfo { vertex_count: 4, index_count: 6 }),
                actions: s.actions.push(ActionModel::CreateMesh { id, vertex_words, indices }),
                ..s
            },
            id,
        )
    }
}

/// Register a triangle-soup mesh from a flat x,y word sequence: the vertex
/// count is truncated down to a multiple of three, and a usable count of
/// zero or above the 16-bit index limit yields the invalid handle with no
/// state change.
pub open spec fn spec_create_mesh_triangles(
    s: RenderModel,
    vertices_xy: Seq<u32>,
) -> (RenderModel, i32) {
    let vcount = vertices_xy.len() as int / 2;
    let usable = vcount - vcount % 3;
    if vcount == 0 || usable == 0 || usable > 65535 {
        (s, 0)
    } else if s.next_mesh_id == i32::MAX {
        (s, 0)
    } else {
        let id = s.next_mesh_id;
        (
            RenderModel {
                next_mesh_id: (id + 1) as i32,
                meshes: s.meshes.insert(
                    id,
                    MeshInfo { vertex_count: usable as u32, index_count: usable as u32 },
                ),
                actions: s.actions.push(
                    ActionModel::CreateMesh {
                        id,
                        vertex_words: vertices_xy.take(usable * 2),
                        indices: Seq::new(usable as nat, |i: int| i as u16),
                    },
                ),
                ..s
            },
            id,
        )
    }
}


/// Byte count of a `width` by `height` RGBA8 pixel rectangle.
fn rgba_byte_count(width: u32, height: u32) -> (r: u128)
    ensures
        r == width as int * height as int * 4,
{
    proof {
        assert(width as int * height as int * 4 <= 0xFFFF_FFFF * 0xFFFF_FFFF * 4)
            by (nonlinear_arith)
            requires
                width <= 0xFFFF_FFFFu32 && height <= 0xFFFF_FFFFu32,
        ;
    }
    width as u128 * height as u128 * 4
}

impl GpuBackend {
    /// Create the sprite layouts, buffers and RGBA8 pipeline once.
    fn ensure_sprite_resources(&mut self)
        requires
            old(self)@.wf(),
        ensures
            final(self)@ == spec_ensure_sprite_resources(old(self)@),
            final(self)@.wf(),
    {
        if self.sprite.resources_ready {
            return ;
        }
        self.sprite.resources_ready = true;
        self.sprite.instance_capacity = INSTANCE_BUFFER_INITIAL_BYTES;
        self.actions.push(GpuAction::EnsureSpriteResources);
        proof {
            assert(self@.actions =~= spec_ensure_sprite_resources(old(self)@).actions);
        }
    }

    /// Configure the surface for a pixel size (clamped to at least one on
    /// each axis) and format code; without a surface this is a no-op.
    pub fn configure_surface(&mut self, width: u32, height: u32, format: u32)
        requires
            old(self)@.wf(),
        ensures
            final(self)@ == spec_configure_surface(old(self)@, width, height, format),
            final(self)@.wf(),
    {
        if !self.surface_present {
            return ;
        }
        let w = if width >= 1 { width } else { 1 };
        let h = if height >= 1 { height } else { 1 };
        self.surface_format = Some(format);
        self.configured_width = w;
        self.configured_height = h;
        self.actions.push(GpuAction::ConfigureSurface { width: w, height: h, format });
        proof {
            assert(self@.actions =~= spec_configure_surface(
                old(self)@,
                width,
                height,
                format,
            ).actions);
        }
    }

    /// Reconfigure the surface only when the requested pixel size differs
    /// from the last configured one (or no format is known yet).
    pub fn ensure_surface_configured(&mut self, width: u32, height: u32, format: u32)
        requires
            old(self)@.wf(),
        ensures
            final(self)@ == spec_ensure_surface_configured(old(self)@, width, height, format),
            final(self)@.wf(),
    {
        if !self.surface_present {
            return ;
        }
        if self.configured_width == width && self.configured_height == height
            && self.surface_format.is_some() {
            return ;
        }
        self.configure_surface(width, height, format);
    }

    /// Register a texture under a fresh positive handle. The pixel prefix
    /// of `width * height * 4` bytes is uploaded when the buffer holds at
    /// least that much; a shorter buffer leaves the texture uninitialized.
    pub fn create_texture_rgba8(
        &mut self,
        width: u32,
        height: u32,
        pixels_rgba8: &[u8],
        nearest: bool,
    ) -> (r: i32)
        requires
            old(self)@.wf(),
        ensures
            final(self)@ == spec_create_texture(
                old(self)@,
                width,
                height,
                pixels_rgba8@,
                nearest,
                false,
            ).0,
            r == spec_create_texture(old(self)@, width, height, pixels_rgba8@, nearest, false).1,
            final(self)@.wf(),
    {
        self.ensure_sprite_resources();
        self.create_texture_with_fresh_id(width, height, pixels_rgba8, nearest, false)
    }

    /// Register a render-target texture under a fresh positive handle,
    /// initialized to transparent black.
    pub fn create_render_target(&mut self, width: u32, height: u32, nearest: bool) -> (r: i32)
        requires
            old(self)@.wf(),
        ensures
            final(self)@ == spec_create_texture(
                old(self)@,
                width,
                height,
                Seq::new(
                    ((if width >= 1 { width } else { 1u32 }) as nat * (if height >= 1 {
                        height
                    } else {
                        1u32
                    }) as nat * 4),
                    |i: int| 0u8,
                ),
                nearest,
                true,
            ).0,
            r == spec_create_texture(
                old(self)@,
                width,
                height,
                Seq::new(
                    ((if width >= 1 { width } else { 1u32 }) as nat * (if height >= 1 {
                        height
                    } else {
                        1u32
                    }) as nat * 4),
                    |i: int| 0u8,
                ),
                nearest,
                true,
            ).1,
            final(self)@.wf(),
    {
        self.ensure_sprite_resources();
        let w = if width >= 1 { width } else { 1 };
        let h = if height >= 1 { height } else { 1 };
        let n: u128 = rgba_byte_count(w, h);
        let mut zeros: Vec<u8> = Vec::new();
        let mut i: u128 = 0;
        while i < n
            invariant
                0 <= i <= n,
                zeros@ =~= Seq::new(i as nat, |j: int| 0u8),
            decreases n - i,
        {
            zeros.push(0u8);
            i = i + 1;
        }
        let r = self.create_texture_with_fresh_id(width, height, zeros.as_slice(), nearest, true);
        r
    }

    /// Allocate a fresh handle and register the texture under it.
    fn create_texture_with_fresh_id(
        &mut self,
        width: u32,
        height: u32,
        pixels_rgba8: &[u8],
        nearest: bool,
        render_target: bool,
    ) -> (r: i32)
        requires
            old(self)@.wf(),
            old(self)@.sprite.resources_ready,
        ensures
            final(self)@ == spec_create_texture(
                old(self)@,
                width,
                height,
                pixels_rgba8@,
                nearest,
                render_target,
            ).0,
            r == spec_create_texture(
                old(self)@,
                width,
                height,
                pixels_rgba8@,
                nearest,
                render_target,
            ).1,
            final(self)@.wf(),
    {
        if self.next_texture_id == i32::MAX {
            return 0;
        }
        let id = self.next_texture_id;
        self.next_texture_id = id + 1;
        let w = if width >= 1 { width } else { 1 };
        let h = if height >= 1 { height } else { 1 };
        let expected: u128 = rgba_byte_count(w, h);
        let mut upload: Vec<u8> = Vec::new();
        if pixels_rgba8.len() as u128 >= expected {
            let n = expected as usize;
            let mut i: usize = 0;
            while i < n
                invariant
                    0 <= i <= n,
                    n <= pixels_rgba8@.len(),
                    upload@ =~= pixels_rgba8@.take(i as int),
                decreases n - i,
            {
                upload.push(pixels_rgba8[i]);
                proof {
                    assert(pixels_rgba8@.take(i as int).push(pixels_rgba8@[i as int])
                        =~= pixels_rgba8@.take(i + 1));
                }
                i = i + 1;
            }
        }
        self.actions.push(
            GpuAction::CreateTexture {
                id,
                width: w,
                height: h,
                nearest,
                render_target,
                pixels: upload,
            },
        );
        self.textures.insert(id, TextureInfo { width: w, height: h, nearest, render_target });
        proof {
            let g = spec_create_texture(
                old(self)@,
                width,
                height,
                pixels_rgba8@,
                nearest,
                render_target,
            ).0;
            assert(self@.actions =~= g.actions);
            assert(self@.textures =~= g.textures);
        }
        id
    }

    /// Width of a registry texture, or zero for an unknown handle.
    pub fn texture_width(&self, texture_id: i32) -> (r: u32)
        ensures
            r == if self@.textures.contains_key(texture_id) {
                self@.textures[texture_id].width
            } else {
                0u32
            },
    {
        match self.textures.get(&texture_id) {
            Some(t) => t.width,
            None => 0,
        }
    }

    /// Height of a registry texture, or zero for an unknown handle.
    pub fn texture_height(&self, texture_id: i32) -> (r: u32)
        ensures
            r == if self@.textures.contains_key(texture_id) {
                self@.textures[texture_id].height
            } else {
                0u32
            },
    {
        match self.textures.get(&texture_id) {
            Some(t) => t.height,
            None => 0,
        }
    }

    /// Whether the registry holds a texture under this handle.
    pub fn is_texture_loaded(&self, texture_id: i32) -> (r: bool)
        ensures
            r == self@.textures.contains_key(texture_id),
    {
        self.textures.contains_key(&texture_id)
    }

    /// Queue a sub-rectangle write into an existing texture. A buffer
    /// shorter than `width * height * 4` bytes leaves the texture
    /// unchanged, as does an unknown handle.
    pub fn write_texture_region_rgba8(
        &mut self,
        texture_id: i32,
        x: u32,
        y: u32,
        width: u32,
        height: u32,
        pixels_rgba8: &[u8],
    )
        requires
            old(self)@.wf(),
        ensures
            final(self)@ == spec_write_texture_region(
                old(self)@,
                texture_id,
                x,
                y,
                width,
                height,
                pixels_rgba8@,
            ),
            final(self)@.wf(),
    {
        if !self.textures.contains_key(&texture_id) {
            return ;
        }
        let expected: u128 = rgba_byte_count(width, height);
        if (pixels_rgba8.len() as u128) < expected {
            return ;
        }
        let n = expected as usize;
        let mut upload: Vec<u8> = Vec::new();
        let mut i: usize = 0;
        while i < n
            invariant
                0 <= i <= n,
                n <= pixels_rgba8@.len(),
                upload@ =~= pixels_rgba8@.take(i as int),
            decreases n - i,
        {
            upload.push(pixels_rgba8[i]);
            proof {
                assert(pixels_rgba8@.take(i as int).push(pixels_rgba8@[i as int])
                    =~= pixels_rgba8@.take(i + 1));
            }
            i = i + 1;
        }
        self.actions.push(
            GpuAction::WriteTextureRegion { id: texture_id, x, y, width, height, pixels: upload },
        );
        proof {
            assert(self@.actions =~= spec_write_texture_region(
                old(self)@,
                texture_id,
                x,
                y,
                width,
                height,
                pixels_rgba8@,
            ).actions);
        }
    }

    /// Queue a copy between two registry textures, clipped to the source
    /// size and the destination's remaining space from the offset; an
    /// empty clip or an unknown handle is a no-op.
    pub fn copy_texture_to_texture(
        &mut self,
        dst_texture_id: i32,
        dst_x: u32,
        dst_y: u32,
        src_texture_id: i32,
    )
        requires
            old(self)@.wf(),
        ensures
            final(self)@ == spec_copy_texture_to_texture(
                old(self)@,
                dst_texture_id,
                dst_x,
                dst_y,
                src_texture_id,
            ),
            final(self)@.wf(),
    {
        let dst = match self.textures.get(&dst_texture_id) {
            Some(t) => *t,
            None => { return ; },
        };
        let src = match self.textures.get(&src_texture_id) {
            Some(t) => *t,
            None => { return ; },
        };
        let avail_w = if dst_x >= dst.width { 0 } else { dst.width - dst_x };
        let avail_h = if dst_y >= dst.height { 0 } else { dst.height - dst_y };
        let w = if src.width <= avail_w { src.width } else { avail_w };
        let h = if src.height <= avail_h { src.height } else { avail_h };
        if w == 0 || h == 0 {
            return ;
        }
        self.actions.push(
            GpuAction::CopyTexture {
                src_id: src_texture_id,
                dst_id: dst_texture_id,
                dst_x,
                dst_y,
                width: w,
                height: h,
            },
        );
        proof {
            assert(self@.actions =~= spec_copy_texture_to_texture(
                old(self)@,
                dst_texture_id,
                dst_x,
                dst_y,
                src_texture_id,
            ).actions);
        }
    }

    /// Rebuild a texture's sampler and binding: a zero kind selects linear
    /// filtering, anything else nearest. An unknown handle is a no-op.
    pub fn set_texture_sampler(&mut self, texture_id: i32, sampler_kind: i32)
        requires
            old(self)@.wf(),
        ensures
            final(self)@ == spec_set_texture_sampler(old(self)@, texture_id, sampler_kind),
            final(self)@.wf(),
    {
        let nearest = sampler_kind != 0;
        self.ensure_sprite_resources();
        let info = match self.textures.get(&texture_id) {
            Some(t) => *t,
            None => { return ; },
        };
        self.textures.insert(
            texture_id,
            TextureInfo { nearest, ..info },
        );
        self.actions.push(GpuAction::SetTextureSampler { id: texture_id, nearest });
        proof {
            let g = spec_set_texture_sampler(old(self)@, texture_id, sampler_kind);
            assert(self@.actions =~= g.actions);
            assert(self@.textures =~= g.textures);
        }
    }

    /// Register a rectangle mesh built from half extents: four vertices,
    /// six indices, two triangles.
    pub fn create_mesh_rectangle(&mut self, half_width: u32, half_height: u32) -> (r: i32)
        requires
            old(self)@.wf(),
        ensures
            final(self)@ == spec_create_mesh_rectangle(old(self)@, half_width, half_height).0,
            r == spec_create_mesh_rectangle(old(self)@, half_width, half_height).1,
            final(self)@.wf(),
    {
        if self.next_mesh_id == i32::MAX {
            return 0;
        }
        let id = self.next_mesh_id;
        self.next_mesh_id = id + 1;
        let nw = crate::fbits::f32_bits_neg(half_width);
        let nh = crate::fbits::f32_bits_neg(half_height);
        let vertex_words: Vec<u32> = vec![nw, nh, half_width, nh, half_width, half_height, nw, half_height];
        let indices: Vec<u16> = vec![0u16, 1u16, 2u16, 0u16, 2u16, 3u16];
        proof {
            let g = spec_create_mesh_rectangle(old(self)@, half_width, half_height).0;
            let ga = g.actions.last();
            assert(vertex_words@ =~= (match ga {
                ActionModel::CreateMesh { vertex_words: vw, .. } => vw,
                _ => Seq::empty(),
            }));
            assert(indices@ =~= (match ga {
                ActionModel::CreateMesh { indices: ix, .. } => ix,
                _ => Seq::empty(),
            }));
        }
        self.actions.push(GpuAction::CreateMesh { id, vertex_words, indices });
        self.meshes.insert(id, MeshInfo { vertex_count: 4, index_count: 6 });
        proof {
            let g = spec_create_mesh_rectangle(old(self)@, half_width, half_height).0;
            assert(self@.actions =~= g.actions);
            assert(self@.meshes =~= g.meshes);
        }
        id
    }

    /// Register a triangle-soup mesh from flat x,y scalar words. The
    /// vertex count is truncated down to the nearest multiple of three; a
    /// usable count of zero, or one past the 16-bit index limit, yields
    /// the invalid handle and changes nothing.
    pub fn create_mesh_triangles_xy(&mut self, vertices_xy: &[u32]) -> (r: i32)
        requires
            old(self)@.wf(),
        ensures
            final(self)@ == spec_create_mesh_triangles(old(self)@, vertices_xy@).0,
            r == spec_create_mesh_triangles(old(self)@, vertices_xy@).1,
            final(self)@.wf(),
    {
        let vcount = vertices_xy.len() / 2;
        if vcount == 0 {
            return 0;
        }
        let usable = vcount - vcount % 3;
        if usable == 0 || usable > 65535 {
            return 0;
        }
        if self.next_mesh_id == i32::MAX {
            return 0;
        }
        let id = self.next_mesh_id;
        self.next_mesh_id = id + 1;
        let nwords = usable * 2;
        let mut vertex_words: Vec<u32> = Vec::new();
        let mut i: usize = 0;
        while i < nwords
            invariant
                0 <= i <= nwords,
                nwords <= vertices_xy@.len(),
                vertex_words@ =~= vertices_xy@.take(i as int),
            decreases nwords - i,
        {
            vertex_words.push(vertices_xy[i]);
            proof {
                assert(vertices_xy@.take(i as int).push(vertices_xy@[i as int])
                    =~= vertices_xy@.take(i + 1));
            }
            i = i + 1;
        }
        let mut indices: Vec<u16> = Vec::new();
        let mut j: usize = 0;
        while j < usable
            invariant
                0 <= j <= usable,
                usable <= 65535,
                indices@ =~= Seq::new(j as nat, |k: int| k as u16),
            decreases usable - j,
        {
            indices.push(j as u16);
            proof {
                assert(Seq::new(j as nat, |k: int| k as u16).push(j as u16)
                    =~= Seq::new((j + 1) as nat, |k: int| k as u16));
            }
            j = j + 1;
        }
        self.actions.push(GpuAction::CreateMesh { id, vertex_words, indices });
        self.meshes.insert(
            id,
            MeshInfo { vertex_count: usable as u32, index_count: usable as u32 },
        );
        proof {
            let g = spec_create_mesh_triangles(old(self)@, vertices_xy@).0;
            assert(self@.actions =~= g.actions);
            assert(self@.meshes =~= g.meshes);
        }
        id
    }
}


/// Seal the accumulating sprite segment into the command list, when it
/// holds anything.
pub open spec fn spec_flush(p: PassModel) -> PassModel {
    if p.cur_sprites.instance_count == 0 {
        p
    } else {
        PassModel {
            st: p.st,
            commands: p.commands.push(DrawCmdModel::Sprites(p.cur_sprites)),
            cur_sprites: SegmentModel::empty(),
        }
    }
}

/// The instance words of all sprite segments, concatenated in order.
pub open spec fn spec_segment_words(cmds: Seq<DrawCmdModel>) -> Seq<u32>
    decreases cmds.len(),
{
    if cmds.len() == 0 {
        Seq::empty()
    } else {
        spec_segment_words(cmds.drop_last()) + (match cmds.last() {
            DrawCmdModel::Sprites(seg) => seg.instance_data,
            DrawCmdModel::Mesh(_) => Seq::empty(),
        })
    }
}

/// The byte range each sprite segment occupies in the shared buffer.
pub open spec fn spec_segment_ranges(cmds: Seq<DrawCmdModel>) -> Seq<SegmentRange>
    decreases cmds.len(),
{
    if cmds.len() == 0 {
        Seq::empty()
    } else {
        spec_segment_ranges(cmds.drop_last()) + (match cmds.last() {
            DrawCmdModel::Sprites(seg) => seq![
                (SegmentRange {
                    offset_bytes: (4 * spec_segment_words(cmds.drop_last()).len()) as u64,
                    size_bytes: (4 * seg.instance_data.len()) as u64,
                }),
            ],
            DrawCmdModel::Mesh(_) => Seq::empty(),
        })
    }
}

/// Whether any mesh draw was recorded.
pub open spec fn spec_has_mesh(cmds: Seq<DrawCmdModel>) -> bool {
    spec_mesh_count(cmds) > 0
}

/// Number of mesh draws recorded.
pub open spec fn spec_mesh_count(cmds: Seq<DrawCmdModel>) -> int
    decreases cmds.len(),
{
    if cmds.len() == 0 {
        0
    } else {
        spec_mesh_count(cmds.drop_last()) + (if cmds.last() is Mesh {
            1int
        } else {
            0int
        })
    }
}

/// The effective uniform-offset alignment: the device limit, floored.
pub open spec fn spec_eff_align(align: u32) -> u64 {
    if align as u64 >= UNIFORM_ALIGN_FLOOR {
        align as u64
    } else {
        UNIFORM_ALIGN_FLOOR
    }
}

/// The twenty words of one mesh uniform block: per-draw transform, the
/// pass camera, projection scales, per-draw scale and color, and a fixed
/// trailing UV block.
pub open spec fn spec_mesh_block_words(st: PassState, d: MeshDraw) -> Seq<u32> {
    seq![
        d.x,
        d.y,
        d.rotation_cos,
        d.rotation_sin,
        st.camera_x,
        st.camera_y,
        st.cam_cos,
        st.cam_sin,
        st.proj_x,
        st.proj_y,
        d.scale_x,
        d.scale_y,
        d.color.r,
        d.color.g,
        d.color.b,
        d.color.a,
        F32_ZERO_BITS,
        F32_ZERO_BITS,
        F32_ONE_BITS,
        F32_ONE_BITS,
    ]
}

/// Little-endian bytes of a word sequence.
pub open spec fn spec_words_le_bytes(ws: Seq<u32>) -> Seq<u8>
    decreases ws.len(),
{
    if ws.len() == 0 {
        Seq::empty()
    } else {
        spec_words_le_bytes(ws.drop_last()) + crate::fbits::u32_le_bytes(ws.last())
    }
}

/// `n` zero bytes.
pub open spec fn spec_zero_bytes(n: int) -> Seq<u8> {
    Seq::new(n as nat, |i: int| 0u8)
}

/// The packed mesh uniform buffer: one 80-byte block per mesh draw in
/// order, each padded with zeros to the effective alignment.
pub open spec fn spec_uniform_bytes(st: PassState, cmds: Seq<DrawCmdModel>, align: u64) -> Seq<u8>
    decreases cmds.len(),
{
    if cmds.len() == 0 {
        Seq::empty()
    } else {
        spec_uniform_bytes(st, cmds.drop_last(), align) + (match cmds.last() {
            DrawCmdModel::Mesh(d) => spec_words_le_bytes(spec_mesh_block_words(st, d))
                + spec_zero_bytes(align - 80),
            DrawCmdModel::Sprites(_) => Seq::empty(),
        })
    }
}

pub proof fn lemma_words_le_bytes_len(ws: Seq<u32>)
    ensures
        spec_words_le_bytes(ws).len() == 4 * ws.len(),
    decreases ws.len(),
{
    if ws.len() > 0 {
        lemma_words_le_bytes_len(ws.drop_last());
    }
}

pub proof fn lemma_mesh_count_bounds(cmds: Seq<DrawCmdModel>)
    ensures
        0 <= spec_mesh_count(cmds) <= cmds.len(),
    decreases cmds.len(),
{
    if cmds.len() > 0 {
        lemma_mesh_count_bounds(cmds.drop_last());
    }
}

/// Each mesh draw contributes exactly one alignment stride of bytes.
pub proof fn lemma_uniform_bytes_len(st: PassState, cmds: Seq<DrawCmdModel>, align: u64)
    requires
        align >= 80,
    ensures
        spec_uniform_bytes(st, cmds, align).len() == spec_mesh_count(cmds) * align,
    decreases cmds.len(),
{
    if cmds.len() == 0 {
    } else {
        lemma_uniform_bytes_len(st, cmds.drop_last(), align);
        lemma_mesh_count_bounds(cmds.drop_last());
        match cmds.last() {
            DrawCmdModel::Mesh(d) => {
                lemma_words_le_bytes_len(spec_mesh_block_words(st, d));
                assert(spec_mesh_block_words(st, d).len() == 20);
                assert((spec_mesh_count(cmds.drop_last()) + 1) * align == spec_mesh_count(
                    cmds.drop_last(),
                ) * align + align) by (nonlinear_arith);
            },
            DrawCmdModel::Sprites(_) => {},
        }
    }
}

/// Well-formed segments hold at most sixteen words per possible instance.
pub proof fn lemma_segment_words_len_bound(cmds: Seq<DrawCmdModel>)
    requires
        forall|i: int|
            0 <= i < cmds.len() ==> match #[trigger] cmds[i] {
                DrawCmdModel::Sprites(seg) => seg.wf(),
                DrawCmdModel::Mesh(_) => true,
            },
    ensures
        spec_segment_words(cmds).len() <= cmds.len() * 0x10_0000_0000,
    decreases cmds.len(),
{
    if cmds.len() > 0 {
        assert(forall|i: int|
            0 <= i < cmds.drop_last().len() ==> cmds.drop_last()[i] == cmds[i]);
        lemma_segment_words_len_bound(cmds.drop_last());
        match cmds.last() {
            DrawCmdModel::Sprites(seg) => {
                assert(seg.wf());
                assert(seg.instance_data.len() == 16 * seg.instance_count);
                assert(seg.instance_data.len() <= 0x10_0000_0000);
            },
            DrawCmdModel::Mesh(_) => {},
        }
        assert((cmds.len() - 1) * 0x10_0000_0000 + 0x10_0000_0000 == cmds.len()
            * 0x10_0000_0000) by (nonlinear_arith);
    }
}

/// Whether a batch's texture has a binding at encode time: a registry
/// entry, or the fallback texture once it exists.
pub open spec fn spec_batch_visible(
    textures: Map<i32, TextureInfo>,
    fallback_ready: bool,
    tex: i32,
) -> bool {
    textures.contains_key(tex) || (tex == FALLBACK_TEXTURE_HANDLE && fallback_ready)
}

/// The draw calls one segment's batches contribute.
pub open spec fn spec_batch_items(
    batches: Seq<SpriteBatch>,
    seg_index: int,
    textures: Map<i32, TextureInfo>,
    fallback_ready: bool,
) -> Seq<DrawItem>
    decreases batches.len(),
{
    if batches.len() == 0 {
        Seq::empty()
    } else {
        spec_batch_items(batches.drop_last(), seg_index, textures, fallback_ready) + (
        if spec_batch_visible(textures, fallback_ready, batches.last().texture_id) {
            seq![
                (DrawItem::SpriteBatch {
                    segment: seg_index as usize,
                    texture_id: batches.last().texture_id,
                    first_instance: batches.last().first_instance,
                    instance_count: batches.last().instance_count,
                }),
            ]
        } else {
            Seq::empty()
        })
    }
}

/// The draw calls of the whole command list, walked front to back with a
/// running segment index `si` and mesh index `mi` (whose alignment stride
/// fixes each uniform offset, truncated to 32 bits as the binding takes).
pub open spec fn spec_draw_items(
    textures: Map<i32, TextureInfo>,
    meshes: Map<i32, MeshInfo>,
    fallback_ready: bool,
    mesh_pipeline_ok: bool,
    cmds: Seq<DrawCmdModel>,
    align: u64,
    si: int,
    mi: int,
) -> Seq<DrawItem>
    decreases cmds.len(),
{
    if cmds.len() == 0 {
        Seq::empty()
    } else {
        match cmds.first() {
            DrawCmdModel::Sprites(seg) => (if seg.instance_count != 0 {
                spec_batch_items(seg.batches, si, textures, fallback_ready)
            } else {
                Seq::empty()
            }) + spec_draw_items(
                textures,
                meshes,
                fallback_ready,
                mesh_pipeline_ok,
                cmds.skip(1),
                align,
                si + 1,
                mi,
            ),
            DrawCmdModel::Mesh(d) => (if mesh_pipeline_ok && meshes.contains_key(d.mesh_id) {
                seq![
                    (DrawItem::MeshDraw {
                        mesh_id: d.mesh_id,
                        index_count: meshes[d.mesh_id].index_count,
                        uniform_offset: ((mi * align) % 0x1_0000_0000) as u32,
                    }),
                ]
            } else {
                Seq::empty()
            }) + spec_draw_items(
                textures,
                meshes,
                fallback_ready,
                mesh_pipeline_ok,
                cmds.skip(1),
                align,
                si,
                mi + 1,
            ),
        }
    }
}

impl PassRecorder {
    /// Seal the accumulating sprite segment into the command list.
    pub fn flush_sprites(&mut self)
        requires
            old(self)@.wf(),
        ensures
            final(self)@ == spec_flush(old(self)@),
            final(self)@.commands.len() <= old(self)@.commands.len() + 1,
            forall|i: int|
                0 <= i < final(self)@.commands.len()
                    ==> match #[trigger] final(self)@.commands[i] {
                    DrawCmdModel::Sprites(seg) => seg.wf() && seg.instance_count >= 1,
                    DrawCmdModel::Mesh(_) => true,
                },
            final(self)@.cur_sprites == SegmentModel::empty(),
            final(self)@.cur_sprites.wf(),
    {
        if self.cur_sprites.instance_count == 0 {
            proof {
                let bs = self.cur_sprites@.batches;
                if bs.len() > 0 {
                    lemma_batch_total_nonneg(bs.drop_last());
                }
                assert(bs =~= Seq::<SpriteBatch>::empty());
                assert(self.cur_sprites@.instance_data =~= Seq::<u32>::empty());
            }
            return ;
        }
        let mut taken = SpriteSegment::new();
        core::mem::swap(&mut self.cur_sprites, &mut taken);
        self.commands.push(DrawCmd::Sprites(taken));
        proof {
            assert(self@.commands =~= spec_flush(old(self)@).commands);
        }
    }
}

/// Walk the sealed commands once: concatenate the sprite instance words,
/// record each segment's byte range, and note whether a mesh was drawn.
fn collect_segments(cmds: &Vec<DrawCmd>) -> (r: (Vec<u32>, Vec<SegmentRange>, bool))
    requires
        cmds@.len() <= MAX_PASS_COMMANDS + 1,
        forall|i: int|
            0 <= i < cmds@.len() ==> match (#[trigger] cmds@[i])@ {
                DrawCmdModel::Sprites(seg) => seg.wf(),
                DrawCmdModel::Mesh(_) => true,
            },
    ensures
        r.0@ == spec_segment_words(cmds@.map_values(|c: DrawCmd| c@)),
        r.1@ == spec_segment_ranges(cmds@.map_values(|c: DrawCmd| c@)),
        r.2 == spec_has_mesh(cmds@.map_values(|c: DrawCmd| c@)),
{
    let ghost m = cmds@.map_values(|c: DrawCmd| c@);
    let mut words: Vec<u32> = Vec::new();
    let mut ranges: Vec<SegmentRange> = Vec::new();
    let mut has_mesh = false;
    let mut i: usize = 0;
    proof {
        assert(m.take(0) =~= Seq::<DrawCmdModel>::empty());
    }
    while i < cmds.len()
        invariant
            0 <= i <= cmds@.len(),
            m == cmds@.map_values(|c: DrawCmd| c@),
            m.len() <= MAX_PASS_COMMANDS + 1,
            forall|k: int|
                0 <= k < m.len() ==> match #[trigger] m[k] {
                    DrawCmdModel::Sprites(seg) => seg.wf(),
                    DrawCmdModel::Mesh(_) => true,
                },
            words@ == spec_segment_words(m.take(i as int)),
            ranges@ == spec_segment_ranges(m.take(i as int)),
            has_mesh == spec_has_mesh(m.take(i as int)),
        decreases cmds@.len() - i,
    {
        proof {
            assert(m.take(i + 1).drop_last() =~= m.take(i as int));
            assert(m.take(i + 1).last() == m[i as int]);
            lemma_segment_words_len_bound(m.take(i as int));
            lemma_mesh_count_bounds(m.take(i as int));
        }
        match &cmds[i] {
            DrawCmd::Sprites(seg) => {
                proof {
                    assert(m[i as int] == cmds@[i as int]@);
                    assert(m[i as int] is Sprites);
                    assert(m[i as int]->Sprites_0.wf());
                    assert(seg@.instance_data.len() <= 0x10_0000_0000);
                    assert(words@.len() <= (MAX_PASS_COMMANDS + 1) * 0x10_0000_0000);
                }
                ranges.push(
                    SegmentRange {
                        offset_bytes: (words.len() as u64) * 4,
                        size_bytes: (seg.instance_data.len() as u64) * 4,
                    },
                );
                words.extend_from_slice(seg.instance_data.as_slice());
            },
            DrawCmd::Mesh(_) => {
                has_mesh = true;
                proof {
                    assert(m[i as int] is Mesh);
                }
            },
        }
        i = i + 1;
    }
    proof {
        assert(m.take(m.len() as int) =~= m);
    }
    (words, ranges, has_mesh)
}

/// Pack one 80-byte uniform block per mesh draw, each padded with zeros
/// to the effective alignment.
fn build_uniform_bytes(st: &PassState, cmds: &Vec<DrawCmd>, align: u64) -> (r: Vec<u8>)
    requires
        UNIFORM_ALIGN_FLOOR <= align <= 0x1_0000_0000,
        cmds@.len() <= MAX_PASS_COMMANDS + 1,
    ensures
        r@ == spec_uniform_bytes(*st, cmds@.map_values(|c: DrawCmd| c@), align),
        r@.len() == spec_mesh_count(cmds@.map_values(|c: DrawCmd| c@)) * align,
{
    let ghost m = cmds@.map_values(|c: DrawCmd| c@);
    let mut ubuf: Vec<u8> = Vec::new();
    let mut i: usize = 0;
    proof {
        assert(m.take(0) =~= Seq::<DrawCmdModel>::empty());
    }
    while i < cmds.len()
        invariant
            0 <= i <= cmds@.len(),
            m == cmds@.map_values(|c: DrawCmd| c@),
            m.len() <= MAX_PASS_COMMANDS + 1,
            UNIFORM_ALIGN_FLOOR <= align <= 0x1_0000_0000,
            ubuf@ == spec_uniform_bytes(*st, m.take(i as int), align),
            ubuf@.len() == spec_mesh_count(m.take(i as int)) * align,
        decreases cmds@.len() - i,
    {
        proof {
            assert(m.take(i + 1).drop_last() =~= m.take(i as int));
            assert(m.take(i + 1).last() == m[i as int]);
            lemma_mesh_count_bounds(m.take(i as int));
            assert(spec_mesh_count(m.take(i as int)) * align <= (MAX_PASS_COMMANDS + 1) * align)
                by (nonlinear_arith)
                requires
                    0 <= spec_mesh_count(m.take(i as int)) <= MAX_PASS_COMMANDS + 1 && align
                        >= 0,
            ;
        }
        match &cmds[i] {
            DrawCmd::Sprites(_) => {
                proof {
                    assert(m[i as int] is Sprites);
                }
            },
            DrawCmd::Mesh(d) => {
                proof {
                    assert(m[i as int] is Mesh);
                    assert(m[i as int]->Mesh_0 == *d);
                }
                let ghost base = ubuf@;
                let block: [u32; 20] = [
                    d.x,
                    d.y,
                    d.rotation_cos,
                    d.rotation_sin,
                    st.camera_x,
                    st.camera_y,
                    st.cam_cos,
                    st.cam_sin,
                    st.proj_x,
                    st.proj_y,
                    d.scale_x,
                    d.scale_y,
                    d.color.r,
                    d.color.g,
                    d.color.b,
                    d.color.a,
                    F32_ZERO_BITS,
                    F32_ZERO_BITS,
                    F32_ONE_BITS,
                    F32_ONE_BITS,
                ];
                proof {
                    assert(block@ =~= spec_mesh_block_words(*st, *d));
                    assert(spec_words_le_bytes(block@.take(0)) =~= Seq::<u8>::empty());
                    assert(base + Seq::<u8>::empty() =~= base);
                }
                let mut k: usize = 0;
                while k < 20
                    invariant
                        0 <= k <= 20,
                        ubuf@ == base + spec_words_le_bytes(block@.take(k as int)),
                    decreases 20 - k,
                {
                    crate::fbits::push_u32_le(&mut ubuf, block[k]);
                    proof {
                        assert(block@.take(k + 1).drop_last() =~= block@.take(k as int));
                        assert(block@.take(k + 1).last() == block@[k as int]);
                        assert(base + spec_words_le_bytes(block@.take(k as int))
                            + crate::fbits::u32_le_bytes(block@[k as int]) =~= base
                            + spec_words_le_bytes(block@.take(k + 1)));
                    }
                    k = k + 1;
                }
                proof {
                    assert(block@.take(20) =~= block@);
                    lemma_words_le_bytes_len(block@);
                }
                let pad = align - 80;
                let mut j: u64 = 0;
                let ghost base2 = ubuf@;
                proof {
                    assert(base2 + spec_zero_bytes(0) =~= base2);
                }
                while j < pad
                    invariant
                        0 <= j <= pad,
                        pad == align - 80,
                        ubuf@ == base2 + spec_zero_bytes(j as int),
                    decreases pad - j,
                {
                    ubuf.push(0u8);
                    proof {
                        assert(base2 + spec_zero_bytes(j as int) + seq![0u8] =~= base2
                            + spec_zero_bytes(j + 1));
                    }
                    j = j + 1;
                }
                proof {
                    assert(ubuf@ =~= spec_uniform_bytes(*st, m.take(i + 1), align));
                    assert((spec_mesh_count(m.take(i as int)) + 1) * align == spec_mesh_count(
                        m.take(i as int),
                    ) * align + align) by (nonlinear_arith);
                }
            },
        }
        i = i + 1;
    }
    proof {
        assert(m.take(m.len() as int) =~= m);
    }
    ubuf
}

/// Whether a format code already has a mesh pipeline.
fn formats_contain(formats: &Vec<u32>, format: u32) -> (r: bool)
    ensures
        r == formats@.to_set().contains(format),
{
    let mut i: usize = 0;
    while i < formats.len()
        invariant
            0 <= i <= formats@.len(),
            forall|j: int| 0 <= j < i ==> formats@[j] != format,
        decreases formats@.len() - i,
    {
        if formats[i] == format {
            proof {
                assert(formats@.to_set().contains(format));
            }
            return true;
        }
        i = i + 1;
    }
    proof {
        if formats@.to_set().contains(format) {
            let j = choose|j: int| 0 <= j < formats@.len() && formats@[j] == format;
            assert(formats@[j] != format);
        }
    }
    false
}

/// Build the draw calls of a pass in submission order: one per visible
/// sprite batch, one per mesh draw whose mesh and pipeline exist.
fn build_draw_items(
    textures: &HashMap<i32, TextureInfo>,
    meshes: &HashMap<i32, MeshInfo>,
    fallback_ready: bool,
    mesh_pipeline_ok: bool,
    cmds: &Vec<DrawCmd>,
    align: u64,
) -> (r: Vec<DrawItem>)
    requires
        obeys_key_model::<i32>(),
        align <= 0x1_0000_0000,
        cmds@.len() <= MAX_PASS_COMMANDS + 1,
    ensures
        r@ == spec_draw_items(
            textures@,
            meshes@,
            fallback_ready,
            mesh_pipeline_ok,
            cmds@.map_values(|c: DrawCmd| c@),
            align,
            0,
            0,
        ),
{
    let ghost m = cmds@.map_values(|c: DrawCmd| c@);
    let ghost full = spec_draw_items(
        textures@,
        meshes@,
        fallback_ready,
        mesh_pipeline_ok,
        m,
        align,
        0,
        0,
    );
    let mut items: Vec<DrawItem> = Vec::new();
    let mut si: usize = 0;
    let mut mi: u64 = 0;
    let mut i: usize = 0;
    proof {
        assert(m.skip(0) =~= m);
        assert(items@ + full =~= full);
    }
    while i < cmds.len()
        invariant
            0 <= i <= cmds@.len(),
            m == cmds@.map_values(|c: DrawCmd| c@),
            m.len() <= MAX_PASS_COMMANDS + 1,
            align <= 0x1_0000_0000,
            si <= i,
            mi <= i as u64,
            full == items@ + spec_draw_items(
                textures@,
                meshes@,
                fallback_ready,
                mesh_pipeline_ok,
                m.skip(i as int),
                align,
                si as int,
                mi as int,
            ),
            full == spec_draw_items(
                textures@,
                meshes@,
                fallback_ready,
                mesh_pipeline_ok,
                m,
                align,
                0,
                0,
            ),
        decreases cmds@.len() - i,
    {
        proof {
            assert(m.skip(i as int).len() == m.len() - i);
            assert(m.skip(i as int).first() == m[i as int]);
            assert(m.skip(i as int).skip(1) =~= m.skip(i + 1));
        }
        let ghost pre = items@;
        let ghost rest0 = spec_draw_items(
            textures@,
            meshes@,
            fallback_ready,
            mesh_pipeline_ok,
            m.skip(i as int),
            align,
            si as int,
            mi as int,
        );
        match &cmds[i] {
            DrawCmd::Sprites(seg) => {
                proof {
                    assert(m[i as int] is Sprites);
                    assert(m[i as int]->Sprites_0 == seg@);
                }
                if seg.instance_count != 0 {
                    let ghost base = items@;
                    let mut j: usize = 0;
                    proof {
                        assert(spec_batch_items(
                            seg@.batches.take(0),
                            si as int,
                            textures@,
                            fallback_ready,
                        ) =~= Seq::<DrawItem>::empty());
                        assert(base + Seq::<DrawItem>::empty() =~= base);
                    }
                    while j < seg.batches.len()
                        invariant
                            0 <= j <= seg@.batches.len(),
                            obeys_key_model::<i32>(),
                            items@ == base + spec_batch_items(
                                seg@.batches.take(j as int),
                                si as int,
                                textures@,
                                fallback_ready,
                            ),
                        decreases seg@.batches.len() - j,
                    {
                        proof {
                            assert(seg@.batches.take(j + 1).drop_last() =~= seg@.batches.take(
                                j as int,
                            ));
                            assert(seg@.batches.take(j + 1).last() == seg@.batches[j as int]);
                        }
                        let b = seg.batches[j];
                        let visible = textures.contains_key(&b.texture_id) || (b.texture_id
                            == FALLBACK_TEXTURE_HANDLE && fallback_ready);
                        if visible {
                            items.push(
                                DrawItem::SpriteBatch {
                                    segment: si,
                                    texture_id: b.texture_id,
                                    first_instance: b.first_instance,
                                    instance_count: b.instance_count,
                                },
                            );
                        }
                        proof {
                            assert(items@ =~= base + spec_batch_items(
                                seg@.batches.take(j + 1),
                                si as int,
                                textures@,
                                fallback_ready,
                            ));
                        }
                        j = j + 1;
                    }
                    proof {
                        assert(seg@.batches.take(seg@.batches.len() as int) =~= seg@.batches);
                    }
                }
                proof {
                    let step_items: Seq<DrawItem> = if seg@.instance_count != 0 {
                        spec_batch_items(seg@.batches, si as int, textures@, fallback_ready)
                    } else {
                        Seq::empty()
                    };
                    let rest1 = spec_draw_items(
                        textures@,
                        meshes@,
                        fallback_ready,
                        mesh_pipeline_ok,
                        m.skip(i + 1),
                        align,
                        si as int + 1,
                        mi as int,
                    );
                    assert(rest0 == step_items + rest1);
                    assert(items@ =~= pre + step_items);
                    assert(pre + (step_items + rest1) =~= pre + step_items + rest1);
                }
                si = si + 1;
            },
            DrawCmd::Mesh(d) => {
                proof {
                    assert(m[i as int] is Mesh);
                    assert(m[i as int]->Mesh_0 == *d);
                    assert(mi * align <= (MAX_PASS_COMMANDS + 1) * 0x1_0000_0000)
                        by (nonlinear_arith)
                        requires
                            0 <= mi <= MAX_PASS_COMMANDS + 1 && 0 <= align <= 0x1_0000_0000,
                    ;
                }
                if mesh_pipeline_ok {
                    match meshes.get(&d.mesh_id) {
                        Some(info) => {
                            let offset64: u64 = mi * align;
                            let offset = #[verifier::truncate] (offset64 as u32);
                            proof {
                                assert(offset64 as u32 as u64 == offset64 % 0x1_0000_0000)
                                    by (bit_vector);
                                assert(offset == ((mi as int * align) % 0x1_0000_0000) as u32);
                            }
                            items.push(
                                DrawItem::MeshDraw {
                                    mesh_id: d.mesh_id,
                                    index_count: info.index_count,
                                    uniform_offset: offset,
                                },
                            );
                        },
                        None => {},
                    }
                }
                proof {
                    let step_items: Seq<DrawItem> = if mesh_pipeline_ok && meshes@.contains_key(
                        d.mesh_id,
                    ) {
                        seq![
                            (DrawItem::MeshDraw {
                                mesh_id: d.mesh_id,
                                index_count: meshes@[d.mesh_id].index_count,
                                uniform_offset: ((mi as int * align) % 0x1_0000_0000) as u32,
                            }),
                        ]
                    } else {
                        Seq::empty()
                    };
                    let rest1 = spec_draw_items(
                        textures@,
                        meshes@,
                        fallback_ready,
                        mesh_pipeline_ok,
                        m.skip(i + 1),
                        align,
                        si as int,
                        mi as int + 1,
                    );
                    assert(rest0 == step_items + rest1);
                    assert(items@ =~= pre + step_items);
                    assert(pre + (step_items + rest1) =~= pre + step_items + rest1);
                }
                mi = mi + 1;
            },
        }
        i = i + 1;
    }
    proof {
        assert(m.skip(m.len() as int) =~= Seq::<DrawCmdModel>::empty());
        assert(items@ + Seq::<DrawItem>::empty() =~= items@);
    }
    items
}

/// Create the mesh uniform layout, buffer and binding once.
pub open spec fn spec_ensure_mesh_resources(s: RenderModel) -> RenderModel {
    if s.mesh.resources_ready {
        s
    } else {
        RenderModel {
            mesh: MeshEngineModel {
                resources_ready: true,
                pipeline_formats: s.mesh.pipeline_formats,
                uniform_capacity: UNIFORM_BUFFER_INITIAL_BYTES,
            },
            actions: s.actions.push(ActionModel::EnsureMeshResources),
            ..s
        }
    }
}

/// The sprite half of `end_pass`: with at least one segment, ensure the
/// sprite resources and the pipeline for the pass's target format, grow
/// the instance buffer to the exact requirement (with its floor) when it
/// is too small, and upload the concatenated instance words.
pub open spec fn spec_sprite_phase(
    s: RenderModel,
    st: PassState,
    cmds: Seq<DrawCmdModel>,
) -> RenderModel {
    let words = spec_segment_words(cmds);
    if spec_segment_ranges(cmds).len() == 0 {
        s
    } else {
        let sa = spec_ensure_sprite_resources(s);
        let sb = if st.target_format == TEXTURE_FORMAT_RGBA8 || sa.sprite.surface_pipeline_format
            == Some(st.target_format) {
            sa
        } else {
            RenderModel {
                sprite: SpriteEngine {
                    surface_pipeline_format: Some(st.target_format),
                    ..sa.sprite
                },
                actions: sa.actions.push(
                    ActionModel::EnsureSpritePipeline { format: st.target_format },
                ),
                ..sa
            }
        };
        let required: int = if 4 * words.len() >= 1 {
            4 * words.len() as int
        } else {
            1
        };
        let sc = if required > sb.sprite.instance_capacity {
            let newcap: int = if required >= INSTANCE_BUFFER_FLOOR_BYTES {
                required
            } else {
                INSTANCE_BUFFER_FLOOR_BYTES as int
            };
            RenderModel {
                sprite: SpriteEngine { instance_capacity: newcap as u64, ..sb.sprite },
                actions: sb.actions.push(
                    ActionModel::GrowInstanceBuffer { size_bytes: newcap as u64 },
                ),
                ..sb
            }
        } else {
            sb
        };
        RenderModel { actions: sc.actions.push(ActionModel::UploadInstances { words }), ..sc }
    }
}

/// The mesh pipeline half of `end_pass`: when a mesh was drawn, ensure
/// the mesh resources and a pipeline for the pass's target format.
pub open spec fn spec_mesh_pipeline_phase(
    s: RenderModel,
    st: PassState,
    cmds: Seq<DrawCmdModel>,
) -> RenderModel {
    if !spec_has_mesh(cmds) {
        s
    } else {
        let sa = spec_ensure_mesh_resources(s);
        if sa.mesh.pipeline_formats.contains(st.target_format) {
            sa
        } else {
            RenderModel {
                mesh: MeshEngineModel {
                    pipeline_formats: sa.mesh.pipeline_formats.insert(st.target_format),
                    ..sa.mesh
                },
                actions: sa.actions.push(
                    ActionModel::EnsureMeshPipeline { format: st.target_format },
                ),
                ..sa
            }
        }
    }
}

/// The uniform half of `end_pass`: ensure the mesh resources, and when
/// any uniform bytes were packed, grow the uniform buffer to the exact
/// requirement (floored at the alignment) and upload them.
pub open spec fn spec_uniform_phase(
    s0: RenderModel,
    st: PassState,
    cmds: Seq<DrawCmdModel>,
) -> RenderModel {
    let align = spec_eff_align(s0.uniform_align);
    let s = spec_ensure_mesh_resources(s0);
    let ubytes = spec_uniform_bytes(st, cmds, align);
    if ubytes.len() == 0 {
        s
    } else {
        let required: int = ubytes.len() as int;
        let sa = if required > s.mesh.uniform_capacity {
            let newcap: int = if required >= align {
                required
            } else {
                align as int
            };
            RenderModel {
                mesh: MeshEngineModel { uniform_capacity: newcap as u64, ..s.mesh },
                actions: s.actions.push(
                    ActionModel::GrowUniformBuffer { size_bytes: newcap as u64 },
                ),
                ..s
            }
        } else {
            s
        };
        RenderModel { actions: sa.actions.push(ActionModel::UploadUniform { bytes: ubytes }), ..sa }
    }
}

/// The recording half of `end_pass`: when the target view resolves (an
/// acquired surface image for the surface handle, a registry entry for a
/// texture handle), record one render pass holding the segment ranges and
/// the draw calls in submission order. An unresolvable target records
/// nothing, without error.
pub open spec fn spec_record_phase(
    s: RenderModel,
    st: PassState,
    cmds: Seq<DrawCmdModel>,
) -> RenderModel {
    let align = spec_eff_align(s.uniform_align);
    let resolvable = match s.frame {
        None => false,
        Some(fr) => if st.target_id == SURFACE_TARGET_HANDLE {
            fr.has_surface_view
        } else {
            s.textures.contains_key(st.target_id)
        },
    };
    if !resolvable {
        s
    } else {
        let pipeline_ok = s.mesh.resources_ready && s.mesh.pipeline_formats.contains(
            st.target_format,
        );
        RenderModel {
            actions: s.actions.push(
                ActionModel::RecordPass {
                    record: PassRecordModel {
                        target_id: st.target_id,
                        format: st.target_format,
                        clear: st.clear,
                        viewport_x: st.viewport_x,
                        viewport_y: st.viewport_y,
                        viewport_w: st.viewport_w,
                        viewport_h: st.viewport_h,
                        segments: spec_segment_ranges(cmds),
                        draws: spec_draw_items(
                            s.textures,
                            s.meshes,
                            s.fallback_ready,
                            pipeline_ok,
                            cmds,
                            align,
                            0,
                            0,
                        ),
                    },
                },
            ),
            ..s
        }
    }
}

/// Everything `end_pass` does. With no pass open it changes nothing.
/// Otherwise it flushes the pending sprites and runs the sprite, mesh
/// pipeline, uniform and recording phases in order.
pub open spec fn spec_end_pass(s0: RenderModel) -> RenderModel {
    match s0.pass {
        None => s0,
        Some(p0) => {
            let p = spec_flush(p0);
            let s = RenderModel { pass: None, ..s0 };
            spec_record_phase(
                spec_uniform_phase(
                    spec_mesh_pipeline_phase(spec_sprite_phase(s, p.st, p.commands), p.st, p.commands),
                    p.st,
                    p.commands,
                ),
                p.st,
                p.commands,
            )
        },
    }
}

/// The command lists `end_pass` works over: bounded length with only
/// well-formed sprite segments.
pub open spec fn cmds_wf(cmds: Seq<DrawCmdModel>) -> bool {
    &&& cmds.len() <= MAX_PASS_COMMANDS + 1
    &&& forall|i: int|
        0 <= i < cmds.len() ==> match #[trigger] cmds[i] {
            DrawCmdModel::Sprites(seg) => seg.wf(),
            DrawCmdModel::Mesh(_) => true,
        }
}

impl GpuBackend {
    /// Create the mesh uniform layout, buffer and binding once.
    fn ensure_mesh_resources(&mut self)
        requires
            old(self)@.wf(),
        ensures
            final(self)@ == spec_ensure_mesh_resources(old(self)@),
            final(self)@.wf(),
    {
        if self.mesh.resources_ready {
            return ;
        }
        self.mesh.resources_ready = true;
        self.mesh.uniform_capacity = UNIFORM_BUFFER_INITIAL_BYTES;
        self.actions.push(GpuAction::EnsureMeshResources);
        proof {
            assert(self@.actions =~= spec_ensure_mesh_resources(old(self)@).actions);
        }
    }

    /// Run the sprite half of `end_pass`.
    fn sprite_phase(
        &mut self,
        st: PassState,
        words: Vec<u32>,
        have_segments: bool,
        Ghost(cmds): Ghost<Seq<DrawCmdModel>>,
    )
        requires
            old(self)@.wf(),
            cmds_wf(cmds),
            words@ == spec_segment_words(cmds),
            have_segments == (spec_segment_ranges(cmds).len() > 0),
        ensures
            final(self)@ == spec_sprite_phase(old(self)@, st, cmds),
            final(self)@.wf(),
            final(self)@.pass == old(self)@.pass,
    {
        if !have_segments {
            return ;
        }
        self.ensure_sprite_resources();
        let mut pipeline_needed = st.target_format != TEXTURE_FORMAT_RGBA8;
        if pipeline_needed {
            match self.sprite.surface_pipeline_format {
                Some(f) => {
                    if f == st.target_format {
                        pipeline_needed = false;
                    }
                },
                None => {},
            }
        }
        if pipeline_needed {
            self.sprite.surface_pipeline_format = Some(st.target_format);
            self.actions.push(GpuAction::EnsureSpritePipeline { format: st.target_format });
        }
        proof {
            lemma_segment_words_len_bound(cmds);
        }
        let total_bytes: u64 = (words.len() as u64) * 4;
        let required: u64 = if total_bytes >= 1 {
            total_bytes
        } else {
            1
        };
        if required > self.sprite.instance_capacity {
            let newcap: u64 = if required >= INSTANCE_BUFFER_FLOOR_BYTES {
                required
            } else {
                INSTANCE_BUFFER_FLOOR_BYTES
            };
            self.sprite.instance_capacity = newcap;
            self.actions.push(GpuAction::GrowInstanceBuffer { size_bytes: newcap });
        }
        self.actions.push(GpuAction::UploadInstances { words });
        proof {
            assert(self@.actions =~= spec_sprite_phase(old(self)@, st, cmds).actions);
            assert(self@ == spec_sprite_phase(old(self)@, st, cmds));
        }
    }

    /// Run the mesh pipeline half of `end_pass`.
    fn mesh_pipeline_phase(
        &mut self,
        st: PassState,
        has_mesh: bool,
        Ghost(cmds): Ghost<Seq<DrawCmdModel>>,
    )
        requires
            old(self)@.wf(),
            has_mesh == spec_has_mesh(cmds),
        ensures
            final(self)@ == spec_mesh_pipeline_phase(old(self)@, st, cmds),
            final(self)@.wf(),
            final(self)@.pass == old(self)@.pass,
    {
        if !has_mesh {
            return ;
        }
        self.ensure_mesh_resources();
        let have = formats_contain(&self.mesh.pipeline_formats, st.target_format);
        if !have {
            let ghost before = self.mesh.pipeline_formats@;
            self.mesh.pipeline_formats.push(st.target_format);
            self.actions.push(GpuAction::EnsureMeshPipeline { format: st.target_format });
            proof {
                before.lemma_push_to_set_commute(st.target_format);
                assert(self@.actions =~= spec_mesh_pipeline_phase(old(self)@, st, cmds).actions);
                assert(self@.mesh.pipeline_formats =~= spec_mesh_pipeline_phase(
                    old(self)@,
                    st,
                    cmds,
                ).mesh.pipeline_formats);
            }
        }
        proof {
            assert(self@ == spec_mesh_pipeline_phase(old(self)@, st, cmds));
        }
    }

    /// Run the uniform half of `end_pass`.
    fn uniform_phase(&mut self, st: PassState, ubytes: Vec<u8>, Ghost(cmds): Ghost<
        Seq<DrawCmdModel>,
    >)
        requires
            old(self)@.wf(),
            cmds_wf(cmds),
            ubytes@ == spec_uniform_bytes(
                st,
                cmds,
                spec_eff_align(old(self)@.uniform_align),
            ),
        ensures
            final(self)@ == spec_uniform_phase(old(self)@, st, cmds),
            final(self)@.wf(),
            final(self)@.pass == old(self)@.pass,
    {
        self.ensure_mesh_resources();
        if ubytes.len() == 0 {
            return ;
        }
        let align: u64 = if (self.uniform_align as u64) >= UNIFORM_ALIGN_FLOOR {
            self.uniform_align as u64
        } else {
            UNIFORM_ALIGN_FLOOR
        };
        let required: u64 = ubytes.len() as u64;
        if required > self.mesh.uniform_capacity {
            let newcap: u64 = if required >= align {
                required
            } else {
                align
            };
            self.mesh.uniform_capacity = newcap;
            self.actions.push(GpuAction::GrowUniformBuffer { size_bytes: newcap });
        }
        self.actions.push(GpuAction::UploadUniform { bytes: ubytes });
        proof {
            assert(self@.actions =~= spec_uniform_phase(old(self)@, st, cmds).actions);
            assert(self@ == spec_uniform_phase(old(self)@, st, cmds));
        }
    }

    /// Run the recording half of `end_pass`.
    fn record_phase(
        &mut self,
        st: PassState,
        ranges: Vec<SegmentRange>,
        cmds_vec: &Vec<DrawCmd>,
    )
        requires
            old(self)@.wf(),
            cmds_vec@.len() <= MAX_PASS_COMMANDS + 1,
            ranges@ == spec_segment_ranges(cmds_vec@.map_values(|c: DrawCmd| c@)),
        ensures
            final(self)@ == spec_record_phase(
                old(self)@,
                st,
                cmds_vec@.map_values(|c: DrawCmd| c@),
            ),
            final(self)@.wf(),
            final(self)@.pass == old(self)@.pass,
    {
        let ghost cmds = cmds_vec@.map_values(|c: DrawCmd| c@);
        let resolvable = match self.frame {
            None => false,
            Some(fr) => if st.target_id == SURFACE_TARGET_HANDLE {
                fr.has_surface_view
            } else {
                self.textures.contains_key(&st.target_id)
            },
        };
        if !resolvable {
            return ;
        }
        let align: u64 = if (self.uniform_align as u64) >= UNIFORM_ALIGN_FLOOR {
            self.uniform_align as u64
        } else {
            UNIFORM_ALIGN_FLOOR
        };
        let pipeline_ok = self.mesh.resources_ready && formats_contain(
            &self.mesh.pipeline_formats,
            st.target_format,
        );
        let draws = build_draw_items(
            &self.textures,
            &self.meshes,
            self.fallback_ready,
            pipeline_ok,
            cmds_vec,
            align,
        );
        let record = PassRecord {
            target_id: st.target_id,
            format: st.target_format,
            clear: st.clear,
            viewport_x: st.viewport_x,
            viewport_y: st.viewport_y,
            viewport_w: st.viewport_w,
            viewport_h: st.viewport_h,
            segments: ranges,
            draws,
        };
        self.actions.push(GpuAction::RecordPass { record });
        proof {
            assert(self@.actions =~= spec_record_phase(old(self)@, st, cmds).actions);
            assert(self@ == spec_record_phase(old(self)@, st, cmds));
        }
    }

    /// End the open pass: flush pending sprites, prepare the instance
    /// storage, segment ranges, mesh pipeline and packed uniforms, and
    /// record one render pass against the resolved target view. An
    /// unresolvable target drops the pass silently; no open pass is a
    /// no-op.
    pub fn end_pass(&mut self)
        requires
            old(self)@.wf(),
        ensures
            final(self)@ == spec_end_pass(old(self)@),
            final(self)@.wf(),
    {
        let mut pass = match self.pass.take() {
            Some(p) => p,
            None => { return ; },
        };
        proof {
            assert(old(self)@.pass == Some(pass@));
            assert(pass@.wf());
        }
        pass.flush_sprites();
        let ghost cmds = pass@.commands;
        proof {
            assert(cmds == pass.commands@.map_values(|c: DrawCmd| c@));
            assert(cmds_wf(cmds));
            assert forall|i: int| 0 <= i < pass.commands@.len() implies match (
            #[trigger] pass.commands@[i])@ {
                DrawCmdModel::Sprites(seg) => seg.wf(),
                DrawCmdModel::Mesh(_) => true,
            } by {
                assert((pass.commands@[i])@ == cmds[i]);
                assert(match cmds[i] {
                    DrawCmdModel::Sprites(seg) => seg.wf(),
                    DrawCmdModel::Mesh(_) => true,
                });
            }
        }
        let (words, ranges, has_mesh) = collect_segments(&pass.commands);
        let st = pass.st;
        proof {
            assert(self@ == (RenderModel { pass: None, ..old(self)@ }));
        }
        let have_segments = ranges.len() > 0;
        self.sprite_phase(st, words, have_segments, Ghost(cmds));
        self.mesh_pipeline_phase(st, has_mesh, Ghost(cmds));
        let align: u64 = if (self.uniform_align as u64) >= UNIFORM_ALIGN_FLOOR {
            self.uniform_align as u64
        } else {
            UNIFORM_ALIGN_FLOOR
        };
        let ubytes = build_uniform_bytes(&st, &pass.commands, align);
        self.uniform_phase(st, ubytes, Ghost(cmds));
        self.record_phase(st, ranges, &pass.commands);
    }
}
/// Open a frame. Without a surface the frame stays closed (later draws
/// degrade to no-ops); otherwise a frame opens, remembering whether a
/// presentable image was acquired, and any stale pass is discarded.
pub open spec fn spec_begin_frame(s: RenderModel, acquired: bool) -> RenderModel {
    if !s.surface_present {
        RenderModel { frame: None, ..s }
    } else {
        RenderModel { frame: Some(FrameState { has_surface_view: acquired }), pass: None, ..s }
    }
}

/// The camera block of `begin_pass`: the raw camera values together with
/// the scalars the host float unit derived from them — the trigonometric
/// basis of the negated rotation, the clamped logical size, and the
/// projection scale per axis computed against the effective camera scale.
#[derive(Clone, Copy, Debug, PartialEq, Eq, Structural)]
pub struct CameraInput {
    pub x: u32,
    pub y: u32,
    pub rotation: u32,
    pub scale: u32,
    /// Cosine of the negated rotation.
    pub rot_cos: u32,
    /// Sine of the negated rotation.
    pub rot_sin: u32,
    /// The logical width, clamped to at least one, as scalar bits.
    pub width_bits: u32,
    /// The logical height, clamped to at least one, as scalar bits.
    pub height_bits: u32,
    /// Two divided by the logical width and the effective camera scale.
    pub proj_x: u32,
    /// Two divided by the logical height and the effective camera scale.
    pub proj_y: u32,
}

/// Clamp a host integer to the unsigned range.
pub open spec fn spec_clamp_low(v: i32) -> u32 {
    if v <= 0 {
        0u32
    } else {
        v as u32
    }
}

/// The snapshot a pass takes of its arguments: a zero camera scale is
/// replaced by one, and a degenerate logical size zeroes the projection
/// scale of its axis.
pub open spec fn spec_pass_state(
    target_id: i32,
    format: u32,
    clear: ColorBits,
    camera: CameraInput,
    viewport: (i32, i32, i32, i32),
) -> PassState {
    PassState {
        target_id,
        target_format: format,
        clear,
        camera_x: camera.x,
        camera_y: camera.y,
        camera_rot: camera.rotation,
        camera_scale: if spec_f32_bits_is_zero(camera.scale) {
            F32_ONE_BITS
        } else {
            camera.scale
        },
        cam_cos: camera.rot_cos,
        cam_sin: camera.rot_sin,
        proj_x: if spec_f32_bits_gt_zero(camera.width_bits) {
            camera.proj_x
        } else {
            F32_ZERO_BITS
        },
        proj_y: if spec_f32_bits_gt_zero(camera.height_bits) {
            camera.proj_y
        } else {
            F32_ZERO_BITS
        },
        width_logical: camera.width_bits,
        height_logical: camera.height_bits,
        viewport_x: spec_clamp_low(viewport.0),
        viewport_y: spec_clamp_low(viewport.1),
        viewport_w: spec_clamp_low(viewport.2),
        viewport_h: spec_clamp_low(viewport.3),
    }
}

/// The eight-word pass-global camera block written at `begin_pass`.
pub open spec fn spec_globals_words(st: PassState) -> Seq<u32> {
    seq![
        st.camera_x,
        st.camera_y,
        st.cam_cos,
        st.cam_sin,
        st.proj_x,
        st.proj_y,
        F32_ZERO_BITS,
        F32_ZERO_BITS,
    ]
}

/// Resolve a pass target to its format code: the surface handle needs a
/// configured surface, any other handle a registry texture.
pub open spec fn spec_target_format(s: RenderModel, target_id: i32) -> Result<u32, RenderError> {
    if target_id == SURFACE_TARGET_HANDLE {
        match s.surface_format {
            Some(f) => Ok(f),
            None => Err(RenderError::SurfaceNotConfigured),
        }
    } else if s.textures.contains_key(target_id) {
        Ok(TEXTURE_FORMAT_RGBA8)
    } else {
        Err(RenderError::MissingRenderTarget { target_id })
    }
}

/// Open a pass. Without a frame this is a no-op; a still-open pass is
/// first ended (a repair edge, not an error); an unresolvable target is
/// the one hard error, leaving the state as the repair left it. On
/// success the sprite resources exist, the pass globals are written, and
/// an empty recorder snapshots the arguments.
pub open spec fn spec_begin_pass(
    s0: RenderModel,
    target_id: i32,
    clear: ColorBits,
    camera: CameraInput,
    viewport: (i32, i32, i32, i32),
) -> (RenderModel, Result<(), RenderError>) {
    if s0.frame is None {
        (s0, Ok(()))
    } else {
        let s = if s0.pass is Some {
            spec_end_pass(s0)
        } else {
            s0
        };
        match spec_target_format(s, target_id) {
            Err(e) => (s, Err(e)),
            Ok(format) => {
                let st = spec_pass_state(target_id, format, clear, camera, viewport);
                let s1 = spec_ensure_sprite_resources(s);
                (
                    RenderModel {
                        pass: Some(
                            PassModel {
                                st,
                                commands: Seq::empty(),
                                cur_sprites: SegmentModel::empty(),
                            },
                        ),
                        actions: s1.actions.push(
                            ActionModel::WriteSpriteGlobals { words: spec_globals_words(st) },
                        ),
                        ..s1
                    },
                    Ok(()),
                )
            },
        }
    }
}

/// Close the frame: an open pass is ended first (a repair edge), then the
/// encoder is submitted and the acquired image, if any, presented.
/// Without a frame nothing happens.
pub open spec fn spec_end_frame(s: RenderModel) -> RenderModel {
    let s1 = spec_end_pass(s);
    match s1.frame {
        None => s1,
        Some(fr) => RenderModel {
            frame: None,
            actions: s1.actions.push(ActionModel::SubmitFrame { present: fr.has_surface_view }),
            ..s1
        },
    }
}

/// Create the reserved fallback texture once.
pub open spec fn spec_ensure_fallback(s: RenderModel) -> RenderModel {
    if s.fallback_ready {
        s
    } else {
        RenderModel {
            fallback_ready: true,
            actions: s.actions.push(ActionModel::CreateFallbackTexture),
            ..s
        }
    }
}

/// What a sprite draw resolved before its scalars are computed: the
/// texture binding it will use, that texture's size, and the effective UV
/// scale per axis.
#[derive(Clone, Copy, Debug, PartialEq, Eq, Structural)]
pub struct SpritePrep {
    /// The handle the batch will bind: the requested one if registered,
    /// else the reserved fallback handle.
    pub texture: i32,
    pub tex_width: u32,
    pub tex_height: u32,
    pub uv_scale_x: u32,
    pub uv_scale_y: u32,
}

/// The effective UV scale of one axis: a UV maximum not above the UV
/// minimum defaults the scale to one, else the raw extent stands.
pub open spec fn spec_effective_uv_scale(min_bits: u32, max_bits: u32, raw: u32) -> u32 {
    if spec_f32_bits_le(max_bits, min_bits) {
        F32_ONE_BITS
    } else {
        raw
    }
}

/// A degenerate UV rectangle — the maximum not above the minimum on an
/// axis — defaults that axis's UV scale to one.
pub proof fn lemma_degenerate_uv_scale_defaults(min_bits: u32, max_bits: u32, raw: u32)
    requires
        spec_f32_bits_le(max_bits, min_bits),
    ensures
        spec_effective_uv_scale(min_bits, max_bits, raw) == F32_ONE_BITS,
{
}

/// A camera scale of zero opens exactly the pass a camera scale of one
/// opens: the effective scale replaces any zero by one before anything
/// downstream reads it.
pub proof fn lemma_zero_camera_scale_behaves_as_one(
    s: RenderModel,
    target_id: i32,
    clear: ColorBits,
    camera: CameraInput,
    viewport: (i32, i32, i32, i32),
)
    requires
        spec_f32_bits_is_zero(camera.scale),
    ensures
        spec_begin_pass(s, target_id, clear, camera, viewport) == spec_begin_pass(
            s,
            target_id,
            clear,
            (CameraInput { scale: F32_ONE_BITS, ..camera }),
            viewport,
        ),
{
    let c1 = CameraInput { scale: F32_ONE_BITS, ..camera };
    assert(forall|t: i32, f: u32|
        spec_pass_state(t, f, clear, camera, viewport) == spec_pass_state(
            t,
            f,
            clear,
            c1,
            viewport,
        ));
}

/// Ending the frame while a pass is open behaves exactly as ending the
/// pass explicitly and then ending the frame.
pub proof fn lemma_end_frame_closes_open_pass(s: RenderModel)
    requires
        s.pass is Some,
    ensures
        spec_end_frame(s) == spec_end_frame(spec_end_pass(s)),
{
    assert(spec_end_pass(s).pass is None);
    assert(spec_end_pass(spec_end_pass(s)) == spec_end_pass(s));
}

/// The scalars of one sprite draw that the host float unit computed: the
/// trigonometric basis of the rotation, the texel region size per axis
/// (texture size times effective UV scale), and both candidate final
/// scales — against the region-derived factor and against a unit factor.
#[derive(Clone, Copy, Debug, PartialEq, Eq, Structural)]
pub struct SpriteArith {
    pub rotation_cos: u32,
    pub rotation_sin: u32,
    /// Texture width times the effective x UV scale.
    pub region_x: u32,
    /// Texture height times the effective y UV scale.
    pub region_y: u32,
    /// Scale x times region x over the base quad size.
    pub scale_region_x: u32,
    /// Scale y times region y over the base quad size.
    pub scale_region_y: u32,
    /// Scale x times one.
    pub scale_unit_x: u32,
    /// Scale y times one.
    pub scale_unit_y: u32,
}

/// The final scale of one axis: the region-derived candidate when the
/// region size is positive, else the unit candidate.
pub open spec fn spec_sprite_scale(region: u32, scale_region: u32, scale_unit: u32) -> u32 {
    if spec_f32_bits_gt_zero(region) {
        scale_region
    } else {
        scale_unit
    }
}

/// The 16-word instance record of one sprite draw: position, rotation
/// basis, final scale, two padding words, color, UV origin and UV scale.
pub open spec fn spec_sprite_record(
    prep: SpritePrep,
    x: u32,
    y: u32,
    color: ColorBits,
    uv_min: (u32, u32),
    arith: SpriteArith,
) -> Seq<u32> {
    seq![
        x,
        y,
        arith.rotation_cos,
        arith.rotation_sin,
        spec_sprite_scale(arith.region_x, arith.scale_region_x, arith.scale_unit_x),
        spec_sprite_scale(arith.region_y, arith.scale_region_y, arith.scale_unit_y),
        F32_ZERO_BITS,
        F32_ZERO_BITS,
        color.r,
        color.g,
        color.b,
        color.a,
        uv_min.0,
        uv_min.1,
        prep.uv_scale_x,
        prep.uv_scale_y,
    ]
}

impl GpuBackend {
    /// Open a frame: discard any stale pass, and remember whether the
    /// executor acquired a presentable image. Without a surface the frame
    /// stays closed and later draws degrade to no-ops.
    pub fn begin_frame(&mut self, acquired: bool)
        requires
            old(self)@.wf(),
        ensures
            final(self)@ == spec_begin_frame(old(self)@, acquired),
            final(self)@.wf(),
    {
        if !self.surface_present {
            self.frame = None;
            return ;
        }
        self.frame = Some(FrameState { has_surface_view: acquired });
        self.pass = None;
    }

    /// Open a pass against a target. Without a frame this is a no-op. A
    /// pass still open is ended first. Resolving the target is the one
    /// hard error: the surface handle needs a configured surface, any
    /// other handle a registry texture. On success the pass snapshot is
    /// taken and the pass-global camera block queued.
    pub fn begin_pass(
        &mut self,
        target_id: i32,
        clear: ColorBits,
        camera: CameraInput,
        viewport: (i32, i32, i32, i32),
    ) -> (r: Result<(), RenderError>)
        requires
            old(self)@.wf(),
        ensures
            final(self)@ == spec_begin_pass(old(self)@, target_id, clear, camera, viewport).0,
            r == spec_begin_pass(old(self)@, target_id, clear, camera, viewport).1,
            final(self)@.wf(),
    {
        if self.frame.is_none() {
            return Ok(());
        }
        if self.pass.is_some() {
            self.end_pass();
        }
        let ghost s_mid = self@;
        let format: u32 = if target_id == SURFACE_TARGET_HANDLE {
            match self.surface_format {
                Some(f) => f,
                None => { return Err(RenderError::SurfaceNotConfigured); },
            }
        } else {
            if self.textures.contains_key(&target_id) {
                TEXTURE_FORMAT_RGBA8
            } else {
                return Err(RenderError::MissingRenderTarget { target_id });
            }
        };
        let camera_scale = if f32_bits_is_zero(camera.scale) {
            F32_ONE_BITS
        } else {
            camera.scale
        };
        let proj_x = if f32_bits_gt_zero(camera.width_bits) {
            camera.proj_x
        } else {
            F32_ZERO_BITS
        };
        let proj_y = if f32_bits_gt_zero(camera.height_bits) {
            camera.proj_y
        } else {
            F32_ZERO_BITS
        };
        let (vx, vy, vw, vh) = viewport;
        let st = PassState {
            target_id,
            target_format: format,
            clear,
            camera_x: camera.x,
            camera_y: camera.y,
            camera_rot: camera.rotation,
            camera_scale,
            cam_cos: camera.rot_cos,
            cam_sin: camera.rot_sin,
            proj_x,
            proj_y,
            width_logical: camera.width_bits,
            height_logical: camera.height_bits,
            viewport_x: if vx <= 0 { 0 } else { vx as u32 },
            viewport_y: if vy <= 0 { 0 } else { vy as u32 },
            viewport_w: if vw <= 0 { 0 } else { vw as u32 },
            viewport_h: if vh <= 0 { 0 } else { vh as u32 },
        };
        proof {
            assert(st == spec_pass_state(target_id, format, clear, camera, viewport));
        }
        self.ensure_sprite_resources();
        let globals: Vec<u32> = vec![
            st.camera_x,
            st.camera_y,
            st.cam_cos,
            st.cam_sin,
            st.proj_x,
            st.proj_y,
            F32_ZERO_BITS,
            F32_ZERO_BITS,
        ];
        proof {
            assert(globals@ =~= spec_globals_words(st));
        }
        self.actions.push(GpuAction::WriteSpriteGlobals { words: globals });
        self.pass = Some(
            PassRecorder { st, commands: Vec::new(), cur_sprites: SpriteSegment::new() },
        );
        proof {
            let g = spec_begin_pass(old(self)@, target_id, clear, camera, viewport).0;
            assert(self@.actions =~= g.actions);
            assert(self@.pass.unwrap().commands =~= g.pass.unwrap().commands);
            assert(self@ == g);
        }
        Ok(())
    }

    /// Close the frame: an open pass is ended first, then the encoder is
    /// submitted, the acquired image presented if there was one, and the
    /// device polled without blocking. Without a frame nothing happens.
    pub fn end_frame(&mut self)
        requires
            old(self)@.wf(),
        ensures
            final(self)@ == spec_end_frame(old(self)@),
            final(self)@.wf(),
    {
        self.end_pass();
        let fr = match self.frame.take() {
            Some(f) => f,
            None => { return ; },
        };
        self.actions.push(GpuAction::SubmitFrame { present: fr.has_surface_view });
        proof {
            assert(self@.actions =~= spec_end_frame(old(self)@).actions);
            assert(self@ == spec_end_frame(old(self)@));
        }
    }

    /// Resolve a sprite draw's texture before its scalars are computed.
    /// Without a frame nothing happens. An absent handle substitutes the
    /// reserved fallback texture — created on first use — and never
    /// becomes a registry entry. The effective UV scale defaults each
    /// degenerate axis (UV maximum not above the minimum) to one.
    pub fn prepare_sprite(
        &mut self,
        texture_id: i32,
        uv_min: (u32, u32),
        uv_max: (u32, u32),
        raw_extent: (u32, u32),
    ) -> (r: Option<SpritePrep>)
        requires
            old(self)@.wf(),
        ensures
            final(self)@.wf(),
            old(self)@.frame is None ==> r is None && final(self)@ == old(self)@,
            old(self)@.frame is Some ==> match r {
                None => false,
                Some(prep) => {
                    &&& prep.uv_scale_x == spec_effective_uv_scale(
                        uv_min.0,
                        uv_max.0,
                        raw_extent.0,
                    )
                    &&& prep.uv_scale_y == spec_effective_uv_scale(
                        uv_min.1,
                        uv_max.1,
                        raw_extent.1,
                    )
                    &&& if old(self)@.textures.contains_key(texture_id) {
                        &&& prep.texture == texture_id
                        &&& prep.tex_width == old(self)@.textures[texture_id].width
                        &&& prep.tex_height == old(self)@.textures[texture_id].height
                        &&& final(self)@ == old(self)@
                    } else {
                        &&& prep.texture == FALLBACK_TEXTURE_HANDLE
                        &&& prep.tex_width == 1
                        &&& prep.tex_height == 1
                        &&& final(self)@ == spec_ensure_fallback(old(self)@)
                    }
                },
            },
    {
        if self.frame.is_none() {
            return None;
        }
        let (texture, tex_width, tex_height) = match self.textures.get(&texture_id) {
            Some(t) => (texture_id, t.width, t.height),
            None => {
                if !self.fallback_ready {
                    self.fallback_ready = true;
                    self.actions.push(GpuAction::CreateFallbackTexture);
                    proof {
                        assert(self@.actions =~= spec_ensure_fallback(old(self)@).actions);
                    }
                }
                (FALLBACK_TEXTURE_HANDLE, 1, 1)
            },
        };
        let uv_scale_x = if f32_bits_le(uv_max.0, uv_min.0) {
            F32_ONE_BITS
        } else {
            raw_extent.0
        };
        let uv_scale_y = if f32_bits_le(uv_max.1, uv_min.1) {
            F32_ONE_BITS
        } else {
            raw_extent.1
        };
        Some(SpritePrep { texture, tex_width, tex_height, uv_scale_x, uv_scale_y })
    }

    /// Record one sprite draw: append its 16-word instance record and
    /// extend or start a batch by texture adjacency. Without an open
    /// frame and pass nothing happens; a full segment drops the sprite.
    pub fn draw_sprite_uv(
        &mut self,
        prep: SpritePrep,
        x: u32,
        y: u32,
        color: ColorBits,
        uv_min: (u32, u32),
        arith: SpriteArith,
    )
        requires
            old(self)@.wf(),
        ensures
            final(self)@.wf(),
            old(self)@.frame is None || old(self)@.pass is None ==> final(self)@ == old(self)@,
            old(self)@.frame is Some && old(self)@.pass is Some ==> {
                let p = old(self)@.pass.unwrap();
                if p.cur_sprites.instance_count == u32::MAX {
                    final(self)@ == old(self)@
                } else {
                    final(self)@ == (RenderModel {
                        pass: Some(
                            PassModel {
                                st: p.st,
                                commands: p.commands,
                                cur_sprites: spec_push_sprite(
                                    p.cur_sprites,
                                    prep.texture,
                                    spec_sprite_record(prep, x, y, color, uv_min, arith),
                                ),
                            },
                        ),
                        ..old(self)@
                    })
                }
            },
    {
        if self.frame.is_none() {
            return ;
        }
        let pass = match &mut self.pass {
            Some(p) => p,
            None => { return ; },
        };
        if pass.cur_sprites.instance_count == u32::MAX {
            return ;
        }
        let scale_x = if f32_bits_gt_zero(arith.region_x) {
            arith.scale_region_x
        } else {
            arith.scale_unit_x
        };
        let scale_y = if f32_bits_gt_zero(arith.region_y) {
            arith.scale_region_y
        } else {
            arith.scale_unit_y
        };
        let record: [u32; 16] = [
            x,
            y,
            arith.rotation_cos,
            arith.rotation_sin,
            scale_x,
            scale_y,
            F32_ZERO_BITS,
            F32_ZERO_BITS,
            color.r,
            color.g,
            color.b,
            color.a,
            uv_min.0,
            uv_min.1,
            prep.uv_scale_x,
            prep.uv_scale_y,
        ];
        proof {
            assert(record@ =~= spec_sprite_record(prep, x, y, color, uv_min, arith));
        }
        pass.cur_sprites.push_sprite(prep.texture, &record);
    }

    /// Record one mesh draw: the pending sprite segment is sealed first,
    /// preserving draw order across the type switch. Without an open
    /// frame and pass nothing happens; a full command list drops the
    /// draw.
    pub fn draw_mesh(
        &mut self,
        mesh_id: i32,
        x: u32,
        y: u32,
        rotation_cos: u32,
        rotation_sin: u32,
        scale_x: u32,
        scale_y: u32,
        color: ColorBits,
    )
        requires
            old(self)@.wf(),
        ensures
            final(self)@.wf(),
            old(self)@.frame is None || old(self)@.pass is None ==> final(self)@ == old(self)@,
            old(self)@.frame is Some && old(self)@.pass is Some ==> {
                let p = old(self)@.pass.unwrap();
                if p.commands.len() + 2 > MAX_PASS_COMMANDS {
                    final(self)@ == old(self)@
                } else {
                    final(self)@ == (RenderModel {
                        pass: Some(
                            PassModel {
                                st: p.st,
                                commands: spec_flush(p).commands.push(
                                    DrawCmdModel::Mesh(
                                        MeshDraw {
                                            mesh_id,
                                            x,
                                            y,
                                            rotation_cos,
                                            rotation_sin,
                                            scale_x,
                                            scale_y,
                                            color,
                                        },
                                    ),
                                ),
                                cur_sprites: spec_flush(p).cur_sprites,
                            },
                        ),
                        ..old(self)@
                    })
                }
            },
    {
        if self.frame.is_none() {
            return ;
        }
        let pass = match &mut self.pass {
            Some(p) => p,
            None => { return ; },
        };
        if pass.commands.len() > MAX_PASS_COMMANDS - 2 {
            return ;
        }
        pass.flush_sprites();
        pass.commands.push(
            DrawCmd::Mesh(
                MeshDraw { mesh_id, x, y, rotation_cos, rotation_sin, scale_x, scale_y, color },
            ),
        );
        proof {
            let p = old(self)@.pass.unwrap();
            assert(self.pass.unwrap()@.commands =~= spec_flush(p).commands.push(
                DrawCmdModel::Mesh(
                    MeshDraw { mesh_id, x, y, rotation_cos, rotation_sin, scale_x, scale_y, color },
                ),
            ));
        }
    }
}

} // verus!
