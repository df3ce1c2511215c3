//! The units of GPU work the backend emits, in order, for the executor.
//!
//! The backend never touches the device itself: each call appends
//! [`GpuAction`] values to its queue, and the unverified executor that owns
//! the device, queue and window performs them in emission order. Ghost
//! mirrors ([`ActionModel`], [`PassRecordModel`]) carry the same data as
//! mathematical sequences, so that contracts can state an emitted action
//! exactly.

use vstd::prelude::*;

use crate::fbits::ColorBits;

verus! {

/// A hard failure of the backend itself (setup-class; draw-path misuse is
/// absorbed as a no-op instead).
#[derive(Clone, Copy, Debug, PartialEq, Eq, Structural)]
pub enum RenderError {
    /// A pass targeted the presentable surface before it was configured.
    SurfaceNotConfigured,
    /// A pass targeted a texture handle the registry does not contain.
    MissingRenderTarget { target_id: i32 },
}

/// A byte range of the shared sprite instance buffer backing one segment.
#[derive(Clone, Copy, Debug, PartialEq, Eq, Structural)]
pub struct SegmentRange {
    pub offset_bytes: u64,
    pub size_bytes: u64,
}

/// One draw call of a recorded pass, in submission order.
#[derive(Clone, Copy, Debug, PartialEq, Eq, Structural)]
pub enum DrawItem {
    /// Draw `instance_count` instances of the shared 6-vertex sprite quad,
    /// starting at `first_instance`, with `texture_id`'s binding and the
    /// instance range of segment `segment`.
    SpriteBatch { segment: usize, texture_id: i32, first_instance: u32, instance_count: u32 },
    /// Draw a mesh over its full index range, with its uniform block bound
    /// at the recorded dynamic offset.
    MeshDraw { mesh_id: i32, index_count: u32, uniform_offset: u32 },
}

/// Everything one recorded render pass needs: target, clear color,
/// viewport/scissor rectangle, the segment ranges of the instance buffer,
/// and the draw calls in submission order.
#[derive(Debug)]
pub struct PassRecord {
    /// Target handle; the reserved surface handle means the presentable image.
    pub target_id: i32,
    /// Format code of the target, selecting the pipeline flavor.
    pub format: u32,
    /// Clear color.
    pub clear: ColorBits,
    pub viewport_x: u32,
    pub viewport_y: u32,
    pub viewport_w: u32,
    pub viewport_h: u32,
    pub segments: Vec<SegmentRange>,
    pub draws: Vec<DrawItem>,
}

/// Ghost mirror of [`PassRecord`].
pub struct PassRecordModel {
    pub target_id: i32,
    pub format: u32,
    pub clear: ColorBits,
    pub viewport_x: u32,
    pub viewport_y: u32,
    pub viewport_w: u32,
    pub viewport_h: u32,
    pub segments: Seq<SegmentRange>,
    pub draws: Seq<DrawItem>,
}

impl View for PassRecord {
    type V = PassRecordModel;

    open spec fn view(&self) -> PassRecordModel {
        PassRecordModel {
            target_id: self.target_id,
            format: self.format,
            clear: self.clear,
            viewport_x: self.viewport_x,
            viewport_y: self.viewport_y,
            viewport_w: self.viewport_w,
            viewport_h: self.viewport_h,
            segments: self.segments@,
            draws: self.draws@,
        }
    }
}

/// One unit of GPU work, performed by the executor in emission order.
#[derive(Debug)]
pub enum GpuAction {
    /// Create the sprite bind group layouts, pipeline layout, globals and
    /// instance buffers, and the pipeline for the registry texture format.
    EnsureSpriteResources,
    /// Create the sprite pipeline for a non-registry target format.
    EnsureSpritePipeline { format: u32 },
    /// Create the mesh uniform layout, initial uniform buffer and binding.
    EnsureMeshResources,
    /// Create the mesh pipeline for a target format.
    EnsureMeshPipeline { format: u32 },
    /// Configure the presentable surface for a pixel size and format code.
    ConfigureSurface { width: u32, height: u32, format: u32 },
    /// Create a texture and upload `pixels` if nonempty (exactly
    /// `width * height * 4` bytes when present).
    CreateTexture {
        id: i32,
        width: u32,
        height: u32,
        nearest: bool,
        render_target: bool,
        pixels: Vec<u8>,
    },
    /// Create the reserved 1x1 opaque-white fallback texture.
    CreateFallbackTexture,
    /// Write a sub-rectangle of an existing texture; `pixels` holds exactly
    /// `width * height * 4` bytes.
    WriteTextureRegion { id: i32, x: u32, y: u32, width: u32, height: u32, pixels: Vec<u8> },
    /// Copy the clipped rectangle between two textures and submit at once.
    CopyTexture { src_id: i32, dst_id: i32, dst_x: u32, dst_y: u32, width: u32, height: u32 },
    /// Rebuild a texture's sampler and binding with the given filter mode.
    SetTextureSampler { id: i32, nearest: bool },
    /// Create a mesh's vertex and index buffers.
    CreateMesh { id: i32, vertex_words: Vec<u32>, indices: Vec<u16> },
    /// Write the eight-word pass-global camera block.
    WriteSpriteGlobals { words: Vec<u32> },
    /// Reallocate the sprite instance buffer to `size_bytes`.
    GrowInstanceBuffer { size_bytes: u64 },
    /// Upload the concatenated instance words at offset zero.
    UploadInstances { words: Vec<u32> },
    /// Reallocate the mesh uniform buffer to `size_bytes` and rebuild its
    /// binding.
    GrowUniformBuffer { size_bytes: u64 },
    /// Upload the packed mesh uniform bytes at offset zero.
    UploadUniform { bytes: Vec<u8> },
    /// Record one render pass on the open frame's encoder.
    RecordPass { record: PassRecord },
    /// Submit the frame's encoder, present the acquired image if asked,
    /// and poll the device without blocking.
    SubmitFrame { present: bool },
}

/// Ghost mirror of [`GpuAction`].
pub enum ActionModel {
    EnsureSpriteResources,
    EnsureSpritePipeline { format: u32 },
    EnsureMeshResources,
    EnsureMeshPipeline { format: u32 },
    ConfigureSurface { width: u32, height: u32, format: u32 },
    CreateTexture {
        id: i32,
        width: u32,
        height: u32,
        nearest: bool,
        render_target: bool,
        pixels: Seq<u8>,
    },
    CreateFallbackTexture,
    WriteTextureRegion { id: i32, x: u32, y: u32, width: u32, height: u32, pixels: Seq<u8> },
    CopyTexture { src_id: i32, dst_id: i32, dst_x: u32, dst_y: u32, width: u32, height: u32 },
    SetTextureSampler { id: i32, nearest: bool },
    CreateMesh { id: i32, vertex_words: Seq<u32>, indices: Seq<u16> },
    WriteSpriteGlobals { words: Seq<u32> },
    GrowInstanceBuffer { size_bytes: u64 },
    UploadInstances { words: Seq<u32> },
    GrowUniformBuffer { size_bytes: u64 },
    UploadUniform { bytes: Seq<u8> },
    RecordPass { record: PassRecordModel },
    SubmitFrame { present: bool },
}

impl View for GpuAction {
    type V = ActionModel;

    open spec fn view(&self) -> ActionModel {
        match self {
            GpuAction::EnsureSpriteResources => ActionModel::EnsureSpriteResources,
            GpuAction::EnsureSpritePipeline { format } => (ActionModel::EnsureSpritePipeline {
                format: *format,
            }),
            GpuAction::EnsureMeshResources => ActionModel::EnsureMeshResources,
            GpuAction::EnsureMeshPipeline { format } => (ActionModel::EnsureMeshPipeline {
                format: *format,
            }),
            GpuAction::ConfigureSurface { width, height, format } => (ActionModel::ConfigureSurface {
                width: *width,
                height: *height,
                format: *format,
            }),
            GpuAction::CreateTexture { id, width, height, nearest, render_target, pixels } => (
            ActionModel::CreateTexture {
                id: *id,
                width: *width,
                height: *height,
                nearest: *nearest,
                render_target: *render_target,
                pixels: pixels@,
            }),
            GpuAction::CreateFallbackTexture => ActionModel::CreateFallbackTexture,
            GpuAction::WriteTextureRegion { id, x, y, width, height, pixels } => (
            ActionModel::WriteTextureRegion {
                id: *id,
                x: *x,
                y: *y,
                width: *width,
                height: *height,
                pixels: pixels@,
            }),
            GpuAction::CopyTexture { src_id, dst_id, dst_x, dst_y, width, height } => (
            ActionModel::CopyTexture {
                src_id: *src_id,
                dst_id: *dst_id,
                dst_x: *dst_x,
                dst_y: *dst_y,
                width: *width,
                height: *height,
            }),
            GpuAction::SetTextureSampler { id, nearest } => (ActionModel::SetTextureSampler {
                id: *id,
                nearest: *nearest,
            }),
            GpuAction::CreateMesh { id, vertex_words, indices } => (ActionModel::CreateMesh {
                id: *id,
                vertex_words: vertex_words@,
                indices: indices@,
            }),
            GpuAction::WriteSpriteGlobals { words } => (ActionModel::WriteSpriteGlobals {
                words: words@,
            }),
            GpuAction::GrowInstanceBuffer { size_bytes } => (ActionModel::GrowInstanceBuffer {
                size_bytes: *size_bytes,
            }),
            GpuAction::UploadInstances { words } => (ActionModel::UploadInstances {
                words: words@,
            }),
            GpuAction::GrowUniformBuffer { size_bytes } => (ActionModel::GrowUniformBuffer {
                size_bytes: *size_bytes,
            }),
            GpuAction::UploadUniform { bytes } => (ActionModel::UploadUniform { bytes: bytes@ }),
            GpuAction::RecordPass { record } => (ActionModel::RecordPass { record: record@ }),
            GpuAction::SubmitFrame { present } => (ActionModel::SubmitFrame { present: *present }),
        }
    }
}

} // verus!
