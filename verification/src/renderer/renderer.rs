//! The per-tile work of a renderer: the vertices of a tile, and the order of
//! the steps on the graphics device.

use vstd::prelude::*;
use crate::data::mmap::{MapObjectView, MappedData};
use crate::data::serialization::{read_result, ReadError};
use crate::data::types::{BoundingBox, Geometry, MapObjectOffset, Point};
use crate::renderer::pipeline::ShaderType;
use crate::renderer::teardown::{teardown_plan, teardown_steps, TeardownStep};
use crate::renderer::vulkan::{VulkanError, ERROR_DEVICE_LOST};

verus! {

/// The number of 32-bit numbers that the vertex buffer of a renderer holds.
/// A vertex takes two of them, a line segment four.
pub const VERTEX_BUFFER_CAPACITY: usize = 10_000_000;

/// The longest that a renderer waits for the fence of a submission, in
/// nanoseconds. A wait that runs out fails the request.
pub const FENCE_TIMEOUT_NS: u64 = 10_000_000_000;

/// The vertices of the line segments of a polyline: for each pair of
/// consecutive points the first and then the second. A polyline of fewer than
/// two points has none.
pub open spec fn segments_of(points: Seq<Point>) -> Seq<Point> {
    if points.len() < 2 {
        Seq::empty()
    } else {
        Seq::new((2 * (points.len() - 1)) as nat, |k: int| points[(k + 1) / 2])
    }
}

/// The vertices that an object contributes to a tile: those of its segments
/// where its bounding box overlaps the tile's, none where it does not.
pub open spec fn visible_vertices(object: Geometry, tile_box: BoundingBox) -> Seq<Point> {
    if tile_box.overlaps_spec(object.bounding_box) {
        segments_of(object.points)
    } else {
        Seq::empty()
    }
}

/// The vertices of all the objects at the offsets, in the order of the
/// offsets. An offset at which no object can be read contributes nothing.
pub open spec fn all_vertices(
    data: Seq<u8>,
    offsets: Seq<MapObjectOffset>,
    tile_box: BoundingBox,
) -> Seq<Point>
    decreases offsets.len(),
{
    if offsets.len() == 0 {
        Seq::empty()
    } else {
        all_vertices(data, offsets.drop_last(), tile_box) + (match read_result(
            data,
            offsets.last() as int,
        ) {
            Ok(object) => visible_vertices(object, tile_box),
            Err(_) => Seq::empty(),
        })
    }
}

/// The number of vertices that a buffer of `capacity` 32-bit numbers takes:
/// two for each whole line segment that fits.
pub open spec fn vertex_limit(capacity: nat) -> nat {
    2 * (capacity / 4)
}

/// The first `limit` vertices, or all of them where they are fewer.
pub open spec fn clipped(vertices: Seq<Point>, limit: nat) -> Seq<Point> {
    if vertices.len() <= limit {
        vertices
    } else {
        vertices.take(limit as int)
    }
}

/// The vertices to draw for a tile: for each object at the offsets whose
/// bounding box overlaps the tile's, one line segment for each pair of
/// consecutive points. Once the buffer of `capacity` 32-bit numbers is full
/// the remaining segments are left out. The first offset at which no object
/// can be read ends the work with its error.
pub fn build_vertex_buffer(
    offsets: &[MapObjectOffset],
    mmap_data: &MappedData,
    bbox: &BoundingBox,
    capacity: usize,
) -> (r: Result<Vec<Point>, ReadError>)
    ensures
        match r {
            Ok(vertices) => {
                &&& forall|i: int|
                    0 <= i < offsets@.len() ==> read_result(
                        mmap_data@,
                        #[trigger] offsets@[i] as int,
                    ) is Ok
                &&& vertices@ == clipped(
                    all_vertices(mmap_data@, offsets@, *bbox),
                    vertex_limit(capacity as nat),
                )
            },
            Err(e) => exists|i: int|
                {
                    &&& 0 <= i < offsets@.len()
                    &&& read_result(mmap_data@, #[trigger] offsets@[i] as int) == Err::<
                        Geometry,
                        ReadError,
                    >(e)
                    &&& forall|j: int|
                        0 <= j < i ==> read_result(mmap_data@, #[trigger] offsets@[j] as int) is Ok
                },
        },
{
    let limit: usize = 2 * (capacity / 4);
    let mut vertices: Vec<Point> = Vec::new();
    let mut k: usize = 0;
    while k < offsets.len()
        invariant
            k <= offsets@.len(),
            limit == vertex_limit(capacity as nat),
            vertices@.len() % 2 == 0,
            vertices@.len() <= limit,
            forall|i: int|
                0 <= i < k ==> read_result(mmap_data@, #[trigger] offsets@[i] as int) is Ok,
            vertices@ == clipped(
                all_vertices(mmap_data@, offsets@.take(k as int), *bbox),
                limit as nat,
            ),
        decreases offsets@.len() - k,
    {
        let ghost before = all_vertices(mmap_data@, offsets@.take(k as int), *bbox);
        proof {
            let next = offsets@.take(k + 1);
            assert(next.drop_last() == offsets@.take(k as int));
            assert(next.last() == offsets@[k as int]);
        }
        match mmap_data.read_map_object(offsets[k]) {
            Err(e) => {
                return Err(e);
            },
            Ok(object) => {
                let n: usize = object.num_points();
                if bbox.overlaps(object.bounding_box()) && n >= 2 {
                    let ghost segments = segments_of(object@.points);
                    let mut i: usize = 1;
                    while i < n
                        invariant
                            1 <= i <= n,
                            n == object@.points.len(),
                            n >= 2,
                            segments == segments_of(object@.points),
                            limit % 2 == 0,
                            vertices@.len() % 2 == 0,
                            vertices@.len() <= limit,
                            vertices@ == clipped(
                                before + segments.take(2 * (i - 1)),
                                limit as nat,
                            ),
                        decreases n - i,
                    {
                        let ghost so_far = before + segments.take(2 * (i - 1));
                        let ghost further = before + segments.take(2 * i);
                        proof {
                            assert(segments.take(2 * i) == segments.take(2 * (i - 1)).push(
                                object@.points[i - 1],
                            ).push(object@.points[i as int]));
                            assert(further == so_far.push(object@.points[i - 1]).push(
                                object@.points[i as int],
                            ));
                        }
                        if limit - vertices.len() >= 2 {
                            vertices.push(object.point(i - 1));
                            vertices.push(object.point(i));
                            assert(vertices@ == further);
                        } else {
                            assert(vertices@.len() == limit);
                            assert(vertices@ == further.take(limit as int));
                        }
                        i = i + 1;
                    }
                    assert(segments.take(2 * (n - 1)) == segments);
                } else {
                    assert(visible_vertices(object@, *bbox) == Seq::<Point>::empty());
                    assert(before + Seq::<Point>::empty() == before);
                }
            },
        }
        k = k + 1;
    }
    assert(offsets@.take(k as int) == offsets@);
    Ok(vertices)
}

/// Where a renderer is in its life.
#[derive(Debug, Clone, Copy, PartialEq, Eq, Structural)]
pub enum Status {
    /// The device objects exist and tiles can be rendered.
    Ready,
    /// The device was lost: no tile can be rendered any more.
    Lost,
    /// The device objects were destroyed.
    TornDown,
}

/// Where a renderer is in the work on one tile.
#[derive(Debug, Clone, Copy, PartialEq, Eq, Structural)]
pub enum Stage {
    /// No tile is being rendered.
    Idle,
    /// The render target is being created.
    CreatingRenderTarget,
    /// The vertex buffer is being filled.
    BuildingVertices,
    /// The uniform buffer of the tile is being created.
    CreatingUniformBuffer,
    /// The descriptor set of the tile is being created.
    CreatingDescriptorSet,
    /// The commands are being recorded, submitted and waited for.
    Submitting,
    /// The rendered image is being read back.
    ReadingFramebuffer,
    /// The uniform buffer of the tile is being released.
    ReleasingUniformBuffer,
}

/// What happened outside the renderer.
#[derive(Debug, Clone, Copy, PartialEq, Eq, Structural)]
pub enum RenderEvent {
    /// A tile is asked for. `has_offsets` tells whether the index has map
    /// objects for it.
    TileRequested { has_offsets: bool },
    /// The step that was asked for has been carried out.
    Done,
    /// The vertex buffer has been filled with this many vertices.
    VerticesBuilt { vertex_count: u32 },
    /// The step that was asked for has failed.
    Failed { error: VulkanError },
}

/// What the renderer asks for next.
#[derive(Debug, Clone, Copy, PartialEq, Eq, Structural)]
pub enum RenderStep {
    /// Create the colour image, its view, the framebuffer and the staging
    /// buffer.
    CreateRenderTarget,
    /// Fill the vertex buffer with the vertices of the tile.
    BuildVertexBuffer,
    /// Create the uniform buffer with the tile's bounding box and projection.
    CreateUniformBuffer,
    /// Create the descriptor set that points at the uniform buffer.
    CreateDescriptorSet,
    /// Record the command buffer with one draw call for all the vertices,
    /// submit it with the fence and wait for the fence.
    RecordAndSubmit { vertex_count: u32 },
    /// Read the staging buffer as the raster of the tile.
    ReadFramebuffer,
    /// Destroy the uniform buffer of the tile and free its memory.
    ReleaseUniformBuffer,
    /// Answer the request with an all-white tile.
    ReturnBlank,
    /// Answer the request with the raster that was read back.
    ReturnImage,
    /// Answer the request with the error.
    ReturnError { error: VulkanError },
    /// The event does not belong to the stage that the renderer is in.
    /// Nothing has changed.
    Rejected,
}

/// What a renderer remembers between the steps: where it is in its life and
/// in the work on a tile, and which of its device objects exist.
#[derive(Debug, Clone, Copy, PartialEq, Eq, Structural)]
pub struct RendererState {
    pub status: Status,
    pub stage: Stage,
    /// The shader variant, chosen when the renderer is made.
    pub shader_type: ShaderType,
    /// The width and the height of the tiles that it renders, in pixels.
    pub tile_size: u32,
    /// The render target exists. It is created for the first tile that has
    /// something to draw, and kept.
    pub has_render_target: bool,
    /// The number of vertices of the tile that is being rendered.
    pub vertex_count: u32,
    /// The failure to report once the uniform buffer has been released.
    pub failure: Option<VulkanError>,
}

impl Stage {
    /// The uniform buffer of the tile exists in this stage.
    pub open spec fn uniform_live(self) -> bool {
        self == Stage::CreatingDescriptorSet || self == Stage::Submitting || self
            == Stage::ReadingFramebuffer || self == Stage::ReleasingUniformBuffer
    }

    /// The largest number of steps that the work on the tile still takes.
    pub open spec fn steps_left(self) -> nat {
        match self {
            Stage::Idle => 0,
            Stage::ReleasingUniformBuffer => 1,
            Stage::ReadingFramebuffer => 2,
            Stage::Submitting => 3,
            Stage::CreatingDescriptorSet => 4,
            Stage::CreatingUniformBuffer => 5,
            Stage::BuildingVertices => 6,
            Stage::CreatingRenderTarget => 7,
        }
    }
}

impl RenderStep {
    /// The step answers the request and so ends the work on the tile.
    pub open spec fn is_answer(self) -> bool {
        self == RenderStep::ReturnBlank || self == RenderStep::ReturnImage
            || self is ReturnError
    }
}

impl RendererState {
    /// The state with the stage and nothing else changed.
    pub open spec fn at(self, stage: Stage) -> RendererState {
        RendererState { stage, ..self }
    }

    /// The state is one that a renderer can be in: a renderer whose device
    /// was lost is between tiles or releases the uniform buffer of its last
    /// one, with the failure still to report, and a renderer that was torn
    /// down is between tiles.
    pub open spec fn well_formed(self) -> bool {
        match self.status {
            Status::Ready => true,
            Status::Lost => self.stage == Stage::Idle || (self.stage
                == Stage::ReleasingUniformBuffer && self.failure.is_some()),
            Status::TornDown => self.stage == Stage::Idle,
        }
    }

    /// What a renderer in the work on a tile, or ready for one, does on an
    /// event: its state afterwards and the step that it asks for. A failure
    /// ends the work on the tile, after the uniform buffer has been released
    /// where there is one; the failure that loses the device also ends the
    /// use of the renderer.
    pub open spec fn tile_next(self, event: RenderEvent) -> (RendererState, RenderStep) {
        match (self.stage, event) {
            (Stage::Idle, RenderEvent::TileRequested { has_offsets }) => {
                if !has_offsets {
                    (self, RenderStep::ReturnBlank)
                } else if self.has_render_target {
                    (self.at(Stage::BuildingVertices), RenderStep::BuildVertexBuffer)
                } else {
                    (self.at(Stage::CreatingRenderTarget), RenderStep::CreateRenderTarget)
                }
            },
            (Stage::CreatingRenderTarget, RenderEvent::Done) => (
                RendererState { has_render_target: true, ..self.at(Stage::BuildingVertices) },
                RenderStep::BuildVertexBuffer,
            ),
            (Stage::BuildingVertices, RenderEvent::VerticesBuilt { vertex_count }) => {
                if vertex_count == 0 {
                    (self.at(Stage::Idle), RenderStep::ReturnBlank)
                } else {
                    (
                        RendererState { vertex_count, ..self.at(Stage::CreatingUniformBuffer) },
                        RenderStep::CreateUniformBuffer,
                    )
                }
            },
            (Stage::CreatingUniformBuffer, RenderEvent::Done) => (
                self.at(Stage::CreatingDescriptorSet),
                RenderStep::CreateDescriptorSet,
            ),
            (Stage::CreatingDescriptorSet, RenderEvent::Done) => (
                self.at(Stage::Submitting),
                RenderStep::RecordAndSubmit { vertex_count: self.vertex_count },
            ),
            (Stage::Submitting, RenderEvent::Done) => (
                self.at(Stage::ReadingFramebuffer),
                RenderStep::ReadFramebuffer,
            ),
            (Stage::ReadingFramebuffer, RenderEvent::Done) => (
                RendererState { failure: None, ..self.at(Stage::ReleasingUniformBuffer) },
                RenderStep::ReleaseUniformBuffer,
            ),
            (Stage::ReleasingUniformBuffer, RenderEvent::Done) => (
                RendererState { failure: None, ..self.at(Stage::Idle) },
                match self.failure {
                    None => RenderStep::ReturnImage,
                    Some(error) => RenderStep::ReturnError { error },
                },
            ),
            (Stage::Idle, RenderEvent::Failed { error }) => (self, RenderStep::Rejected),
            (stage, RenderEvent::Failed { error }) => {
                let status = if error.fatal() {
                    Status::Lost
                } else {
                    self.status
                };
                if stage == Stage::ReleasingUniformBuffer {
                    (
                        RendererState { status, failure: None, ..self.at(Stage::Idle) },
                        RenderStep::ReturnError {
                            error: match self.failure {
                                None => error,
                                Some(first) => first,
                            },
                        },
                    )
                } else if stage.uniform_live() {
                    (
                        RendererState {
                            status,
                            failure: Some(error),
                            ..self.at(Stage::ReleasingUniformBuffer)
                        },
                        RenderStep::ReleaseUniformBuffer,
                    )
                } else {
                    (
                        RendererState { status, ..self.at(Stage::Idle) },
                        RenderStep::ReturnError { error },
                    )
                }
            },
            _ => (self, RenderStep::Rejected),
        }
    }

    /// What a renderer does on an event: its state afterwards and the step
    /// that it asks for. A renderer whose device was lost finishes releasing
    /// the uniform buffer of its last tile and answers every request with the
    /// error; one that was torn down rejects every event.
    pub open spec fn next(self, event: RenderEvent) -> (RendererState, RenderStep) {
        match self.status {
            Status::Ready => self.tile_next(event),
            Status::Lost => {
                if self.stage == Stage::ReleasingUniformBuffer {
                    self.tile_next(event)
                } else {
                    match event {
                        RenderEvent::TileRequested { has_offsets } => (
                            self,
                            RenderStep::ReturnError {
                                error: VulkanError::VkError(ERROR_DEVICE_LOST),
                            },
                        ),
                        _ => (self, RenderStep::Rejected),
                    }
                }
            },
            Status::TornDown => (self, RenderStep::Rejected),
        }
    }

    /// The state of a renderer whose device objects have just been created:
    /// it can render, no tile is in work, and it has no render target yet.
    pub fn new(shader_type: ShaderType, tile_size: u32) -> (state: RendererState)
        ensures
            state == (RendererState {
                status: Status::Ready,
                stage: Stage::Idle,
                shader_type,
                tile_size,
                has_render_target: false,
                vertex_count: 0,
                failure: None,
            }),
            state.well_formed(),
    {
        RendererState {
            status: Status::Ready,
            stage: Stage::Idle,
            shader_type,
            tile_size,
            has_render_target: false,
            vertex_count: 0,
            failure: None,
        }
    }

    /// Ends the life of the renderer and gives the steps that destroy its
    /// device objects, in order. A renderer that was torn down before has
    /// nothing left to destroy.
    pub fn tear_down(&mut self) -> (steps: Vec<TeardownStep>)
        ensures
            final(self).status == Status::TornDown,
            final(self).stage == Stage::Idle,
            final(self).well_formed(),
            steps@ == (if old(self).status == Status::TornDown {
                Seq::<TeardownStep>::empty()
            } else {
                teardown_plan(old(self).has_render_target, old(self).stage.uniform_live())
            }),
    {
        if self.status == Status::TornDown {
            self.stage = Stage::Idle;
            return Vec::new();
        }
        let uniform_live: bool = self.stage == Stage::CreatingDescriptorSet || self.stage
            == Stage::Submitting || self.stage == Stage::ReadingFramebuffer || self.stage
            == Stage::ReleasingUniformBuffer;
        let steps: Vec<TeardownStep> = teardown_steps(self.has_render_target, uniform_live);
        self.status = Status::TornDown;
        self.stage = Stage::Idle;
        self.has_render_target = false;
        self.failure = None;
        steps
    }

    /// Takes in what happened and says what to do next.
    pub fn advance(&mut self, event: RenderEvent) -> (step: RenderStep)
        ensures
            (*final(self), step) == old(self).next(event),
            old(self).well_formed() ==> final(self).well_formed(),
    {
        if self.status == Status::TornDown {
            return RenderStep::Rejected;
        }
        if self.status == Status::Lost && self.stage != Stage::ReleasingUniformBuffer {
            return match event {
                RenderEvent::TileRequested { has_offsets } => RenderStep::ReturnError {
                    error: VulkanError::VkError(ERROR_DEVICE_LOST),
                },
                _ => RenderStep::Rejected,
            };
        }
        match event {
            RenderEvent::TileRequested { has_offsets } => {
                if self.stage != Stage::Idle {
                    RenderStep::Rejected
                } else if !has_offsets {
                    RenderStep::ReturnBlank
                } else if self.has_render_target {
                    self.stage = Stage::BuildingVertices;
                    RenderStep::BuildVertexBuffer
                } else {
                    self.stage = Stage::CreatingRenderTarget;
                    RenderStep::CreateRenderTarget
                }
            },
            RenderEvent::VerticesBuilt { vertex_count } => {
                if self.stage != Stage::BuildingVertices {
                    RenderStep::Rejected
                } else if vertex_count == 0 {
                    self.stage = Stage::Idle;
                    RenderStep::ReturnBlank
                } else {
                    self.vertex_count = vertex_count;
                    self.stage = Stage::CreatingUniformBuffer;
                    RenderStep::CreateUniformBuffer
                }
            },
            RenderEvent::Done => match self.stage {
                Stage::CreatingRenderTarget => {
                    self.has_render_target = true;
                    self.stage = Stage::BuildingVertices;
                    RenderStep::BuildVertexBuffer
                },
                Stage::CreatingUniformBuffer => {
                    self.stage = Stage::CreatingDescriptorSet;
                    RenderStep::CreateDescriptorSet
                },
                Stage::CreatingDescriptorSet => {
                    self.stage = Stage::Submitting;
                    RenderStep::RecordAndSubmit { vertex_count: self.vertex_count }
                },
                Stage::Submitting => {
                    self.stage = Stage::ReadingFramebuffer;
                    RenderStep::ReadFramebuffer
                },
                Stage::ReadingFramebuffer => {
                    self.failure = None;
                    self.stage = Stage::ReleasingUniformBuffer;
                    RenderStep::ReleaseUniformBuffer
                },
                Stage::ReleasingUniformBuffer => {
                    let failure: Option<VulkanError> = self.failure;
                    self.failure = None;
                    self.stage = Stage::Idle;
                    match failure {
                        None => RenderStep::ReturnImage,
                        Some(error) => RenderStep::ReturnError { error },
                    }
                },
                _ => RenderStep::Rejected,
            },
            RenderEvent::Failed { error } => {
                let stage: Stage = self.stage;
                if stage == Stage::Idle {
                    return RenderStep::Rejected;
                }
                if error.is_fatal() {
                    self.status = Status::Lost;
                }
                if stage == Stage::ReleasingUniformBuffer {
                    let failure: Option<VulkanError> = self.failure;
                    self.failure = None;
                    self.stage = Stage::Idle;
                    match failure {
                        None => RenderStep::ReturnError { error },
                        Some(first) => RenderStep::ReturnError { error: first },
                    }
                } else if stage == Stage::CreatingDescriptorSet || stage == Stage::Submitting
                    || stage == Stage::ReadingFramebuffer {
                    self.failure = Some(error);
                    self.stage = Stage::ReleasingUniformBuffer;
                    RenderStep::ReleaseUniformBuffer
                } else {
                    self.stage = Stage::Idle;
                    RenderStep::ReturnError { error }
                }
            },
        }
    }
}

/// Every step leaves the renderer in a state that it can be in.
pub proof fn lemma_next_is_well_formed(state: RendererState, event: RenderEvent)
    requires
        state.well_formed(),
    ensures
        state.next(event).0.well_formed(),
{
}

/// A request for a tile without map objects is answered with a blank tile at
/// once: nothing is asked of the device and the renderer stays as it is.
pub proof fn lemma_no_offsets_gives_blank(state: RendererState)
    requires
        state.status == Status::Ready,
        state.stage == Stage::Idle,
    ensures
        state.next(RenderEvent::TileRequested { has_offsets: false }) == (
            state,
            RenderStep::ReturnBlank,
        ),
{
}

/// A tile without vertices is answered with a blank tile, with no uniform
/// buffer made and nothing submitted.
pub proof fn lemma_no_vertices_gives_blank(state: RendererState)
    requires
        state.status == Status::Ready,
        state.stage == Stage::BuildingVertices,
    ensures
        state.next(RenderEvent::VerticesBuilt { vertex_count: 0 }).1 == RenderStep::ReturnBlank,
        state.next(RenderEvent::VerticesBuilt { vertex_count: 0 }).0 == state.at(Stage::Idle),
{
}

/// The render target is created once: a renderer that has one never asks for
/// another, and keeps it.
pub proof fn lemma_render_target_is_kept(state: RendererState, event: RenderEvent)
    requires
        state.has_render_target,
    ensures
        state.next(event).1 != RenderStep::CreateRenderTarget,
        state.next(event).0.has_render_target,
{
}

/// Whenever the request is answered, the work on the tile is over and the
/// uniform buffer of the tile has been released: no answer is given while it
/// exists, but for the answer to its release.
pub proof fn lemma_answer_ends_the_tile(state: RendererState, event: RenderEvent)
    requires
        state.well_formed(),
        state.next(event).1.is_answer(),
    ensures
        state.next(event).0.stage == Stage::Idle,
        state.stage.uniform_live() ==> state.stage == Stage::ReleasingUniformBuffer,
{
}

/// A failure that does not lose the device fails the one request only: the
/// renderer can render the next tile.
pub proof fn lemma_failure_is_not_fatal(state: RendererState, error: VulkanError)
    requires
        state.status == Status::Ready,
        !error.fatal(),
    ensures
        state.next(RenderEvent::Failed { error }).0.status == Status::Ready,
{
}

/// The failure that loses the device ends the use of the renderer.
pub proof fn lemma_lost_device_is_fatal(state: RendererState, error: VulkanError)
    requires
        state.status == Status::Ready,
        state.stage != Stage::Idle,
        error.fatal(),
    ensures
        state.next(RenderEvent::Failed { error }).0.status == Status::Lost,
{
}

/// Once the device is lost the renderer never renders again: it stays lost,
/// asks for nothing but the release of the uniform buffer of its last tile,
/// and answers each request with an error.
pub proof fn lemma_lost_is_final(state: RendererState, event: RenderEvent)
    requires
        state.well_formed(),
        state.status == Status::Lost,
    ensures
        state.next(event).0.status == Status::Lost,
        state.next(event).1 == RenderStep::Rejected || state.next(event).1 is ReturnError,
        state.stage == Stage::Idle ==> state.next(event).0 == state,
{
}

/// The work on a tile comes to an end: each step that is not rejected and
/// does not answer the request leaves fewer steps to take, and the first
/// leaves at most seven.
pub proof fn lemma_steps_decrease(state: RendererState, event: RenderEvent)
    requires
        state.well_formed(),
        state.next(event).1 != RenderStep::Rejected,
        !state.next(event).1.is_answer(),
    ensures
        state.stage == Stage::Idle || state.next(event).0.stage.steps_left()
            < state.stage.steps_left(),
        state.next(event).0.stage.steps_left() <= 7,
{
}

} // verus!
