//! The order in which the device objects of a renderer are destroyed.
//!
//! An object is destroyed before everything that it uses: a buffer before
//! its memory, the memory before the allocator, the allocator before the
//! device, the device before the instance.

use vstd::prelude::*;

verus! {

/// A device object of a renderer.
#[derive(Debug, Clone, Copy, PartialEq, Eq, Structural)]
pub enum Resource {
    /// The uniform buffer of the tile in work.
    UniformBuffer,
    /// The memory of the uniform buffer.
    UniformMemory,
    /// The framebuffer of the render target.
    Framebuffer,
    /// The view of the colour image.
    ColorImageView,
    /// The colour image that tiles are drawn into.
    ColorImage,
    /// The buffer that a rendered tile is read back from.
    StagingBuffer,
    /// The memory of the colour image.
    ColorImageMemory,
    /// The memory of the staging buffer.
    StagingMemory,
    /// The vertex buffer.
    VertexBuffer,
    /// The memory of the vertex buffer.
    VertexMemory,
    /// The fence that a submission signals.
    Fence,
    /// The pool of the descriptor sets.
    DescriptorPool,
    /// The graphics pipeline.
    Pipeline,
    /// The layout of the pipeline.
    PipelineLayout,
    /// The layout of the descriptor sets.
    DescriptorSetLayout,
    /// The render pass.
    RenderPass,
    /// The memory allocator.
    Allocator,
    /// The pool of the command buffer.
    CommandPool,
    /// The logical device.
    Device,
    /// The instance of the graphics interface.
    Instance,
}

/// One step of tearing a renderer down.
#[derive(Debug, Clone, Copy, PartialEq, Eq, Structural)]
pub enum TeardownStep {
    /// Wait until the device is idle.
    WaitIdle,
    /// Destroy the object, or free the memory.
    Destroy(Resource),
}

impl Resource {
    /// The object `self` uses the object `other`, so that `other` must
    /// outlive it.
    pub open spec fn uses(self, other: Resource) -> bool {
        match self {
            Resource::UniformBuffer => other == Resource::UniformMemory || other
                == Resource::Device,
            Resource::Framebuffer => other == Resource::ColorImageView || other
                == Resource::RenderPass || other == Resource::Device,
            Resource::ColorImageView => other == Resource::ColorImage || other == Resource::Device,
            Resource::ColorImage => other == Resource::ColorImageMemory || other
                == Resource::Device,
            Resource::StagingBuffer => other == Resource::StagingMemory || other
                == Resource::Device,
            Resource::VertexBuffer => other == Resource::VertexMemory || other == Resource::Device,
            Resource::UniformMemory
            | Resource::ColorImageMemory
            | Resource::StagingMemory
            | Resource::VertexMemory => other == Resource::Allocator,
            Resource::Pipeline => other == Resource::PipelineLayout || other
                == Resource::RenderPass || other == Resource::Device,
            Resource::PipelineLayout => other == Resource::DescriptorSetLayout || other
                == Resource::Device,
            Resource::Fence
            | Resource::DescriptorPool
            | Resource::DescriptorSetLayout
            | Resource::RenderPass
            | Resource::Allocator
            | Resource::CommandPool => other == Resource::Device,
            Resource::Device => other == Resource::Instance,
            Resource::Instance => false,
        }
    }

    /// The place of the object in the order of destruction.
    pub open spec fn place(self) -> int {
        match self {
            Resource::UniformBuffer => 1,
            Resource::UniformMemory => 2,
            Resource::Framebuffer => 3,
            Resource::ColorImageView => 4,
            Resource::ColorImage => 5,
            Resource::StagingBuffer => 6,
            Resource::ColorImageMemory => 7,
            Resource::StagingMemory => 8,
            Resource::VertexBuffer => 9,
            Resource::VertexMemory => 10,
            Resource::Fence => 11,
            Resource::DescriptorPool => 12,
            Resource::Pipeline => 13,
            Resource::PipelineLayout => 14,
            Resource::DescriptorSetLayout => 15,
            Resource::RenderPass => 16,
            Resource::Allocator => 17,
            Resource::CommandPool => 18,
            Resource::Device => 19,
            Resource::Instance => 20,
        }
    }

    /// The object belongs to the render target.
    pub open spec fn of_render_target(self) -> bool {
        3 <= self.place() <= 8
    }

    /// The object belongs to the tile in work.
    pub open spec fn of_tile(self) -> bool {
        self.place() <= 2
    }
}

impl TeardownStep {
    /// The place of the step in the order of the steps: waiting comes first.
    pub open spec fn place(self) -> int {
        match self {
            TeardownStep::WaitIdle => 0,
            TeardownStep::Destroy(resource) => resource.place(),
        }
    }
}

/// The steps that destroy the objects of the tile in work.
pub open spec fn tile_steps() -> Seq<TeardownStep> {
    seq![
        TeardownStep::Destroy(Resource::UniformBuffer),
        TeardownStep::Destroy(Resource::UniformMemory),
    ]
}

/// The steps that destroy the render target.
pub open spec fn render_target_steps() -> Seq<TeardownStep> {
    seq![
        TeardownStep::Destroy(Resource::Framebuffer),
        TeardownStep::Destroy(Resource::ColorImageView),
        TeardownStep::Destroy(Resource::ColorImage),
        TeardownStep::Destroy(Resource::StagingBuffer),
        TeardownStep::Destroy(Resource::ColorImageMemory),
        TeardownStep::Destroy(Resource::StagingMemory),
    ]
}

/// The steps that destroy what every renderer has.
pub open spec fn common_steps() -> Seq<TeardownStep> {
    seq![
        TeardownStep::Destroy(Resource::VertexBuffer),
        TeardownStep::Destroy(Resource::VertexMemory),
        TeardownStep::Destroy(Resource::Fence),
        TeardownStep::Destroy(Resource::DescriptorPool),
        TeardownStep::Destroy(Resource::Pipeline),
        TeardownStep::Destroy(Resource::PipelineLayout),
        TeardownStep::Destroy(Resource::DescriptorSetLayout),
        TeardownStep::Destroy(Resource::RenderPass),
        TeardownStep::Destroy(Resource::Allocator),
        TeardownStep::Destroy(Resource::CommandPool),
        TeardownStep::Destroy(Resource::Device),
        TeardownStep::Destroy(Resource::Instance),
    ]
}

/// The steps that tear a renderer down: wait for the device, destroy the
/// uniform buffer of a tile in work, destroy the render target where there
/// is one, then the vertex buffer, the objects of the pipeline, and last the
/// allocator, the command pool, the device and the instance.
pub open spec fn teardown_plan(has_render_target: bool, uniform_live: bool) -> Seq<TeardownStep> {
    seq![TeardownStep::WaitIdle] + (if uniform_live {
        tile_steps()
    } else {
        Seq::empty()
    }) + (if has_render_target {
        render_target_steps()
    } else {
        Seq::empty()
    }) + common_steps()
}

/// The steps that tear a renderer down, in order.
pub fn teardown_steps(has_render_target: bool, uniform_live: bool) -> (steps: Vec<TeardownStep>)
    ensures
        steps@ == teardown_plan(has_render_target, uniform_live),
{
    let mut steps: Vec<TeardownStep> = Vec::new();
    steps.push(TeardownStep::WaitIdle);
    if uniform_live {
        steps.push(TeardownStep::Destroy(Resource::UniformBuffer));
        steps.push(TeardownStep::Destroy(Resource::UniformMemory));
    }
    let ghost with_tile = steps@;
    assert(with_tile =~= seq![TeardownStep::WaitIdle] + (if uniform_live {
        tile_steps()
    } else {
        Seq::empty()
    }));
    if has_render_target {
        steps.push(TeardownStep::Destroy(Resource::Framebuffer));
        steps.push(TeardownStep::Destroy(Resource::ColorImageView));
        steps.push(TeardownStep::Destroy(Resource::ColorImage));
        steps.push(TeardownStep::Destroy(Resource::StagingBuffer));
        steps.push(TeardownStep::Destroy(Resource::ColorImageMemory));
        steps.push(TeardownStep::Destroy(Resource::StagingMemory));
    }
    let ghost with_target = steps@;
    assert(with_target =~= with_tile + (if has_render_target {
        render_target_steps()
    } else {
        Seq::empty()
    }));
    steps.push(TeardownStep::Destroy(Resource::VertexBuffer));
    steps.push(TeardownStep::Destroy(Resource::VertexMemory));
    steps.push(TeardownStep::Destroy(Resource::Fence));
    steps.push(TeardownStep::Destroy(Resource::DescriptorPool));
    steps.push(TeardownStep::Destroy(Resource::Pipeline));
    steps.push(TeardownStep::Destroy(Resource::PipelineLayout));
    steps.push(TeardownStep::Destroy(Resource::DescriptorSetLayout));
    steps.push(TeardownStep::Destroy(Resource::RenderPass));
    steps.push(TeardownStep::Destroy(Resource::Allocator));
    steps.push(TeardownStep::Destroy(Resource::CommandPool));
    steps.push(TeardownStep::Destroy(Resource::Device));
    steps.push(TeardownStep::Destroy(Resource::Instance));
    assert(steps@ =~= with_target + common_steps());
    steps
}

/// An object comes before everything that it uses in the order of
/// destruction.
pub proof fn lemma_user_comes_first(user: Resource, used: Resource)
    requires
        user.uses(used),
    ensures
        user.place() < used.place(),
{
}

/// The steps of a sequence are in the order of their places.
pub open spec fn in_order(steps: Seq<TeardownStep>) -> bool {
    forall|i: int, j: int|
        0 <= i < j < steps.len() ==> (#[trigger] steps[i]).place() < (#[trigger] steps[j]).place()
}

/// A sequence whose neighbours are in order is in order.
proof fn lemma_neighbours_in_order(steps: Seq<TeardownStep>)
    requires
        forall|i: int|
            0 < i < steps.len() ==> steps[i - 1].place() < (#[trigger] steps[i]).place(),
    ensures
        in_order(steps),
    decreases steps.len(),
{
    if steps.len() > 1 {
        let front = steps.drop_last();
        assert forall|i: int| 0 < i < front.len() implies front[i - 1].place() < (
        #[trigger] front[i]).place() by {
            assert(steps[i - 1].place() < steps[i].place());
        }
        lemma_neighbours_in_order(front);
        let last = steps.len() - 1;
        assert forall|i: int, j: int| 0 <= i < j < steps.len() implies (
        #[trigger] steps[i]).place() < (#[trigger] steps[j]).place() by {
            if j < last {
                assert(front[i].place() < front[j].place());
            } else if i < last - 1 {
                assert(front[i].place() < front[last - 1].place());
                assert(steps[last - 1].place() < steps[last].place());
            } else {
                assert(steps[last - 1].place() < steps[last].place());
            }
        }
    }
}

/// The plan is in the order of destruction, and starts by waiting.
pub proof fn lemma_plan_in_order(has_render_target: bool, uniform_live: bool)
    ensures
        in_order(teardown_plan(has_render_target, uniform_live)),
        teardown_plan(has_render_target, uniform_live)[0] == TeardownStep::WaitIdle,
{
    let plan = teardown_plan(has_render_target, uniform_live);
    let head = seq![TeardownStep::WaitIdle];
    let tile = if uniform_live {
        tile_steps()
    } else {
        Seq::<TeardownStep>::empty()
    };
    let target = if has_render_target {
        render_target_steps()
    } else {
        Seq::<TeardownStep>::empty()
    };
    let common = common_steps();
    let a = head.len() as int;
    let b = a + tile.len();
    let c = b + target.len();
    assert(plan.len() == c + 12);
    assert forall|i: int| 0 < i < plan.len() implies plan[i - 1].place() < (
    #[trigger] plan[i]).place() by {
        lemma_plan_step(has_render_target, uniform_live, i - 1);
        lemma_plan_step(has_render_target, uniform_live, i);
    }
    lemma_neighbours_in_order(plan);
}

/// The bounds between which the place of each step of the plan lies.
proof fn lemma_plan_step(has_render_target: bool, uniform_live: bool, i: int)
    requires
        0 <= i < teardown_plan(has_render_target, uniform_live).len(),
    ensures
        ({
            let plan = teardown_plan(has_render_target, uniform_live);
            let a = 1 + (if uniform_live { 2int } else { 0int });
            let b = a + (if has_render_target { 6int } else { 0int });
            &&& plan.len() == b + 12
            &&& i == 0 ==> plan[i].place() == 0
            &&& 1 <= i < a ==> plan[i].place() == i
            &&& a <= i < b ==> plan[i].place() == 3 + (i - a)
            &&& b <= i ==> plan[i].place() == 9 + (i - b)
        }),
{
    let plan = teardown_plan(has_render_target, uniform_live);
    let head = seq![TeardownStep::WaitIdle];
    let tile = if uniform_live {
        tile_steps()
    } else {
        Seq::<TeardownStep>::empty()
    };
    let target = if has_render_target {
        render_target_steps()
    } else {
        Seq::<TeardownStep>::empty()
    };
    let common = common_steps();
    let a = 1 + tile.len() as int;
    let b = a + target.len() as int;
    assert(plan == head + tile + target + common);
    if i == 0 {
        assert(plan[i] == head[0]);
    } else if i < a {
        assert(plan[i] == tile[i - 1]);
    } else if i < b {
        assert(plan[i] == target[i - a]);
    } else {
        assert(plan[i] == common[i - b]);
        let k = i - b;
        assert(k == 0 || k == 1 || k == 2 || k == 3 || k == 4 || k == 5 || k == 6 || k == 7 || k
            == 8 || k == 9 || k == 10 || k == 11);
    }
}

/// Nothing is destroyed while an object that uses it is still there: no
/// object that the plan destroys is used by one that the plan destroys
/// later.
pub proof fn lemma_plan_respects_uses(
    has_render_target: bool,
    uniform_live: bool,
    i: int,
    j: int,
)
    requires
        0 <= i < j < teardown_plan(has_render_target, uniform_live).len(),
    ensures
        match (
            teardown_plan(has_render_target, uniform_live)[i],
            teardown_plan(has_render_target, uniform_live)[j],
        ) {
            (TeardownStep::Destroy(earlier), TeardownStep::Destroy(later)) => !later.uses(earlier),
            _ => true,
        },
{
    let plan = teardown_plan(has_render_target, uniform_live);
    lemma_plan_in_order(has_render_target, uniform_live);
    assert(plan[i].place() < plan[j].place());
    match (plan[i], plan[j]) {
        (TeardownStep::Destroy(earlier), TeardownStep::Destroy(later)) => {
            if later.uses(earlier) {
                lemma_user_comes_first(later, earlier);
            }
        },
        _ => {},
    }
}

/// The plan destroys every object that the renderer has: what every renderer
/// has, the render target where it exists, and the uniform buffer of a tile
/// in work.
pub proof fn lemma_plan_is_complete(
    has_render_target: bool,
    uniform_live: bool,
    resource: Resource,
)
    ensures
        teardown_plan(has_render_target, uniform_live).contains(TeardownStep::Destroy(resource))
            <==> ((resource.of_tile() ==> uniform_live) && (resource.of_render_target()
            ==> has_render_target)),
{
    let plan = teardown_plan(has_render_target, uniform_live);
    let step = TeardownStep::Destroy(resource);
    let a = 1 + (if uniform_live { 2int } else { 0int });
    let b = a + (if has_render_target { 6int } else { 0int });
    lemma_plan_step(has_render_target, uniform_live, 0);
    let wanted = (resource.of_tile() ==> uniform_live) && (resource.of_render_target()
        ==> has_render_target);
    if wanted {
        let p = resource.place();
        let i = if p <= 2 {
            p
        } else if p <= 8 {
            a + (p - 3)
        } else {
            b + (p - 9)
        };
        lemma_plan_step(has_render_target, uniform_live, i);
        assert(plan[i].place() == p);
        assert(plan[i] is Destroy);
        assert(plan[i] == step) by {
            lemma_place_names_resource(plan[i]->0, resource);
        }
    }
    if plan.contains(step) {
        let i = choose|i: int| 0 <= i < plan.len() && plan[i] == step;
        lemma_plan_step(has_render_target, uniform_live, i);
    }
}

/// Two objects at the same place are the same object.
proof fn lemma_place_names_resource(a: Resource, b: Resource)
    requires
        a.place() == b.place(),
    ensures
        a == b,
{
}

} // verus!
