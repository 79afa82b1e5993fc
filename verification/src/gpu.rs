//! The schedule of GPU work: which compute kernel each simulation stage
//! runs, which buffers it binds and in what order, how many threads it
//! launches, and the sizes of the buffers and images involved.  The calls
//! into the GPU itself are made by the application from these plans.

use vstd::prelude::*;

verus! {

/// A stage of one simulation step.
#[derive(Clone, Copy, PartialEq, Eq, Structural, Debug)]
pub enum Stage {
    EField,
    HField,
    EDipole,
    Velocity,
    CheckMaxVel,
    Position,
    Direction,
}

/// A compute kernel of the shader library.
#[derive(Clone, Copy, PartialEq, Eq, Structural, Debug)]
pub enum Kernel {
    EField,
    HField,
    EDipole,
    Velocity,
    Position,
    Direction,
    CheckMaxVel,
    Render,
}

/// A buffer that lives on the GPU for the whole simulation.
#[derive(Clone, Copy, PartialEq, Eq, Structural, Debug)]
pub enum Buffer {
    Position,
    Direction,
    EDipole,
    EField,
    HField,
    Velocity,
    CheckOutput,
}

/// Where a buffer's memory lives.
#[derive(Clone, Copy, PartialEq, Eq, Structural, Debug)]
pub enum Storage {
    /// Only the GPU can read and write it.
    Private,
    /// The CPU can read it too.
    Shared,
}

/// The name of each kernel's function in the shader library.
pub open spec fn spec_function_name(k: Kernel) -> Seq<char> {
    match k {
        Kernel::EField => "update_e_field"@,
        Kernel::HField => "update_h_field"@,
        Kernel::EDipole => "update_e_dipole"@,
        Kernel::Velocity => "update_velocity"@,
        Kernel::Position => "update_position"@,
        Kernel::Direction => "update_direction"@,
        Kernel::CheckMaxVel => "check_max_vel"@,
        Kernel::Render => "render_kernel"@,
    }
}

/// The kernel each stage runs.
pub open spec fn spec_stage_kernel(s: Stage) -> Kernel {
    match s {
        Stage::EField => Kernel::EField,
        Stage::HField => Kernel::HField,
        Stage::EDipole => Kernel::EDipole,
        Stage::Velocity => Kernel::Velocity,
        Stage::CheckMaxVel => Kernel::CheckMaxVel,
        Stage::Position => Kernel::Position,
        Stage::Direction => Kernel::Direction,
    }
}

/// The buffers each stage binds; the buffer at position `i` is bound at
/// index `i`.
pub open spec fn spec_stage_buffers(s: Stage) -> Seq<Buffer> {
    match s {
        Stage::EField => seq![Buffer::Position, Buffer::EDipole, Buffer::EField],
        Stage::HField => seq![Buffer::Position, Buffer::Direction, Buffer::HField],
        Stage::EDipole => seq![Buffer::EField, Buffer::Direction, Buffer::EDipole],
        Stage::Velocity => seq![Buffer::Position, Buffer::Direction, Buffer::EDipole, Buffer::Velocity],
        Stage::CheckMaxVel => seq![Buffer::Velocity, Buffer::CheckOutput],
        Stage::Position => seq![Buffer::Position, Buffer::Velocity],
        Stage::Direction => seq![Buffer::Direction, Buffer::HField, Buffer::EField],
    }
}

impl Kernel {
    /// The name of the kernel's function in the shader library.
    pub fn function_name(&self) -> (name: &'static str)
        ensures
            name@ == spec_function_name(*self),
    {
        match self {
            Kernel::EField => "update_e_field",
            Kernel::HField => "update_h_field",
            Kernel::EDipole => "update_e_dipole",
            Kernel::Velocity => "update_velocity",
            Kernel::Position => "update_position",
            Kernel::Direction => "update_direction",
            Kernel::CheckMaxVel => "check_max_vel",
            Kernel::Render => "render_kernel",
        }
    }
}

impl Stage {
    /// The kernel this stage runs.
    pub fn kernel(&self) -> (k: Kernel)
        ensures
            k == spec_stage_kernel(*self),
    {
        match self {
            Stage::EField => Kernel::EField,
            Stage::HField => Kernel::HField,
            Stage::EDipole => Kernel::EDipole,
            Stage::Velocity => Kernel::Velocity,
            Stage::CheckMaxVel => Kernel::CheckMaxVel,
            Stage::Position => Kernel::Position,
            Stage::Direction => Kernel::Direction,
        }
    }

    /// The buffers this stage binds, in binding order.
    pub fn buffers(&self) -> (bufs: Vec<Buffer>)
        ensures
            bufs@ == spec_stage_buffers(*self),
    {
        let bufs = match self {
            Stage::EField => vec![Buffer::Position, Buffer::EDipole, Buffer::EField],
            Stage::HField => vec![Buffer::Position, Buffer::Direction, Buffer::HField],
            Stage::EDipole => vec![Buffer::EField, Buffer::Direction, Buffer::EDipole],
            Stage::Velocity => vec![Buffer::Position, Buffer::Direction, Buffer::EDipole, Buffer::Velocity],
            Stage::CheckMaxVel => vec![Buffer::Velocity, Buffer::CheckOutput],
            Stage::Position => vec![Buffer::Position, Buffer::Velocity],
            Stage::Direction => vec![Buffer::Direction, Buffer::HField, Buffer::EField],
        };
        assert(bufs@ =~= spec_stage_buffers(*self));
        bufs
    }

    /// The thread grid and thread-group size of this stage.  The check of
    /// the maximal velocity runs one thread; every other stage one thread
    /// per particle, in groups of as many threads as the kernel allows, but
    /// no more than there are particles.
    pub fn launch(&self, particle_number: usize, max_threads_per_group: usize) -> (l: Launch)
        ensures
            l == spec_stage_launch(*self, particle_number, max_threads_per_group),
    {
        if *self == Stage::CheckMaxVel {
            Launch {
                grid: Size3 { width: 1, height: 1, depth: 1 },
                threadgroup: Size3 { width: 1, height: 1, depth: 1 },
            }
        } else {
            let width = if max_threads_per_group < particle_number {
                max_threads_per_group
            } else {
                particle_number
            };
            Launch {
                grid: Size3 { width: particle_number, height: 1, depth: 1 },
                threadgroup: Size3 { width, height: 1, depth: 1 },
            }
        }
    }
}

/// Extents of a grid of threads.
#[derive(Clone, Copy, PartialEq, Eq, Structural, Debug)]
pub struct Size3 {
    pub width: usize,
    pub height: usize,
    pub depth: usize,
}

/// The threads a dispatch launches: the whole grid and one thread group.
#[derive(Clone, Copy, PartialEq, Eq, Structural, Debug)]
pub struct Launch {
    pub grid: Size3,
    pub threadgroup: Size3,
}

pub open spec fn spec_min(a: usize, b: usize) -> usize {
    if a <= b { a } else { b }
}

/// The launch of a stage.
pub open spec fn spec_stage_launch(s: Stage, particle_number: usize, max_threads_per_group: usize) -> Launch {
    if s == Stage::CheckMaxVel {
        Launch {
            grid: Size3 { width: 1, height: 1, depth: 1 },
            threadgroup: Size3 { width: 1, height: 1, depth: 1 },
        }
    } else {
        Launch {
            grid: Size3 { width: particle_number, height: 1, depth: 1 },
            threadgroup: Size3 {
                width: spec_min(max_threads_per_group, particle_number),
                height: 1,
                depth: 1,
            },
        }
    }
}

/// Where each buffer lives: only the output of the velocity check is read
/// back by the CPU.
pub open spec fn spec_storage(b: Buffer) -> Storage {
    if b == Buffer::CheckOutput { Storage::Shared } else { Storage::Private }
}

/// The byte length of each buffer: two 4-byte floats for the output of the
/// velocity check, one vector per element for every other buffer.
pub open spec fn spec_buffer_len(b: Buffer, count: usize, vec3_size: usize) -> int {
    if b == Buffer::CheckOutput { 8 } else { count * vec3_size }
}

impl Buffer {
    /// Where the buffer's memory lives.
    pub fn storage(&self) -> (s: Storage)
        ensures
            s == spec_storage(*self),
    {
        if *self == Buffer::CheckOutput { Storage::Shared } else { Storage::Private }
    }

    /// The byte length of the buffer when it holds `count` elements of
    /// `vec3_size` bytes.
    pub fn byte_len(&self, count: usize, vec3_size: usize) -> (len: usize)
        requires
            count * vec3_size <= usize::MAX,
        ensures
            len == spec_buffer_len(*self, count, vec3_size),
    {
        if *self == Buffer::CheckOutput { 8 } else { count * vec3_size }
    }
}

/// The work of rendering one frame: one thread per pixel in 16 × 16 groups,
/// into an image of one 4-byte RGBA pixel per thread.
#[derive(Clone, Copy, PartialEq, Eq, Structural, Debug)]
pub struct RenderLaunch {
    pub launch: Launch,
    pub image_bytes: usize,
}

pub open spec fn spec_render_launch(dims: [u32; 2]) -> RenderLaunch {
    RenderLaunch {
        launch: Launch {
            grid: Size3 { width: dims[0] as usize, height: dims[1] as usize, depth: 1 },
            threadgroup: Size3 { width: 16, height: 16, depth: 1 },
        },
        image_bytes: (dims[0] * dims[1] * 4) as usize,
    }
}

/// Plans the rendering of a frame of `dims[0] × dims[1]` pixels.
pub fn render_launch(dims: [u32; 2]) -> (r: RenderLaunch)
    requires
        dims[0] * dims[1] <= u32::MAX,
        dims[0] * dims[1] * 4 <= usize::MAX,
    ensures
        r == spec_render_launch(dims),
{
    let pixels: u32 = dims[0] * dims[1];
    RenderLaunch {
        launch: Launch {
            grid: Size3 { width: dims[0] as usize, height: dims[1] as usize, depth: 1 },
            threadgroup: Size3 { width: 16, height: 16, depth: 1 },
        },
        image_bytes: (pixels as usize) * 4,
    }
}


/// No stage binds the same buffer at two indices.
pub proof fn lemma_stage_buffers_distinct(s: Stage)
    ensures
        forall|i: int, j: int|
            0 <= i < j < spec_stage_buffers(s).len() ==> spec_stage_buffers(s)[i]
                != spec_stage_buffers(s)[j],
{
}

/// Different stages run different kernels, and no stage runs the render
/// kernel.
pub proof fn lemma_stage_kernels_distinct(a: Stage, b: Stage)
    ensures
        a != b ==> spec_stage_kernel(a) != spec_stage_kernel(b),
        spec_stage_kernel(a) != Kernel::Render,
{
}

/// Different kernels are loaded from different functions of the shader
/// library.
pub proof fn lemma_function_names_distinct(a: Kernel, b: Kernel)
    ensures
        a != b ==> spec_function_name(a) != spec_function_name(b),
{
    reveal_strlit("update_e_field");
    reveal_strlit("update_h_field");
    reveal_strlit("update_e_dipole");
    reveal_strlit("update_velocity");
    reveal_strlit("update_position");
    reveal_strlit("update_direction");
    reveal_strlit("check_max_vel");
    reveal_strlit("render_kernel");
    if a != b {
        let na = spec_function_name(a);
        let nb = spec_function_name(b);
        if na.len() == nb.len() {
            // names of equal length differ in one of their first characters
            assert(na[7] != nb[7] || na[0] != nb[0] || na[9] != nb[9]);
        }
    }
}

/// The only buffer the CPU can read, the output of the velocity check, is
/// bound by the velocity-check stage and by no other.
pub proof fn lemma_shared_buffer_only_in_check(s: Stage)
    ensures
        spec_stage_buffers(s).contains(Buffer::CheckOutput) <==> s == Stage::CheckMaxVel,
        forall|i: int|
            0 <= i < spec_stage_buffers(s).len() && spec_storage(spec_stage_buffers(s)[i])
                == Storage::Shared ==> s == Stage::CheckMaxVel,
{
    if s == Stage::CheckMaxVel {
        assert(spec_stage_buffers(s)[1] == Buffer::CheckOutput);
    }
}

/// Every stage but the velocity check runs exactly one thread per particle,
/// in groups that neither exceed the kernel's limit nor the number of
/// particles, and that are not empty when both are positive.
pub proof fn lemma_launch_covers_particles(s: Stage, particle_number: usize, max_threads_per_group: usize)
    requires
        s != Stage::CheckMaxVel,
    ensures
        ({
            let l = spec_stage_launch(s, particle_number, max_threads_per_group);
            &&& l.grid.width * l.grid.height * l.grid.depth == particle_number
            &&& l.threadgroup.width <= max_threads_per_group
            &&& l.threadgroup.width <= l.grid.width
            &&& l.threadgroup.height == 1 && l.threadgroup.depth == 1
            &&& (particle_number > 0 && max_threads_per_group > 0 ==> l.threadgroup.width > 0)
        }),
{
}


/// The stages that set a simulation up: the dipoles induced by the initial
/// external field.
pub open spec fn spec_setup_pass() -> Seq<Stage> {
    seq![Stage::EDipole]
}

/// The first pass of a step: two rounds of electric field and induced
/// dipoles, then the magnetic field, the velocities and the check of the
/// largest velocity, which the step length is derived from.
pub open spec fn spec_field_pass() -> Seq<Stage> {
    seq![
        Stage::EField,
        Stage::EDipole,
        Stage::EField,
        Stage::EDipole,
        Stage::HField,
        Stage::Velocity,
        Stage::CheckMaxVel,
    ]
}

/// The second pass of a step: positions and directions move on.
pub open spec fn spec_motion_pass() -> Seq<Stage> {
    seq![Stage::Position, Stage::Direction]
}

/// The stages dispatched when a simulation is set up, in order.
pub fn setup_pass() -> (stages: Vec<Stage>)
    ensures
        stages@ == spec_setup_pass(),
{
    let stages = vec![Stage::EDipole];
    assert(stages@ =~= spec_setup_pass());
    stages
}

/// The stages of the first pass of a step, in order.
pub fn field_pass() -> (stages: Vec<Stage>)
    ensures
        stages@ == spec_field_pass(),
{
    let mut stages = Vec::new();
    let mut round: usize = 0;
    while round < 2
        invariant
            round <= 2,
            stages@ == spec_field_pass().take(2 * round as int),
        decreases 2 - round,
    {
        stages.push(Stage::EField);
        stages.push(Stage::EDipole);
        assert(stages@ =~= spec_field_pass().take(2 * (round + 1) as int));
        round = round + 1;
    }
    stages.push(Stage::HField);
    stages.push(Stage::Velocity);
    stages.push(Stage::CheckMaxVel);
    assert(stages@ =~= spec_field_pass());
    stages
}

/// The stages of the second pass of a step, in order.
pub fn motion_pass() -> (stages: Vec<Stage>)
    ensures
        stages@ == spec_motion_pass(),
{
    let stages = vec![Stage::Position, Stage::Direction];
    assert(stages@ =~= spec_motion_pass());
    stages
}

/// In a step, the velocity check is the last stage of the first pass, so
/// the largest velocity read back after that pass is the one of the
/// velocities just computed; the moving pass never writes the buffer the
/// CPU reads.
pub proof fn lemma_step_reads_fresh_velocity()
    ensures
        spec_field_pass().last() == Stage::CheckMaxVel,
        spec_field_pass()[spec_field_pass().len() - 2] == Stage::Velocity,
        forall|i: int|
            0 <= i < spec_field_pass().len() - 1 ==> spec_field_pass()[i] != Stage::CheckMaxVel,
        forall|i: int|
            0 <= i < spec_motion_pass().len() ==> !spec_stage_buffers(
                #[trigger] spec_motion_pass()[i],
            ).contains(Buffer::CheckOutput),
{
    assert forall|i: int| 0 <= i < spec_motion_pass().len() implies !spec_stage_buffers(
        #[trigger] spec_motion_pass()[i],
    ).contains(Buffer::CheckOutput) by {
        lemma_shared_buffer_only_in_check(spec_motion_pass()[i]);
    }
}


/// Each stage runs the kernel loaded from the shader function named after
/// what it updates: the electric field from `update_e_field`, the magnetic
/// field from `update_h_field`, the dipoles from `update_e_dipole`, the
/// velocities from `update_velocity`, the positions from `update_position`,
/// the directions from `update_direction`, and the check of the largest
/// velocity from `check_max_vel`; rendering uses `render_kernel`.
pub proof fn lemma_stage_kernel_names()
    ensures
        spec_function_name(spec_stage_kernel(Stage::EField)) == "update_e_field"@,
        spec_function_name(spec_stage_kernel(Stage::HField)) == "update_h_field"@,
        spec_function_name(spec_stage_kernel(Stage::EDipole)) == "update_e_dipole"@,
        spec_function_name(spec_stage_kernel(Stage::Velocity)) == "update_velocity"@,
        spec_function_name(spec_stage_kernel(Stage::Position)) == "update_position"@,
        spec_function_name(spec_stage_kernel(Stage::Direction)) == "update_direction"@,
        spec_function_name(spec_stage_kernel(Stage::CheckMaxVel)) == "check_max_vel"@,
        spec_function_name(Kernel::Render) == "render_kernel"@,
{
}

/// Each stage binds the buffer of the quantity it updates (the velocity
/// check binds its output buffer), so a stage's kernel always sees the
/// buffer it is named after.
pub proof fn lemma_stage_binds_own_buffer()
    ensures
        spec_stage_buffers(Stage::EField).contains(Buffer::EField),
        spec_stage_buffers(Stage::HField).contains(Buffer::HField),
        spec_stage_buffers(Stage::EDipole).contains(Buffer::EDipole),
        spec_stage_buffers(Stage::Velocity).contains(Buffer::Velocity),
        spec_stage_buffers(Stage::Position).contains(Buffer::Position),
        spec_stage_buffers(Stage::Direction).contains(Buffer::Direction),
        spec_stage_buffers(Stage::CheckMaxVel).contains(Buffer::CheckOutput),
{
    assert(spec_stage_buffers(Stage::EField)[2] == Buffer::EField);
    assert(spec_stage_buffers(Stage::HField)[2] == Buffer::HField);
    assert(spec_stage_buffers(Stage::EDipole)[2] == Buffer::EDipole);
    assert(spec_stage_buffers(Stage::Velocity)[3] == Buffer::Velocity);
    assert(spec_stage_buffers(Stage::Position)[0] == Buffer::Position);
    assert(spec_stage_buffers(Stage::Direction)[0] == Buffer::Direction);
    assert(spec_stage_buffers(Stage::CheckMaxVel)[1] == Buffer::CheckOutput);
}

/// Every buffer but the output of the velocity check holds one vector per
/// element, so its length is `count · vec3_size` and grows with the count;
/// the check's output holds two 4-byte floats whatever the count.
pub proof fn lemma_buffer_len_per_element(b: Buffer, count: usize, vec3_size: usize)
    ensures
        b != Buffer::CheckOutput ==> spec_buffer_len(b, count, vec3_size) == count * vec3_size,
        b != Buffer::CheckOutput ==> spec_buffer_len(b, count, vec3_size) == spec_buffer_len(
            Buffer::Position,
            count,
            vec3_size,
        ),
        spec_buffer_len(Buffer::CheckOutput, count, vec3_size) == 2 * 4,
{
}

/// A stage's thread groups hold as many threads as the kernel allows,
/// unless there are fewer particles, in which case one group holds them
/// all: the width is the smaller of the two.
pub proof fn lemma_launch_group_width(s: Stage, particle_number: usize, max_threads_per_group: usize)
    requires
        s != Stage::CheckMaxVel,
    ensures
        ({
            let w = spec_stage_launch(s, particle_number, max_threads_per_group).threadgroup.width;
            &&& w <= max_threads_per_group && w <= particle_number
            &&& (w == max_threads_per_group || w == particle_number)
        }),
{
}

/// A rendered image holds one 4-byte pixel per thread of the grid, and the
/// grid has one thread per pixel of the frame.
pub proof fn lemma_render_image_size(dims: [u32; 2])
    ensures
        spec_render_launch(dims).launch.grid.width == dims[0],
        spec_render_launch(dims).launch.grid.height == dims[1],
        dims[0] * dims[1] * 4 <= usize::MAX ==> spec_render_launch(dims).image_bytes == 4
            * spec_render_launch(dims).launch.grid.width * spec_render_launch(dims).launch.grid.height,
{
    if dims[0] * dims[1] * 4 <= usize::MAX {
        assert(dims[0] * dims[1] * 4 == 4 * dims[0] * dims[1]) by (nonlinear_arith);
    }
}

/// Only the output of the velocity check lives where the CPU can read it.
pub proof fn lemma_storage_shared_only_check_output(b: Buffer)
    ensures
        spec_storage(b) == Storage::Shared <==> b == Buffer::CheckOutput,
{
}


/// The binding layout the kernels rely on: positions, when bound, are at
/// index 0 and directions at index 1 (index 0 for the direction stage,
/// which updates them in place, as the position stage updates positions);
/// the field, dipole, velocity and check stages bind the buffer they write
/// last, after what they read.
pub proof fn lemma_binding_layout()
    ensures
        forall|s: Stage, i: int|
            0 <= i < spec_stage_buffers(s).len() && #[trigger] spec_stage_buffers(s)[i]
                == Buffer::Position ==> i == 0,
        forall|s: Stage, i: int|
            s != Stage::Direction && 0 <= i < spec_stage_buffers(s).len()
                && #[trigger] spec_stage_buffers(s)[i] == Buffer::Direction ==> i == 1,
        spec_stage_buffers(Stage::Direction)[0] == Buffer::Direction,
        spec_stage_buffers(Stage::EField).last() == Buffer::EField,
        spec_stage_buffers(Stage::HField).last() == Buffer::HField,
        spec_stage_buffers(Stage::EDipole).last() == Buffer::EDipole,
        spec_stage_buffers(Stage::Velocity).last() == Buffer::Velocity,
        spec_stage_buffers(Stage::CheckMaxVel).last() == Buffer::CheckOutput,
        spec_stage_buffers(Stage::Position)[1] == Buffer::Velocity,
{
}

} // verus!
