//! Per-frame execution planning. Each frame, the pipeline's stages are
//! turned, in declaration order, into a flat list of render commands: which
//! program to use, which uniforms to upload, which texture to bind on which
//! unit, and what to dispatch or draw where. The commands carry only plain
//! values; the interpreter owning the graphics context supplies the
//! float-valued frame uniforms (time, beat, controller state) where a
//! command calls for them.

use vstd::prelude::*;
use crate::pipeline::{
    registry_lookup, registry_names, Pipeline, Stage, StageKind,
};

verus! {

/// One step of a frame. `BindTexture` binds the texture of stage `stage`'s
/// dependency number `unit` to texture unit `unit`; the sampler uniform of
/// that dependency's name is set to `unit` as well. `BindTarget` with
/// framebuffer 0 is the display surface.
#[derive(Clone, Copy, Debug, PartialEq, Eq, Structural)]
pub enum RenderCommand {
    UseProgram { program: u32 },
    UniformResolutionTime { width: u32, height: u32 },
    UniformTime,
    UniformBeat,
    UniformControls,
    UniformVertexCount { count: u32 },
    BindTexture { stage: usize, unit: u32, texture: u32 },
    DispatchCompute { x: u32, y: u32, z: u32 },
    MemoryBarrier,
    BindTarget { framebuffer: u32, width: u32, height: u32 },
    ClearAndEnableDepth,
    DrawFullscreen,
    DrawPrimitives { count: u32, mode: u32 },
    GenerateMipmaps { texture: u32 },
}

/// The render-target size of a stage: its fixed override when that override
/// is flat (zero depth), else the current window size.
pub open spec fn effective_resolution(s: Stage, win_w: u32, win_h: u32) -> (u32, u32) {
    match s.resolution {
        Some(r) => if r.depth == 0 {
            (r.width, r.height)
        } else {
            (win_w, win_h)
        },
        None => (win_w, win_h),
    }
}

/// Texture handle of the named registry buffer.
pub open spec fn buffer_tex(p: Pipeline, name: Seq<u8>) -> u32 {
    match registry_lookup(p.buffers@, name) {
        Some(b) => b.id,
        None => 0,
    }
}

/// Framebuffer handle of the named registry buffer.
pub open spec fn buffer_fb(p: Pipeline, name: Seq<u8>) -> u32 {
    match registry_lookup(p.buffers@, name) {
        Some(b) => b.fb,
        None => 0,
    }
}

/// The framebuffer a stage renders into: its target buffer's, or the
/// display surface.
pub open spec fn target_fb(p: Pipeline, s: Stage) -> u32 {
    match s.target {
        Some(t) => buffer_fb(p, t@),
        None => 0,
    }
}

/// Commands every stage starts with: program activation and the global
/// uniforms (resolution-and-time, time, beat, controller state).
pub open spec fn prelude_commands(s: Stage, rw: u32, rh: u32) -> Seq<RenderCommand> {
    seq![
        RenderCommand::UseProgram { program: s.program },
        RenderCommand::UniformResolutionTime { width: rw, height: rh },
        RenderCommand::UniformTime,
        RenderCommand::UniformBeat,
        RenderCommand::UniformControls,
    ]
}

/// The vertex-count uniform, present only for explicit-geometry stages.
pub open spec fn vertex_count_commands(s: Stage) -> Seq<RenderCommand> {
    match s.kind {
        StageKind::Explicit { count, .. } => seq![RenderCommand::UniformVertexCount { count }],
        _ => Seq::empty(),
    }
}

/// One texture bind per dependency, in list order: dependency `k` goes to
/// texture unit `k`.
pub open spec fn bind_commands(p: Pipeline, i: int) -> Seq<RenderCommand> {
    Seq::new(
        p.stages@[i].deps@.len(),
        |k: int|
            RenderCommand::BindTexture {
                stage: i as usize,
                unit: k as u32,
                texture: buffer_tex(p, p.stages@[i].deps@[k]@),
            },
    )
}

/// Mipmap regeneration on the target texture, skipped for the display
/// surface.
pub open spec fn mipmap_commands(p: Pipeline, s: Stage) -> Seq<RenderCommand> {
    match s.target {
        Some(t) => seq![RenderCommand::GenerateMipmaps { texture: buffer_tex(p, t@) }],
        None => Seq::empty(),
    }
}

/// The dispatch or draw of a stage. A compute dispatch (zero dimensions
/// floored at 1) is followed at once by a full memory barrier; a raster
/// stage binds its target and viewport, an explicit-geometry stage
/// additionally clears and enables depth testing, and a stage with a target
/// buffer regenerates that buffer's mipmaps afterwards.
pub open spec fn dispatch_commands(p: Pipeline, s: Stage, rw: u32, rh: u32) -> Seq<
    RenderCommand,
> {
    match s.kind {
        StageKind::Compute { x, y, z } => seq![
            RenderCommand::DispatchCompute {
                x,
                y: if y == 0 {
                    1u32
                } else {
                    y
                },
                z: if z == 0 {
                    1u32
                } else {
                    z
                },
            },
            RenderCommand::MemoryBarrier,
        ],
        StageKind::Fullscreen => seq![
            RenderCommand::BindTarget { framebuffer: target_fb(p, s), width: rw, height: rh },
            RenderCommand::DrawFullscreen,
        ] + mipmap_commands(p, s),
        StageKind::Explicit { count, mode } => seq![
            RenderCommand::BindTarget { framebuffer: target_fb(p, s), width: rw, height: rh },
            RenderCommand::ClearAndEnableDepth,
            RenderCommand::DrawPrimitives { count, mode },
        ] + mipmap_commands(p, s),
    }
}

/// Everything stage `i` contributes to a frame.
pub open spec fn stage_commands(p: Pipeline, i: int, win_w: u32, win_h: u32) -> Seq<
    RenderCommand,
> {
    let s = p.stages@[i];
    let rw = effective_resolution(s, win_w, win_h).0;
    let rh = effective_resolution(s, win_w, win_h).1;
    prelude_commands(s, rw, rh) + vertex_count_commands(s) + bind_commands(p, i)
        + dispatch_commands(p, s, rw, rh)
}

/// The frame plan from stage `i` on.
pub open spec fn plan_from(p: Pipeline, i: int, win_w: u32, win_h: u32) -> Seq<RenderCommand>
    decreases p.stages@.len() - i,
{
    if i < 0 || i >= p.stages@.len() {
        Seq::empty()
    } else {
        stage_commands(p, i, win_w, win_h) + plan_from(p, i + 1, win_w, win_h)
    }
}

/// The full frame plan: every stage's commands, in declaration order.
pub open spec fn render_plan_spec(p: Pipeline, win_w: u32, win_h: u32) -> Seq<RenderCommand> {
    plan_from(p, 0, win_w, win_h)
}

impl Pipeline {
    /// The render-target size of stage `i` under the given window size.
    pub fn stage_resolution(&self, i: usize, win_w: u32, win_h: u32) -> (r: (u32, u32))
        requires
            i < self.stages@.len(),
        ensures
            r == effective_resolution(self.stages@[i as int], win_w, win_h),
    {
        match self.stages[i].resolution {
            Some(res) => {
                if res.depth == 0 {
                    (res.width, res.height)
                } else {
                    (win_w, win_h)
                }
            },
            None => (win_w, win_h),
        }
    }

    /// Texture handle bound to `name`; the name must resolve.
    fn tex_of(&self, name: &Vec<u8>) -> (r: u32)
        requires
            self.wf(),
            registry_names(self.buffers@).contains(name@),
        ensures
            r == buffer_tex(*self, name@),
    {
        proof {
            crate::pipeline::lemma_registry_lookup_contains(self.buffers@, name@);
        }
        match self.find_buffer(name.as_slice()) {
            Some(i) => self.buffers[i].id,
            None => {
                proof {
                    assert(false);
                }
                0
            },
        }
    }

    /// Framebuffer handle bound to `name`; the name must resolve.
    fn fb_of(&self, name: &Vec<u8>) -> (r: u32)
        requires
            self.wf(),
            registry_names(self.buffers@).contains(name@),
        ensures
            r == buffer_fb(*self, name@),
    {
        proof {
            crate::pipeline::lemma_registry_lookup_contains(self.buffers@, name@);
        }
        match self.find_buffer(name.as_slice()) {
            Some(i) => self.buffers[i].fb,
            None => {
                proof {
                    assert(false);
                }
                0
            },
        }
    }

    /// Plans one stage of a frame: the program activation, the uniform
    /// uploads, one texture bind per dependency on the unit equal to its
    /// position, and the dispatch or draw with its barrier, target,
    /// viewport and mipmap step. The commands open with the stage's one
    /// `UseProgram` and hold no other, so a frame plan's stage boundaries
    /// are exactly its `UseProgram` commands.
    pub fn stage_plan(&self, i: usize, win_w: u32, win_h: u32) -> (r: Vec<RenderCommand>)
        requires
            self.wf(),
            i < self.stages@.len(),
        ensures
            r@ == stage_commands(*self, i as int, win_w, win_h),
            r@.len() > 0 && r@[0] is UseProgram,
            forall|k: int| 1 <= k < r@.len() ==> !((#[trigger] r@[k]) is UseProgram),
    {
        let ns = self.stages.len();
        {
            let (rw, rh) = self.stage_resolution(i, win_w, win_h);
            let stage = &self.stages[i];
            let mut cmds: Vec<RenderCommand> = Vec::new();
            cmds.push(RenderCommand::UseProgram { program: stage.program });
            cmds.push(RenderCommand::UniformResolutionTime { width: rw, height: rh });
            cmds.push(RenderCommand::UniformTime);
            cmds.push(RenderCommand::UniformBeat);
            cmds.push(RenderCommand::UniformControls);
            proof {
                assert(cmds@ =~= prelude_commands(self.stages@[i as int], rw, rh));
            }
            match stage.kind {
                StageKind::Explicit { count, .. } => {
                    cmds.push(RenderCommand::UniformVertexCount { count });
                },
                _ => {},
            }
            let ghost s = self.stages@[i as int];
            let ghost head = prelude_commands(s, rw, rh) + vertex_count_commands(s);
            proof {
                assert(cmds@ =~= head);
            }
            let nd = stage.deps.len();
            let mut k: usize = 0;
            while k < nd
                invariant
                    k <= nd,
                    i < ns,
                    ns == self.stages@.len(),
                    self.wf(),
                    s == self.stages@[i as int],
                    nd == s.deps@.len(),
                    nd <= u32::MAX,
                    cmds@ =~= head + Seq::new(
                        k as nat,
                        |t: int|
                            RenderCommand::BindTexture {
                                stage: i as usize,
                                unit: t as u32,
                                texture: buffer_tex(*self, s.deps@[t]@),
                            },
                    ),
                decreases nd - k,
            {
                let tex = self.tex_of(&self.stages[i].deps[k]);
                cmds.push(RenderCommand::BindTexture { stage: i, unit: k as u32, texture: tex });
                proof {
                    assert(cmds@ =~= head + Seq::new(
                        (k + 1) as nat,
                        |t: int|
                            RenderCommand::BindTexture {
                                stage: i as usize,
                                unit: t as u32,
                                texture: buffer_tex(*self, s.deps@[t]@),
                            },
                    ));
                }
                k = k + 1;
            }
            proof {
                assert(cmds@ =~= head + bind_commands(*self, i as int));
            }
            let ghost head2 = head + bind_commands(*self, i as int);
            match stage.kind {
                StageKind::Compute { x, y, z } => {
                    let yy = if y == 0 {
                        1
                    } else {
                        y
                    };
                    let zz = if z == 0 {
                        1
                    } else {
                        z
                    };
                    cmds.push(RenderCommand::DispatchCompute { x, y: yy, z: zz });
                    cmds.push(RenderCommand::MemoryBarrier);
                },
                StageKind::Fullscreen => {
                    let fb = match &self.stages[i].target {
                        Some(t) => self.fb_of(t),
                        None => 0,
                    };
                    cmds.push(RenderCommand::BindTarget { framebuffer: fb, width: rw, height: rh });
                    cmds.push(RenderCommand::DrawFullscreen);
                    match &self.stages[i].target {
                        Some(t) => {
                            let tex = self.tex_of(t);
                            cmds.push(RenderCommand::GenerateMipmaps { texture: tex });
                        },
                        None => {},
                    }
                },
                StageKind::Explicit { count, mode } => {
                    let fb = match &self.stages[i].target {
                        Some(t) => self.fb_of(t),
                        None => 0,
                    };
                    cmds.push(RenderCommand::BindTarget { framebuffer: fb, width: rw, height: rh });
                    cmds.push(RenderCommand::ClearAndEnableDepth);
                    cmds.push(RenderCommand::DrawPrimitives { count, mode });
                    match &self.stages[i].target {
                        Some(t) => {
                            let tex = self.tex_of(t);
                            cmds.push(RenderCommand::GenerateMipmaps { texture: tex });
                        },
                        None => {},
                    }
                },
            }
            proof {
                assert(cmds@ =~= head2 + dispatch_commands(*self, s, rw, rh));
                assert(cmds@ =~= stage_commands(*self, i as int, win_w, win_h));
                lemma_stage_commands_single_program(*self, i as int, win_w, win_h);
            }
            cmds
        }
    }

    /// Plans one frame: every stage's commands, in declaration order.
    pub fn render_plan(&self, win_w: u32, win_h: u32) -> (r: Vec<RenderCommand>)
        requires
            self.wf(),
        ensures
            r@ == render_plan_spec(*self, win_w, win_h),
    {
        let ns = self.stages.len();
        let mut out: Vec<RenderCommand> = Vec::new();
        proof {
            assert(out@ + render_plan_spec(*self, win_w, win_h) =~= render_plan_spec(
                *self,
                win_w,
                win_h,
            ));
        }
        let mut i: usize = 0;
        while i < ns
            invariant
                i <= ns,
                ns == self.stages@.len(),
                self.wf(),
                render_plan_spec(*self, win_w, win_h) == out@ + plan_from(
                    *self,
                    i as int,
                    win_w,
                    win_h,
                ),
            decreases ns - i,
        {
            let ghost out0 = out@;
            let mut cmds = self.stage_plan(i, win_w, win_h);
            out.append(&mut cmds);
            proof {
                assert(plan_from(*self, i as int, win_w, win_h) == stage_commands(
                    *self,
                    i as int,
                    win_w,
                    win_h,
                ) + plan_from(*self, i + 1, win_w, win_h));
                assert(out@ + plan_from(*self, i + 1, win_w, win_h) =~= out0 + plan_from(
                    *self,
                    i as int,
                    win_w,
                    win_h,
                ));
            }
            i = i + 1;
        }
        proof {
            assert(out@ + plan_from(*self, ns as int, win_w, win_h) =~= out@);
        }
        out
    }
}

/// A stage's commands open with its `UseProgram` and contain no other.
proof fn lemma_stage_commands_single_program(p: Pipeline, i: int, win_w: u32, win_h: u32)
    requires
        0 <= i < p.stages@.len(),
    ensures
        stage_commands(p, i, win_w, win_h).len() > 0,
        stage_commands(p, i, win_w, win_h)[0] is UseProgram,
        forall|k: int|
            1 <= k < stage_commands(p, i, win_w, win_h).len() ==> !((#[trigger] stage_commands(
                p,
                i,
                win_w,
                win_h,
            )[k]) is UseProgram),
{
    let s = p.stages@[i];
    let rw = effective_resolution(s, win_w, win_h).0;
    let rh = effective_resolution(s, win_w, win_h).1;
    let cmds = stage_commands(p, i, win_w, win_h);
    let head = prelude_commands(s, rw, rh) + vertex_count_commands(s) + bind_commands(p, i);
    assert(cmds =~= head + dispatch_commands(p, s, rw, rh));
    assert(cmds[0] == prelude_commands(s, rw, rh)[0]);
    assert forall|k: int| 1 <= k < cmds.len() implies !((#[trigger] cmds[k]) is UseProgram) by {
        if k < 5 {
            assert(cmds[k] == prelude_commands(s, rw, rh)[k]);
        } else if k < head.len() {
            if k < prelude_commands(s, rw, rh).len() + vertex_count_commands(s).len() {
                assert(cmds[k] == vertex_count_commands(s)[k - 5]);
                assert(vertex_count_commands(s).len() <= 1);
            } else {
                assert(cmds[k] == bind_commands(p, i)[k - prelude_commands(s, rw, rh).len()
                    - vertex_count_commands(s).len()]);
            }
        } else {
            let d = dispatch_commands(p, s, rw, rh);
            let u = k - head.len();
            assert(cmds[k] == d[u]);
            match s.kind {
                StageKind::Compute { .. } => {
                    assert(!(d[u] is UseProgram));
                },
                StageKind::Fullscreen => {
                    assert(!(d[u] is UseProgram));
                },
                StageKind::Explicit { .. } => {
                    assert(!(d[u] is UseProgram));
                },
            }
        }
    }
}

/// Every compute dispatch in `cmds` is immediately followed by a full
/// memory barrier.
pub open spec fn barrier_after_dispatch(cmds: Seq<RenderCommand>) -> bool {
    forall|i: int|
        0 <= i < cmds.len() && (#[trigger] cmds[i] is DispatchCompute) ==> i + 1 < cmds.len()
            && cmds[i + 1] is MemoryBarrier
}

proof fn lemma_barrier_concat(a: Seq<RenderCommand>, b: Seq<RenderCommand>)
    requires
        barrier_after_dispatch(a),
        barrier_after_dispatch(b),
    ensures
        barrier_after_dispatch(a + b),
{
    let s = a + b;
    assert forall|i: int| 0 <= i < s.len() && (#[trigger] s[i] is DispatchCompute) implies i + 1
        < s.len() && s[i + 1] is MemoryBarrier by {
        if i < a.len() {
            assert(s[i] == a[i]);
            assert(a[i + 1] is MemoryBarrier);
            assert(s[i + 1] == a[i + 1]);
        } else {
            assert(s[i] == b[i - a.len()]);
            assert(b[i - a.len() + 1] is MemoryBarrier);
            assert(s[i + 1] == b[i - a.len() + 1]);
        }
    }
}

proof fn lemma_stage_commands_barrier(p: Pipeline, i: int, win_w: u32, win_h: u32)
    requires
        0 <= i < p.stages@.len(),
    ensures
        barrier_after_dispatch(stage_commands(p, i, win_w, win_h)),
{
    let s = p.stages@[i];
    let rw = effective_resolution(s, win_w, win_h).0;
    let rh = effective_resolution(s, win_w, win_h).1;
    let cmds = stage_commands(p, i, win_w, win_h);
    let head = prelude_commands(s, rw, rh) + vertex_count_commands(s) + bind_commands(p, i);
    assert forall|t: int| 0 <= t < cmds.len() && (#[trigger] cmds[t] is DispatchCompute) implies t
        + 1 < cmds.len() && cmds[t + 1] is MemoryBarrier by {
        assert(cmds =~= head + dispatch_commands(p, s, rw, rh));
        if t < head.len() {
            assert(!(head[t] is DispatchCompute));
        } else {
            let d = dispatch_commands(p, s, rw, rh);
            let u = t - head.len();
            assert(cmds[t] == d[u]);
            match s.kind {
                StageKind::Compute { .. } => {
                    assert(u == 0);
                    assert(d[1] is MemoryBarrier);
                },
                StageKind::Fullscreen => {
                    assert(!(d[u] is DispatchCompute));
                },
                StageKind::Explicit { .. } => {
                    assert(!(d[u] is DispatchCompute));
                },
            }
        }
    }
}

proof fn lemma_plan_from_barrier(p: Pipeline, i: int, win_w: u32, win_h: u32)
    ensures
        barrier_after_dispatch(plan_from(p, i, win_w, win_h)),
    decreases p.stages@.len() - i,
{
    if 0 <= i < p.stages@.len() {
        lemma_stage_commands_barrier(p, i, win_w, win_h);
        lemma_plan_from_barrier(p, i + 1, win_w, win_h);
        lemma_barrier_concat(
            stage_commands(p, i, win_w, win_h),
            plan_from(p, i + 1, win_w, win_h),
        );
    }
}

/// In every frame plan, each compute dispatch is at once followed by a full
/// memory barrier.
pub proof fn lemma_plan_barrier_after_dispatch(p: Pipeline, win_w: u32, win_h: u32)
    ensures
        barrier_after_dispatch(render_plan_spec(p, win_w, win_h)),
{
    lemma_plan_from_barrier(p, 0, win_w, win_h);
}

/// A compute stage's output is synchronized before any later stage reads
/// it: between a compute dispatch and any later texture bind of the same
/// frame plan stands a memory barrier, so the dispatch's writes are visible
/// to the dependent stage.
pub proof fn lemma_barrier_between_dispatch_and_bind(
    p: Pipeline,
    win_w: u32,
    win_h: u32,
    i: int,
    j: int,
)
    requires
        0 <= i < j < render_plan_spec(p, win_w, win_h).len(),
        render_plan_spec(p, win_w, win_h)[i] is DispatchCompute,
        render_plan_spec(p, win_w, win_h)[j] is BindTexture,
    ensures
        exists|k: int|
            i < k < j && (#[trigger] render_plan_spec(p, win_w, win_h)[k]) is MemoryBarrier,
{
    lemma_plan_barrier_after_dispatch(p, win_w, win_h);
    let plan = render_plan_spec(p, win_w, win_h);
    assert(plan[i + 1] is MemoryBarrier);
    assert(j != i + 1);
    assert(i < i + 1 < j && plan[i + 1] is MemoryBarrier);
}

} // verus!
