//! The render pipeline: a declarative description of named buffers and
//! ordered stages is validated, its shader sources are expanded, and the
//! result is installed as a pipeline of stages bound to GPU handles. A load
//! either succeeds wholesale or reports why, so a running pipeline is never
//! replaced by a half-built one.

use vstd::prelude::*;
use crate::average::RunningAverage;
use crate::preprocess::{
    expand_file, expand_spec, lookup_in, Expansion, FileTable, PreprocessError,
};

verus! {

/// Number of samples in a stage's execution-time average.
pub const STAGE_PERF_WINDOW: usize = 8;

/// A texture size in texels; `depth` 0 means a flat, two-dimensional
/// target.
#[derive(Clone, Copy, Debug, PartialEq, Eq, Structural)]
pub struct Resolution {
    pub width: u32,
    pub height: u32,
    pub depth: u32,
}

/// How a buffer is sized: tracking the display surface, or fixed.
#[derive(Clone, Copy, Debug, PartialEq, Eq, Structural)]
pub enum BufferPolicy {
    WindowSized,
    Fixed { width: u32, height: u32, depth: u32 },
}

/// A declared intermediate render target.
#[derive(Debug)]
pub struct BufferDecl {
    pub name: Vec<u8>,
    pub policy: BufferPolicy,
}

/// The kind of shader source unit handed to the driver.
#[derive(Clone, Copy, Debug, PartialEq, Eq, Structural)]
pub enum ShaderType {
    Vertex,
    Fragment,
    Compute,
}

/// One shader source file of a stage: its slot and its path.
#[derive(Debug)]
pub struct ShaderSlot {
    pub ty: ShaderType,
    pub path: Vec<u8>,
}

/// How a stage executes: a full-screen fragment pass, an explicit-geometry
/// raster pass of `count` synthesized vertices drawn with primitive `mode`,
/// or a compute dispatch (a zero `y` or `z` dimension counts as 1).
#[derive(Clone, Copy, Debug, PartialEq, Eq, Structural)]
pub enum StageKind {
    Fullscreen,
    Explicit { count: u32, mode: u32 },
    Compute { x: u32, y: u32, z: u32 },
}

/// One declared stage: its shader sources, kind, ordered dependency buffer
/// names, optional target buffer name, and optional fixed resolution.
#[derive(Debug)]
pub struct StageDecl {
    pub shaders: Vec<ShaderSlot>,
    pub kind: StageKind,
    pub deps: Vec<Vec<u8>>,
    pub target: Option<Vec<u8>>,
    pub resolution: Option<Resolution>,
}

/// A parsed pipeline description: buffers and stages in declaration order.
#[derive(Debug)]
pub struct PipelineDesc {
    pub buffers: Vec<BufferDecl>,
    pub stages: Vec<StageDecl>,
}

/// Why a load was abandoned. Every variant is fatal to the load attempt
/// alone: the previously installed pipeline stays untouched.
#[derive(Debug, PartialEq, Eq)]
pub enum LoadError {
    /// The description file could not be read at all; the reader's error
    /// text.
    Io { message: Vec<u8> },
    /// The description text does not parse.
    Parse { error: crate::parse::ParseError },
    /// Two buffers share a name.
    DuplicateBuffer { name: Vec<u8> },
    /// A stage names a dependency or target that no buffer declares.
    UnresolvedReference { stage: usize, name: Vec<u8> },
    /// A shader source failed to expand: a missing file or an inclusion
    /// cycle.
    Shader { stage: usize, error: PreprocessError },
    /// The driver rejected a shader source; the compiler log verbatim.
    Compile { stage: usize, log: Vec<u8> },
    /// The driver rejected the assembled program; the linker log verbatim.
    Link { stage: usize, log: Vec<u8> },
}

/// The declared buffer names, in declaration order.
pub open spec fn names_of(desc: PipelineDesc) -> Seq<Seq<u8>> {
    desc.buffers@.map_values(|b: BufferDecl| b.name@)
}

/// `name` names a declared buffer.
pub open spec fn resolves(desc: PipelineDesc, name: Seq<u8>) -> bool {
    names_of(desc).contains(name)
}

/// The name carried by an optional target.
pub open spec fn opt_name(o: Option<Vec<u8>>) -> Option<Seq<u8>> {
    match o {
        None => None,
        Some(v) => Some(v@),
    }
}

/// Every dependency and the target of `s` name declared buffers.
pub open spec fn stage_resolved(desc: PipelineDesc, s: StageDecl) -> bool {
    &&& forall|k: int| 0 <= k < s.deps@.len() ==> resolves(desc, s.deps@[k]@)
    &&& (s.target matches Some(t) ==> resolves(desc, t@))
}

/// `s` mentions `name` as a dependency or as its target.
pub open spec fn stage_mentions(s: StageDecl, name: Seq<u8>) -> bool {
    ||| exists|k: int| 0 <= k < s.deps@.len() && s.deps@[k]@ == name
    ||| opt_name(s.target) == Some(name)
}

/// A well-formed description: buffer names are unique, and every stage
/// reference resolves.
pub open spec fn desc_valid(desc: PipelineDesc) -> bool {
    &&& forall|a: int, b: int|
        0 <= a < b < names_of(desc).len() ==> names_of(desc)[a] != names_of(desc)[b]
    &&& forall|i: int| 0 <= i < desc.stages@.len() ==> stage_resolved(desc, desc.stages@[i])
}

/// Whether a declared buffer carries `name`.
fn contains_name(buffers: &Vec<BufferDecl>, name: &[u8]) -> (r: bool)
    ensures
        r == buffers@.map_values(|b: BufferDecl| b.name@).contains(name@),
{
    let n = buffers.len();
    let mut i: usize = 0;
    while i < n
        invariant
            i <= n,
            n == buffers@.len(),
            forall|k: int| 0 <= k < i ==> buffers@[k].name@ != name@,
        decreases n - i,
    {
        if crate::preprocess::eq_bytes(buffers[i].name.as_slice(), name) {
            proof {
                assert(buffers@.map_values(|b: BufferDecl| b.name@)[i as int] == name@);
            }
            return true;
        }
        i = i + 1;
    }
    proof {
        let m = buffers@.map_values(|b: BufferDecl| b.name@);
        assert forall|k: int| 0 <= k < m.len() implies m[k] != name@ by {
            assert(m[k] == buffers@[k].name@);
        }
    }
    false
}

/// Owned copy of a byte string.
pub(crate) fn copy_bytes(src: &[u8]) -> (r: Vec<u8>)
    ensures
        r@ == src@,
{
    let mut out: Vec<u8> = Vec::new();
    let n = src.len();
    let mut i: usize = 0;
    while i < n
        invariant
            i <= n,
            n == src@.len(),
            out@ =~= src@.subrange(0, i as int),
        decreases n - i,
    {
        out.push(src[i]);
        i = i + 1;
    }
    proof {
        assert(out@ =~= src@);
    }
    out
}

/// Checks a description: buffer names must be unique and every stage
/// dependency and target must name a declared buffer. Accepts exactly the
/// valid descriptions.
pub fn validate(desc: &PipelineDesc) -> (r: Result<(), LoadError>)
    ensures
        r is Ok <==> desc_valid(*desc),
        r matches Err(LoadError::DuplicateBuffer { name }) ==> exists|a: int, b: int|
            0 <= a < b < names_of(*desc).len() && names_of(*desc)[a] == names_of(*desc)[b]
                && names_of(*desc)[b] == name@,
        r matches Err(LoadError::UnresolvedReference { stage, name }) ==> stage
            < desc.stages@.len() && !resolves(*desc, name@) && stage_mentions(
            desc.stages@[stage as int],
            name@,
        ),
        r is Err ==> (r matches Err(LoadError::DuplicateBuffer { .. }) || r matches Err(
            LoadError::UnresolvedReference { .. },
        )),
{
    let nb = desc.buffers.len();
    let mut j: usize = 1;
    while j < nb
        invariant
            1 <= j <= nb || (j == 1 && nb == 0),
            nb == desc.buffers@.len(),
            forall|a: int, b: int| 0 <= a < b < j ==> names_of(*desc)[a] != names_of(*desc)[b],
        decreases nb - j,
    {
        let mut i: usize = 0;
        while i < j
            invariant
                i <= j < nb,
                nb == desc.buffers@.len(),
                forall|a: int| 0 <= a < i ==> names_of(*desc)[a] != names_of(*desc)[j as int],
            decreases j - i,
        {
            if crate::preprocess::eq_bytes(
                desc.buffers[i].name.as_slice(),
                desc.buffers[j].name.as_slice(),
            ) {
                let name = copy_bytes(desc.buffers[j].name.as_slice());
                proof {
                    assert(names_of(*desc)[i as int] == desc.buffers@[i as int].name@);
                    assert(names_of(*desc)[j as int] == desc.buffers@[j as int].name@);
                }
                return Err(LoadError::DuplicateBuffer { name });
            }
            proof {
                assert(names_of(*desc)[i as int] == desc.buffers@[i as int].name@);
                assert(names_of(*desc)[j as int] == desc.buffers@[j as int].name@);
            }
            i = i + 1;
        }
        j = j + 1;
    }
    let ns = desc.stages.len();
    let mut si: usize = 0;
    while si < ns
        invariant
            si <= ns,
            ns == desc.stages@.len(),
            nb == desc.buffers@.len(),
            forall|a: int, b: int|
                0 <= a < b < names_of(*desc).len() ==> names_of(*desc)[a] != names_of(*desc)[b],
            forall|i: int| 0 <= i < si ==> stage_resolved(*desc, desc.stages@[i]),
        decreases ns - si,
    {
        let nd = desc.stages[si].deps.len();
        let mut k: usize = 0;
        while k < nd
            invariant
                k <= nd,
                si < ns,
                ns == desc.stages@.len(),
                nd == desc.stages@[si as int].deps@.len(),
                forall|t: int| 0 <= t < k ==> resolves(*desc, desc.stages@[si as int].deps@[t]@),
            decreases nd - k,
        {
            if !contains_name(&desc.buffers, desc.stages[si].deps[k].as_slice()) {
                let name = copy_bytes(desc.stages[si].deps[k].as_slice());
                return Err(LoadError::UnresolvedReference { stage: si, name });
            }
            k = k + 1;
        }
        match &desc.stages[si].target {
            Some(t) => {
                if !contains_name(&desc.buffers, t.as_slice()) {
                    let name = copy_bytes(t.as_slice());
                    return Err(LoadError::UnresolvedReference { stage: si, name });
                }
            },
            None => {},
        }
        si = si + 1;
    }
    Ok(())
}

/// An expanded shader source ready for the driver's compiler.
#[derive(Debug)]
pub struct ShaderUnit {
    pub ty: ShaderType,
    pub source: Vec<u8>,
}

/// The sources of one stage's program.
#[derive(Debug)]
pub struct ProgramPlan {
    pub units: Vec<ShaderUnit>,
}

/// One buffer to allocate, with its size already resolved against the
/// current window.
#[derive(Debug)]
pub struct BufferAlloc {
    pub name: Vec<u8>,
    pub resolution: Resolution,
    pub policy: BufferPolicy,
}

/// Everything a load needs from the outside world: programs to compile and
/// buffers to allocate. Built only from a valid description.
#[derive(Debug)]
pub struct LoadPlan {
    pub desc: PipelineDesc,
    pub programs: Vec<ProgramPlan>,
    pub allocations: Vec<BufferAlloc>,
}

/// The size a buffer of policy `p` takes under the given window size.
pub open spec fn policy_resolution(p: BufferPolicy, win_w: u32, win_h: u32) -> Resolution {
    match p {
        BufferPolicy::WindowSized => Resolution { width: win_w, height: win_h, depth: 0 },
        BufferPolicy::Fixed { width, height, depth } => Resolution { width, height, depth },
    }
}

/// What expanding the named source file yields, inclusion path starting at
/// the file itself.
pub open spec fn source_expansion(files: Seq<(Seq<u8>, Seq<u8>)>, path: Seq<u8>) -> Expansion {
    match lookup_in(files, path) {
        None => Expansion::Missing(path),
        Some(content) => expand_spec(files, content, 0, Set::empty().insert(path)),
    }
}

/// Every shader source of the description expands without error.
pub open spec fn expansions_ok(desc: PipelineDesc, files: Seq<(Seq<u8>, Seq<u8>)>) -> bool {
    forall|i: int, k: int|
        0 <= i < desc.stages@.len() && 0 <= k < desc.stages@[i].shaders@.len()
            ==> (source_expansion(files, desc.stages@[i].shaders@[k].path@) is Done)
}

/// The mathematical reading of a failed expansion.
pub open spec fn err_expansion(e: PreprocessError) -> Expansion {
    match e {
        PreprocessError::Cycle { name } => Expansion::Cycle(name@),
        PreprocessError::Missing { name } => Expansion::Missing(name@),
    }
}

/// The plan mirrors its description: one program per stage with the
/// expanded sources in slot order, and one allocation per buffer with the
/// resolved size.
pub open spec fn plan_matches(
    p: LoadPlan,
    files: Seq<(Seq<u8>, Seq<u8>)>,
    win_w: u32,
    win_h: u32,
) -> bool {
    &&& p.programs@.len() == p.desc.stages@.len()
    &&& forall|i: int|
        0 <= i < p.desc.stages@.len() ==> p.programs@[i].units@.len()
            == p.desc.stages@[i].shaders@.len()
    &&& forall|i: int, k: int|
        0 <= i < p.desc.stages@.len() && 0 <= k < p.desc.stages@[i].shaders@.len() ==> {
            &&& p.programs@[i].units@[k].ty == p.desc.stages@[i].shaders@[k].ty
            &&& Expansion::Done(p.programs@[i].units@[k].source@) == source_expansion(
                files,
                p.desc.stages@[i].shaders@[k].path@,
            )
        }
    &&& p.allocations@.len() == p.desc.buffers@.len()
    &&& forall|i: int|
        0 <= i < p.desc.buffers@.len() ==> {
            &&& p.allocations@[i].name@ == p.desc.buffers@[i].name@
            &&& p.allocations@[i].policy == p.desc.buffers@[i].policy
            &&& p.allocations@[i].resolution == policy_resolution(
                p.desc.buffers@[i].policy,
                win_w,
                win_h,
            )
        }
}

/// Validates the description and expands every shader source against the
/// file table. Succeeds exactly when the description is valid and every
/// source expands; the plan then lists, per stage, the sources to compile,
/// and, per buffer, the size to allocate under the given window size.
pub fn plan_load(desc: PipelineDesc, files: &FileTable, win_w: u32, win_h: u32) -> (r: Result<
    LoadPlan,
    LoadError,
>)
    ensures
        r is Ok <==> (desc_valid(desc) && expansions_ok(desc, files.model())),
        r matches Ok(p) ==> p.desc == desc && desc_valid(p.desc) && plan_matches(
            p,
            files.model(),
            win_w,
            win_h,
        ),
        r matches Err(LoadError::Shader { stage, error }) ==> stage < desc.stages@.len()
            && exists|k: int|
            0 <= k < desc.stages@[stage as int].shaders@.len() && source_expansion(
                files.model(),
                desc.stages@[stage as int].shaders@[k].path@,
            ) == err_expansion(error),
        r matches Err(LoadError::DuplicateBuffer { name }) ==> exists|a: int, b: int|
            0 <= a < b < names_of(desc).len() && names_of(desc)[a] == names_of(desc)[b]
                && names_of(desc)[b] == name@,
        r matches Err(LoadError::UnresolvedReference { stage, name }) ==> stage
            < desc.stages@.len() && !resolves(desc, name@) && stage_mentions(
            desc.stages@[stage as int],
            name@,
        ),
{
    match validate(&desc) {
        Err(e) => {
            return Err(e);
        },
        Ok(()) => {},
    }
    let ns = desc.stages.len();
    let mut programs: Vec<ProgramPlan> = Vec::new();
    let mut i: usize = 0;
    while i < ns
        invariant
            i <= ns,
            ns == desc.stages@.len(),
            programs@.len() == i,
            forall|t: int|
                0 <= t < i ==> programs@[t].units@.len() == desc.stages@[t].shaders@.len(),
            forall|t: int, k: int|
                0 <= t < i && 0 <= k < desc.stages@[t].shaders@.len() ==> {
                    &&& programs@[t].units@[k].ty == desc.stages@[t].shaders@[k].ty
                    &&& Expansion::Done(programs@[t].units@[k].source@) == source_expansion(
                        files.model(),
                        desc.stages@[t].shaders@[k].path@,
                    )
                },
        decreases ns - i,
    {
        let nu = desc.stages[i].shaders.len();
        let mut units: Vec<ShaderUnit> = Vec::new();
        let mut k: usize = 0;
        while k < nu
            invariant
                k <= nu,
                i < ns,
                ns == desc.stages@.len(),
                nu == desc.stages@[i as int].shaders@.len(),
                units@.len() == k,
                forall|t: int|
                    0 <= t < k ==> {
                        &&& units@[t].ty == desc.stages@[i as int].shaders@[t].ty
                        &&& Expansion::Done(units@[t].source@) == source_expansion(
                            files.model(),
                            desc.stages@[i as int].shaders@[t].path@,
                        )
                    },
            decreases nu - k,
        {
            let slot_ty = desc.stages[i].shaders[k].ty;
            match expand_file(files, desc.stages[i].shaders[k].path.as_slice()) {
                Ok(source) => {
                    units.push(ShaderUnit { ty: slot_ty, source });
                },
                Err(e) => {
                    proof {
                        assert(source_expansion(
                            files.model(),
                            desc.stages@[i as int].shaders@[k as int].path@,
                        ) == err_expansion(e));
                        assert(!expansions_ok(desc, files.model())) by {
                            if expansions_ok(desc, files.model()) {
                                assert(source_expansion(
                                    files.model(),
                                    desc.stages@[i as int].shaders@[k as int].path@,
                                ) is Done);
                            }
                        }
                    }
                    return Err(LoadError::Shader { stage: i, error: e });
                },
            }
            k = k + 1;
        }
        programs.push(ProgramPlan { units });
        i = i + 1;
    }
    let nb = desc.buffers.len();
    let mut allocations: Vec<BufferAlloc> = Vec::new();
    let mut b: usize = 0;
    while b < nb
        invariant
            b <= nb,
            nb == desc.buffers@.len(),
            allocations@.len() == b,
            forall|t: int|
                0 <= t < b ==> {
                    &&& allocations@[t].name@ == desc.buffers@[t].name@
                    &&& allocations@[t].policy == desc.buffers@[t].policy
                    &&& allocations@[t].resolution == policy_resolution(
                        desc.buffers@[t].policy,
                        win_w,
                        win_h,
                    )
                },
        decreases nb - b,
    {
        let name = copy_bytes(desc.buffers[b].name.as_slice());
        let policy = desc.buffers[b].policy;
        let resolution = match policy {
            BufferPolicy::WindowSized => Resolution { width: win_w, height: win_h, depth: 0 },
            BufferPolicy::Fixed { width, height, depth } => Resolution { width, height, depth },
        };
        allocations.push(BufferAlloc { name, resolution, policy });
        b = b + 1;
    }
    proof {
        assert(expansions_ok(desc, files.model())) by {
            assert forall|t: int, k2: int|
                0 <= t < desc.stages@.len() && 0 <= k2
                    < desc.stages@[t].shaders@.len() implies (source_expansion(
                files.model(),
                desc.stages@[t].shaders@[k2].path@,
            ) is Done) by {
                assert(Expansion::Done(programs@[t].units@[k2].source@) == source_expansion(
                    files.model(),
                    desc.stages@[t].shaders@[k2].path@,
                ));
            }
        }
    }
    Ok(LoadPlan { desc, programs, allocations })
}

/// A live render target: the GPU texture and framebuffer handles the
/// outside allocated for one declared buffer, with its current size. The
/// registry maps buffer names to these; the display surface is never
/// entered here, being the implicit target with both handles zero.
#[derive(Debug)]
pub struct Texture {
    pub name: Vec<u8>,
    pub id: u32,
    pub fb: u32,
    pub resolution: Resolution,
    pub policy: BufferPolicy,
}

/// A live stage: a linked program handle plus the declaration's kind,
/// dependencies, target and resolution override, and a rolling
/// execution-time average.
#[derive(Debug)]
pub struct Stage {
    pub program: u32,
    pub kind: StageKind,
    pub deps: Vec<Vec<u8>>,
    pub target: Option<Vec<u8>>,
    pub resolution: Option<Resolution>,
    pub perf: RunningAverage,
}

/// The installed pipeline: stages in declaration order and the registry of
/// named buffers.
#[derive(Debug)]
pub struct Pipeline {
    pub stages: Vec<Stage>,
    pub buffers: Vec<Texture>,
}

/// The registry's names, in order.
pub open spec fn registry_names(bufs: Seq<Texture>) -> Seq<Seq<u8>> {
    bufs.map_values(|b: Texture| b.name@)
}

/// The first registry entry named `name`.
pub open spec fn registry_lookup(bufs: Seq<Texture>, name: Seq<u8>) -> Option<Texture>
    decreases bufs.len(),
{
    if bufs.len() == 0 {
        None
    } else if bufs[0].name@ == name {
        Some(bufs[0])
    } else {
        registry_lookup(bufs.skip(1), name)
    }
}

pub proof fn lemma_registry_lookup_contains(bufs: Seq<Texture>, name: Seq<u8>)
    ensures
        (registry_lookup(bufs, name) is Some) == registry_names(bufs).contains(name),
        registry_lookup(bufs, name) matches Some(b) ==> exists|i: int|
            0 <= i < bufs.len() && bufs[i] == b && bufs[i].name@ == name,
    decreases bufs.len(),
{
    if bufs.len() == 0 {
        assert(forall|i: int|
            0 <= i < registry_names(bufs).len() ==> registry_names(bufs)[i] != name);
    } else if bufs[0].name@ == name {
        assert(registry_names(bufs)[0] == name);
    } else {
        lemma_registry_lookup_contains(bufs.skip(1), name);
        let tail = registry_names(bufs.skip(1));
        assert forall|i: int| 0 <= i < tail.len() implies tail[i] == registry_names(bufs)[i
            + 1] by {
            assert(tail[i] == bufs.skip(1)[i].name@);
        }
        if registry_names(bufs).contains(name) {
            let i = choose|i: int|
                0 <= i < registry_names(bufs).len() && registry_names(bufs)[i] == name;
            assert(registry_names(bufs)[i] == bufs[i].name@);
            assert(i >= 1);
            assert(tail[i - 1] == name);
            assert(tail.contains(name));
        }
        if tail.contains(name) {
            let i = choose|i: int| 0 <= i < tail.len() && tail[i] == name;
            assert(registry_names(bufs)[i + 1] == name);
            assert(registry_names(bufs).contains(name));
        }
        match registry_lookup(bufs, name) {
            Some(b) => {
                let i = choose|i: int|
                    0 <= i < bufs.skip(1).len() && bufs.skip(1)[i] == b && bufs.skip(1)[i].name@
                        == name;
                assert(bufs[i + 1] == b && bufs[i + 1].name@ == name);
            },
            None => {},
        }
    }
}

impl Pipeline {
    /// A pipeline is well formed when its registry names are unique, every
    /// stage reference resolves in the registry, and every timing average
    /// is usable.
    pub open spec fn wf(self) -> bool {
        &&& forall|a: int, b: int|
            0 <= a < b < self.buffers@.len() ==> self.buffers@[a].name@ != self.buffers@[b].name@
        &&& forall|i: int, k: int|
            0 <= i < self.stages@.len() && 0 <= k < self.stages@[i].deps@.len()
                ==> registry_names(self.buffers@).contains(self.stages@[i].deps@[k]@)
        &&& forall|i: int|
            0 <= i < self.stages@.len() ==> (#[trigger] self.stages@[i].target matches Some(t)
                ==> registry_names(self.buffers@).contains(t@))
        &&& forall|i: int| 0 <= i < self.stages@.len() ==> self.stages@[i].perf.well_formed()
        &&& forall|i: int|
            0 <= i < self.stages@.len() ==> (#[trigger] self.stages@[i].deps@.len()) <= u32::MAX
    }

    /// The pipeline a fresh process starts with: nothing to render until
    /// the first successful load.
    pub fn empty() -> (r: Self)
        ensures
            r.wf(),
            r.stages@.len() == 0,
            r.buffers@.len() == 0,
    {
        Pipeline { stages: Vec::new(), buffers: Vec::new() }
    }

    /// Index of the registry buffer carrying `name`.
    pub fn find_buffer(&self, name: &[u8]) -> (r: Option<usize>)
        ensures
            match r {
                Some(i) => i < self.buffers@.len() && self.buffers@[i as int].name@ == name@
                    && registry_lookup(self.buffers@, name@) == Some(self.buffers@[i as int]),
                None => registry_lookup(self.buffers@, name@) is None,
            },
    {
        let n = self.buffers.len();
        proof {
            assert(self.buffers@.skip(0) =~= self.buffers@);
        }
        let mut i: usize = 0;
        while i < n
            invariant
                i <= n,
                n == self.buffers@.len(),
                registry_lookup(self.buffers@, name@) == registry_lookup(
                    self.buffers@.skip(i as int),
                    name@,
                ),
            decreases n - i,
        {
            if crate::preprocess::eq_bytes(self.buffers[i].name.as_slice(), name) {
                proof {
                    assert(self.buffers@.skip(i as int)[0] == self.buffers@[i as int]);
                }
                return Some(i);
            }
            proof {
                assert(self.buffers@.skip(i as int)[0] == self.buffers@[i as int]);
                assert(self.buffers@.skip(i as int).skip(1) =~= self.buffers@.skip(i + 1));
            }
            i = i + 1;
        }
        proof {
            assert(self.buffers@.skip(n as int) =~= Seq::<Texture>::empty());
        }
        None
    }
}

/// The live stage `s` carries over everything declaration `d` said, runs
/// program `prog`, and starts with a fresh, zero-filled timing window of
/// the standard size.
pub open spec fn stage_matches(s: Stage, d: StageDecl, prog: u32) -> bool {
    &&& s.program == prog
    &&& s.kind == d.kind
    &&& s.deps@.len() == d.deps@.len()
    &&& forall|k: int| 0 <= k < d.deps@.len() ==> s.deps@[k]@ == d.deps@[k]@
    &&& opt_name(s.target) == opt_name(d.target)
    &&& s.resolution == d.resolution
    &&& s.perf.well_formed()
    &&& s.perf.capacity() == STAGE_PERF_WINDOW
    &&& s.perf.window() == Seq::new(STAGE_PERF_WINDOW as nat, |t: int| 0u32)
}

/// Copies of a list of names.
fn copy_names(v: &Vec<Vec<u8>>) -> (r: Vec<Vec<u8>>)
    ensures
        r@.len() == v@.len(),
        forall|k: int| 0 <= k < v@.len() ==> r@[k]@ == v@[k]@,
{
    let n = v.len();
    let mut out: Vec<Vec<u8>> = Vec::new();
    let mut i: usize = 0;
    while i < n
        invariant
            i <= n,
            n == v@.len(),
            out@.len() == i,
            forall|k: int| 0 <= k < i ==> out@[k]@ == v@[k]@,
        decreases n - i,
    {
        out.push(copy_bytes(v[i].as_slice()));
        i = i + 1;
    }
    out
}

/// Builds the pipeline once the outside has compiled every program of the
/// plan and allocated every buffer: `programs[i]` is the linked program
/// handle of stage `i`, `textures[i]` the texture and framebuffer handles
/// of buffer `i`. After this the registry holds exactly the declared
/// buffers and the stage list exactly the declared stages, in declaration
/// order.
pub fn install(plan: &LoadPlan, programs: &Vec<u32>, textures: &Vec<(u32, u32)>) -> (r: Pipeline)
    requires
        desc_valid(plan.desc),
        plan.allocations@.len() == plan.desc.buffers@.len(),
        forall|i: int|
            0 <= i < plan.desc.buffers@.len() ==> plan.allocations@[i].name@
                == plan.desc.buffers@[i].name@ && plan.allocations@[i].policy
                == plan.desc.buffers@[i].policy,
        programs@.len() == plan.desc.stages@.len(),
        textures@.len() == plan.desc.buffers@.len(),
        forall|i: int|
            0 <= i < plan.desc.stages@.len() ==> (#[trigger] plan.desc.stages@[i].deps@.len())
                <= u32::MAX,
    ensures
        r.wf(),
        r.stages@.len() == plan.desc.stages@.len(),
        forall|i: int|
            0 <= i < plan.desc.stages@.len() ==> stage_matches(
                r.stages@[i],
                plan.desc.stages@[i],
                programs@[i],
            ),
        r.buffers@.len() == plan.desc.buffers@.len(),
        forall|i: int|
            0 <= i < plan.desc.buffers@.len() ==> {
                &&& r.buffers@[i].name@ == plan.desc.buffers@[i].name@
                &&& r.buffers@[i].id == textures@[i].0
                &&& r.buffers@[i].fb == textures@[i].1
                &&& r.buffers@[i].resolution == plan.allocations@[i].resolution
                &&& r.buffers@[i].policy == plan.desc.buffers@[i].policy
            },
{
    let nb = plan.desc.buffers.len();
    let mut buffers: Vec<Texture> = Vec::new();
    let mut b: usize = 0;
    while b < nb
        invariant
            b <= nb,
            nb == plan.desc.buffers@.len(),
            plan.allocations@.len() == nb,
            textures@.len() == nb,
            forall|i: int|
                0 <= i < nb ==> plan.allocations@[i].name@ == plan.desc.buffers@[i].name@
                    && plan.allocations@[i].policy == plan.desc.buffers@[i].policy,
            buffers@.len() == b,
            forall|i: int|
                0 <= i < b ==> {
                    &&& buffers@[i].name@ == plan.desc.buffers@[i].name@
                    &&& buffers@[i].id == textures@[i].0
                    &&& buffers@[i].fb == textures@[i].1
                    &&& buffers@[i].resolution == plan.allocations@[i].resolution
                    &&& buffers@[i].policy == plan.desc.buffers@[i].policy
                },
        decreases nb - b,
    {
        let name = copy_bytes(plan.desc.buffers[b].name.as_slice());
        let (tex, fb) = textures[b];
        buffers.push(
            Texture {
                name,
                id: tex,
                fb,
                resolution: plan.allocations[b].resolution,
                policy: plan.desc.buffers[b].policy,
            },
        );
        b = b + 1;
    }
    let ns = plan.desc.stages.len();
    let mut stages: Vec<Stage> = Vec::new();
    let mut i: usize = 0;
    while i < ns
        invariant
            i <= ns,
            ns == plan.desc.stages@.len(),
            programs@.len() == ns,
            stages@.len() == i,
            forall|t: int|
                0 <= t < i ==> stage_matches(stages@[t], plan.desc.stages@[t], programs@[t]),
        decreases ns - i,
    {
        let decl = &plan.desc.stages[i];
        let deps = copy_names(&decl.deps);
        let target = match &decl.target {
            Some(t) => Some(copy_bytes(t.as_slice())),
            None => None,
        };
        let perf = RunningAverage::new(STAGE_PERF_WINDOW);
        stages.push(
            Stage { program: programs[i], kind: decl.kind, deps, target, resolution: decl.resolution, perf },
        );
        i = i + 1;
    }
    let r = Pipeline { stages, buffers };
    proof {
        assert forall|a: int, k: int|
            0 <= a < r.stages@.len() && 0 <= k < r.stages@[a].deps@.len() implies registry_names(
            r.buffers@,
        ).contains(r.stages@[a].deps@[k]@) by {
            assert(stage_matches(r.stages@[a], plan.desc.stages@[a], programs@[a]));
            assert(r.stages@[a].deps@[k]@ == plan.desc.stages@[a].deps@[k]@);
            assert(resolves(plan.desc, plan.desc.stages@[a].deps@[k]@));
            lemma_names_carry_over(plan.desc, r.buffers@, plan.desc.stages@[a].deps@[k]@);
        }
        assert forall|a: int|
            0 <= a < r.stages@.len() && r.stages@[a].target is Some implies registry_names(
            r.buffers@,
        ).contains(r.stages@[a].target->Some_0@) by {
            assert(stage_matches(r.stages@[a], plan.desc.stages@[a], programs@[a]));
            assert(opt_name(r.stages@[a].target) == opt_name(plan.desc.stages@[a].target));
            lemma_names_carry_over(plan.desc, r.buffers@, r.stages@[a].target->Some_0@);
        }
        assert forall|a: int, c: int|
            0 <= a < c < r.buffers@.len() implies r.buffers@[a].name@ != r.buffers@[c].name@ by {
            assert(names_of(plan.desc)[a] == plan.desc.buffers@[a].name@);
            assert(names_of(plan.desc)[c] == plan.desc.buffers@[c].name@);
        }
    }
    r
}

/// A name that resolves in the description resolves in a registry built
/// from it entry by entry.
proof fn lemma_names_carry_over(desc: PipelineDesc, bufs: Seq<Texture>, name: Seq<u8>)
    requires
        bufs.len() == desc.buffers@.len(),
        forall|i: int| 0 <= i < bufs.len() ==> bufs[i].name@ == desc.buffers@[i].name@,
        resolves(desc, name),
    ensures
        registry_names(bufs).contains(name),
{
    let i = choose|i: int| 0 <= i < names_of(desc).len() && names_of(desc)[i] == name;
    assert(names_of(desc)[i] == desc.buffers@[i].name@);
    assert(registry_names(bufs)[i] == bufs[i].name@);
    assert(registry_names(bufs).contains(name));
}

impl Pipeline {
    /// Follows a display-surface resize: every window-sized buffer takes
    /// the new resolution, every fixed buffer keeps its own; names, handles
    /// and stages are untouched, so bindings by name stay valid.
    pub fn resize_buffers(&mut self, width: u32, height: u32)
        requires
            old(self).wf(),
        ensures
            final(self).wf(),
            final(self).stages == old(self).stages,
            final(self).buffers@.len() == old(self).buffers@.len(),
            forall|i: int|
                0 <= i < old(self).buffers@.len() ==> {
                    &&& final(self).buffers@[i].name@ == old(self).buffers@[i].name@
                    &&& final(self).buffers@[i].id == old(self).buffers@[i].id
                    &&& final(self).buffers@[i].fb == old(self).buffers@[i].fb
                    &&& final(self).buffers@[i].policy == old(self).buffers@[i].policy
                    &&& final(self).buffers@[i].resolution == (match old(self).buffers@[i].policy {
                        BufferPolicy::WindowSized => Resolution { width, height, depth: 0 },
                        BufferPolicy::Fixed { .. } => old(self).buffers@[i].resolution,
                    })
                },
    {
        let ghost pre = *self;
        let n = self.buffers.len();
        let mut i: usize = 0;
        while i < n
            invariant
                i <= n,
                n == self.buffers@.len(),
                self.stages == pre.stages,
                pre.buffers@.len() == n,
                forall|k: int|
                    i <= k < n ==> self.buffers@[k] == pre.buffers@[k],
                forall|k: int|
                    0 <= k < i ==> {
                        &&& self.buffers@[k].name@ == pre.buffers@[k].name@
                        &&& self.buffers@[k].id == pre.buffers@[k].id
                        &&& self.buffers@[k].fb == pre.buffers@[k].fb
                        &&& self.buffers@[k].policy == pre.buffers@[k].policy
                        &&& self.buffers@[k].resolution == (match pre.buffers@[k].policy {
                            BufferPolicy::WindowSized => Resolution { width, height, depth: 0 },
                            BufferPolicy::Fixed { .. } => pre.buffers@[k].resolution,
                        })
                    },
            decreases n - i,
        {
            let windowed = match self.buffers[i].policy {
                BufferPolicy::WindowSized => true,
                BufferPolicy::Fixed { .. } => false,
            };
            if windowed {
                let ghost cur = self.buffers@;
                let mut entry = self.buffers.remove(i);
                entry.resolution = Resolution { width, height, depth: 0 };
                let ghost updated = entry;
                self.buffers.insert(i, entry);
                proof {
                    assert(self.buffers@ =~= cur.update(i as int, updated));
                }
            }
            i = i + 1;
        }
        proof {
            assert forall|a: int, b: int|
                0 <= a < b < self.buffers@.len() implies self.buffers@[a].name@
                != self.buffers@[b].name@ by {
                assert(self.buffers@[a].name@ == pre.buffers@[a].name@);
                assert(self.buffers@[b].name@ == pre.buffers@[b].name@);
            }
            assert(registry_names(self.buffers@) =~= registry_names(pre.buffers@));
        }
    }

    /// Records a stage's measured execution time (for instance in
    /// microseconds) into that stage's rolling average; every other stage
    /// and every buffer is untouched.
    pub fn record_stage_time(&mut self, stage: usize, sample: u32)
        requires
            old(self).wf(),
            stage < old(self).stages@.len(),
        ensures
            final(self).wf(),
            final(self).buffers == old(self).buffers,
            final(self).stages@.len() == old(self).stages@.len(),
            forall|k: int|
                0 <= k < old(self).stages@.len() && k != stage ==> final(self).stages@[k] == old(
                    self,
                ).stages@[k],
            final(self).stages@[stage as int].program == old(self).stages@[stage as int].program,
            final(self).stages@[stage as int].kind == old(self).stages@[stage as int].kind,
            final(self).stages@[stage as int].deps == old(self).stages@[stage as int].deps,
            final(self).stages@[stage as int].target == old(self).stages@[stage as int].target,
            final(self).stages@[stage as int].resolution == old(
                self,
            ).stages@[stage as int].resolution,
            final(self).stages@[stage as int].perf.window() == old(
                self,
            ).stages@[stage as int].perf.window().skip(1).push(sample),
            final(self).stages@[stage as int].perf.capacity() == old(
                self,
            ).stages@[stage as int].perf.capacity(),
    {
        let ghost pre = *self;
        let mut entry = self.stages.remove(stage);
        entry.perf.push(sample);
        self.stages.insert(stage, entry);
        proof {
            assert forall|k: int| 0 <= k < pre.stages@.len() && k != stage implies self.stages@[k]
                == pre.stages@[k] by {}
            assert(registry_names(self.buffers@) == registry_names(pre.buffers@));
        }
    }
}

} // verus!
