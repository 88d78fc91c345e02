//! Shader descriptions: vertex data types, pipeline stages, shader source
//! and the builder that collects the stages of a shader program.
use vstd::prelude::*;

verus! {

/// The type of a vertex attribute.
#[derive(Debug, Copy, Clone, PartialEq, Eq, Structural)]
pub enum ShaderDataType {
    Float,
    Vec2f,
    Vec3f,
    Vec4f,
}

impl ShaderDataType {
    /// The number of 32-bit float components.
    pub open spec fn components(self) -> nat {
        match self {
            ShaderDataType::Float => 1,
            ShaderDataType::Vec2f => 2,
            ShaderDataType::Vec3f => 3,
            ShaderDataType::Vec4f => 4,
        }
    }

    /// The size in bytes: four bytes per component.
    pub fn size(self) -> (bytes: usize)
        ensures
            bytes == 4 * self.components(),
    {
        match self {
            ShaderDataType::Float => 4 * 1,
            ShaderDataType::Vec2f => 4 * 2,
            ShaderDataType::Vec3f => 4 * 3,
            ShaderDataType::Vec4f => 4 * 4,
        }
    }

    /// The number of components.
    pub fn shape(self) -> (n: u32)
        ensures
            n == self.components(),
    {
        match self {
            ShaderDataType::Float => 1,
            ShaderDataType::Vec2f => 2,
            ShaderDataType::Vec3f => 3,
            ShaderDataType::Vec4f => 4,
        }
    }
}

/// Why building a shader program failed; each variant carries the shader's
/// debug name and the message of the step that failed.
#[derive(Debug, PartialEq, Eq)]
pub enum ShaderCreateError {
    CompilationError(String, String),
    ValidationError(String, String),
    LinkingError(String, String),
}

/// The source of one shader stage.
#[derive(Debug)]
pub enum ShaderData {
    Spirv(Vec<u8>),
    Glsl(String),
}

/// What a [`ShaderData`] holds, as mathematical values.
pub enum ShaderSource {
    Spirv(Seq<u8>),
    Glsl(Seq<char>),
}

impl View for ShaderData {
    type V = ShaderSource;

    open spec fn view(&self) -> ShaderSource {
        match self {
            ShaderData::Spirv(bytes) => ShaderSource::Spirv(bytes@),
            ShaderData::Glsl(text) => ShaderSource::Glsl(text@),
        }
    }
}

impl Clone for ShaderData {
    fn clone(&self) -> (c: Self)
        ensures
            c@ == self@,
    {
        match self {
            ShaderData::Spirv(bytes) => {
                let copy = bytes.clone();
                assert(copy@ =~= bytes@);
                ShaderData::Spirv(copy)
            },
            ShaderData::Glsl(text) => ShaderData::Glsl(text.clone()),
        }
    }
}

/// One shader stage: its entry point and its source.
#[derive(Debug)]
pub struct ShaderCode<'a> {
    pub entry_point: &'a str,
    pub data: ShaderData,
}

impl<'a> View for ShaderCode<'a> {
    type V = (Seq<char>, ShaderSource);

    open spec fn view(&self) -> (Seq<char>, ShaderSource) {
        (self.entry_point@, self.data@)
    }
}

impl<'a> Clone for ShaderCode<'a> {
    fn clone(&self) -> (c: Self)
        ensures
            c@ == self@,
    {
        ShaderCode { entry_point: self.entry_point, data: self.data.clone() }
    }
}

/// A programmable pipeline stage.
#[derive(Clone, Copy, Debug, PartialEq, Eq, Hash, Structural)]
pub enum ShaderStage {
    Vertex,
    Fragment,
    Geometry,
    TessControl,
    TessEvaluation,
    Compute,
}

impl ShaderStage {
    /// The stage's name, as shown in diagnostics.
    pub fn name(self) -> (s: &'static str)
        ensures
            s@ == (match self {
                ShaderStage::Vertex => "Vertex"@,
                ShaderStage::Fragment => "Fragment"@,
                ShaderStage::Geometry => "Geometry"@,
                ShaderStage::TessControl => "TessControl"@,
                ShaderStage::TessEvaluation => "TessEvaluation"@,
                ShaderStage::Compute => "Compute"@,
            }),
    {
        match self {
            ShaderStage::Vertex => "Vertex",
            ShaderStage::Fragment => "Fragment",
            ShaderStage::Geometry => "Geometry",
            ShaderStage::TessControl => "TessControl",
            ShaderStage::TessEvaluation => "TessEvaluation",
            ShaderStage::Compute => "Compute",
        }
    }

    /// The Vulkan shader-stage flag bit of the stage.
    pub open spec fn stage_bit(self) -> u32 {
        match self {
            ShaderStage::Vertex => 0x1,
            ShaderStage::TessControl => 0x2,
            ShaderStage::TessEvaluation => 0x4,
            ShaderStage::Geometry => 0x8,
            ShaderStage::Fragment => 0x10,
            ShaderStage::Compute => 0x20,
        }
    }

    /// The raw Vulkan `VkShaderStageFlagBits` value of the stage.
    pub fn vulkan_stage_bits(self) -> (bits: u32)
        ensures
            bits == self.stage_bit(),
    {
        match self {
            ShaderStage::Vertex => 0x1,
            ShaderStage::Fragment => 0x10,
            ShaderStage::Compute => 0x20,
            ShaderStage::Geometry => 0x8,
            ShaderStage::TessControl => 0x2,
            ShaderStage::TessEvaluation => 0x4,
        }
    }
}

/// Collects the stages of a shader program; setting a stage again replaces it.
pub struct ShaderProgramBuilder<'entry, 'defines> {
    name: String,
    stages: Vec<(ShaderStage, ShaderCode<'entry>, Vec<&'defines str>)>,
}

/// The code and the preprocessor defines of one stage, as mathematical values.
pub type StageSpec<'defines> = ((Seq<char>, ShaderSource), Seq<&'defines str>);

impl<'entry, 'defines> ShaderProgramBuilder<'entry, 'defines> {
    /// The program's name.
    pub closed spec fn program_name(&self) -> Seq<char> {
        self.name@
    }

    spec fn has_stage_at(&self, i: int, s: ShaderStage) -> bool {
        0 <= i < self.stages@.len() && self.stages@[i].0 == s
    }

    /// The code and preprocessor defines of each stage set so far.
    pub closed spec fn stage_map(&self) -> Map<ShaderStage, StageSpec<'defines>> {
        Map::new(
            |s: ShaderStage| exists|i: int| self.has_stage_at(i, s),
            |s: ShaderStage|
                {
                    let i = choose|i: int| self.has_stage_at(i, s);
                    (self.stages@[i].1@, self.stages@[i].2@)
                },
        )
    }

    /// No stage is listed twice.
    pub closed spec fn wf(&self) -> bool {
        forall|i: int, j: int|
            #![trigger self.stages@[i], self.stages@[j]]
            0 <= i < self.stages@.len() && 0 <= j < self.stages@.len() && i != j ==> self.stages@[i].0
                != self.stages@[j].0
    }

    proof fn lemma_stage_at(&self, k: int)
        requires
            self.wf(),
            0 <= k < self.stages@.len(),
        ensures
            self.stage_map().contains_key(self.stages@[k].0),
            self.stage_map()[self.stages@[k].0] == (self.stages@[k].1@, self.stages@[k].2@),
    {
        let s = self.stages@[k].0;
        assert(self.has_stage_at(k, s));
        let i = choose|i: int| self.has_stage_at(i, s);
        if i != k {
            assert(self.stages@[i].0 != self.stages@[k].0);
        }
    }

    /// A builder named `name` with no stages.
    pub fn new(name: String) -> (b: Self)
        ensures
            b.wf(),
            b.program_name() == name@,
            b.stage_map() == Map::<ShaderStage, StageSpec<'defines>>::empty(),
    {
        let b = ShaderProgramBuilder { name, stages: Vec::new() };
        assert(b.stage_map() =~= Map::<ShaderStage, StageSpec<'defines>>::empty());
        b
    }

    /// A builder named `name` with the given vertex and fragment stages and no defines.
    pub fn vertex_and_fragment(name: &str, vertex: &ShaderCode<'entry>, fragment: &ShaderCode<'entry>) -> (b:
        Self)
        ensures
            b.wf(),
            b.program_name() == name@,
            b.stage_map() == Map::<ShaderStage, StageSpec<'defines>>::empty().insert(
                ShaderStage::Vertex,
                (vertex@, Seq::<&'defines str>::empty()),
            ).insert(ShaderStage::Fragment, (fragment@, Seq::<&'defines str>::empty())),
    {
        let no_defines: [&'defines str; 0] = [];
        let b = Self::new(name.to_owned()).with_stage(ShaderStage::Vertex, vertex.clone(), &no_defines);
        let b = b.with_stage(ShaderStage::Fragment, fragment.clone(), &no_defines);
        assert(no_defines@ =~= Seq::<&'defines str>::empty());
        b
    }

    /// Sets `stage` to `code` compiled with the given preprocessor defines.
    pub fn with_stage(self, stage: ShaderStage, code: ShaderCode<'entry>, defines: &[&'defines str]) -> (b:
        Self)
        requires
            self.wf(),
        ensures
            b.wf(),
            b.program_name() == self.program_name(),
            b.stage_map() == self.stage_map().insert(stage, (code@, defines@)),
    {
        let ghost code_view = code@;
        let mut this = self;
        let entry = (stage, code, vstd::slice::slice_to_vec(defines));
        let ghost before = this;
        let mut i: usize = 0;
        while i < this.stages.len()
            invariant
                i <= this.stages@.len(),
                this == before,
                before.wf(),
                forall|j: int| 0 <= j < i ==> this.stages@[j].0 != stage,
            ensures
                i <= this.stages@.len(),
                this == before,
                i < this.stages@.len() ==> this.stages@[i as int].0 == stage,
                forall|j: int| 0 <= j < i ==> this.stages@[j].0 != stage,
            decreases this.stages@.len() - i,
        {
            if this.stages[i].0 == stage {
                break;
            }
            i = i + 1;
        }
        let ghost n = before.stages@.len() as int;
        if i < this.stages.len() {
            this.stages.set(i, entry);
        } else {
            this.stages.push(entry);
        }
        proof {
            let after = this.stages@;
            let at = i as int;
            assert(after[at] == entry);
            assert forall|a: int, b: int|
                #![trigger after[a], after[b]]
                0 <= a < after.len() && 0 <= b < after.len() && a != b implies after[a].0 != after[b].0 by {
                if a != at && b != at {
                    assert(before.stages@[a].0 != before.stages@[b].0);
                } else if a == at {
                    assert(after[b] == before.stages@[b]);
                } else {
                    assert(after[a] == before.stages@[a]);
                }
            }
            assert(this.wf());
            let expected = before.stage_map().insert(stage, (code_view, defines@));
            assert forall|s: ShaderStage| #[trigger] expected.contains_key(s) implies this.stage_map().contains_key(s)
                && this.stage_map()[s] == expected[s] by {
                if s == stage {
                    this.lemma_stage_at(at);
                } else {
                    let k = choose|k: int| before.has_stage_at(k, s);
                    before.lemma_stage_at(k);
                    assert(after[k] == before.stages@[k]);
                    this.lemma_stage_at(k);
                }
            }
            assert forall|s: ShaderStage| #[trigger] this.stage_map().contains_key(s) implies expected.contains_key(s) by {
                let k = choose|k: int| this.has_stage_at(k, s);
                if k != at {
                    assert(after[k] == before.stages@[k]);
                    assert(before.has_stage_at(k, s));
                }
            }
            assert(this.stage_map() =~= expected);
        }
        this
    }

    /// The program's name.
    pub fn name(&self) -> (n: &String)
        ensures
            n@ == self.program_name(),
    {
        &self.name
    }

    /// The stages set so far, each with its code and defines.
    pub fn stages(&self) -> (s: &Vec<(ShaderStage, ShaderCode<'entry>, Vec<&'defines str>)>)
        requires
            self.wf(),
        ensures
            s@.len() == self.stage_map().len(),
            forall|i: int|
                0 <= i < s@.len() ==> #[trigger] self.stage_map().contains_key(s@[i].0) && self.stage_map()[s@[i].0]
                    == (s@[i].1@, s@[i].2@),
            forall|i: int, j: int| 0 <= i < j < s@.len() ==> s@[i].0 != s@[j].0,
    {
        proof {
            let st = self.stages@;
            assert forall|i: int| 0 <= i < st.len() implies #[trigger] self.stage_map().contains_key(st[i].0)
                && self.stage_map()[st[i].0] == (st[i].1@, st[i].2@) by {
                self.lemma_stage_at(i);
            }
            let keys = st.map_values(|e: (ShaderStage, ShaderCode<'entry>, Vec<&'defines str>)| e.0);
            assert(keys.no_duplicates()) by {
                assert forall|a: int, b: int| 0 <= a < keys.len() && 0 <= b < keys.len() && a != b implies keys[a]
                    != keys[b] by {
                    assert(st[a].0 != st[b].0);
                }
            }
            keys.unique_seq_to_set();
            assert(keys.to_set() =~= self.stage_map().dom()) by {
                assert forall|s: ShaderStage| self.stage_map().dom().contains(s) implies keys.to_set().contains(s) by {
                    let k = choose|k: int| self.has_stage_at(k, s);
                    assert(keys[k] == s);
                }
                assert forall|s: ShaderStage| keys.to_set().contains(s) implies self.stage_map().dom().contains(s) by {
                    let k = choose|k: int| 0 <= k < keys.len() && keys[k] == s;
                    assert(self.has_stage_at(k, s));
                }
            }
            assert forall|i: int, j: int| 0 <= i < j < st.len() implies st[i].0 != st[j].0 by {
                assert(st[i].0 != st[j].0);
            }
        }
        &self.stages
    }
}

/// Setting a stage twice keeps only the later code and defines.
pub proof fn law_later_stage_replaces<'entry, 'defines>(
    builder: ShaderProgramBuilder<'entry, 'defines>,
    stage: ShaderStage,
    first: StageSpec<'defines>,
    second: StageSpec<'defines>,
)
    ensures
        builder.stage_map().insert(stage, first).insert(stage, second) == builder.stage_map().insert(stage, second),
{
    assert(builder.stage_map().insert(stage, first).insert(stage, second) =~= builder.stage_map().insert(stage, second));
}

} // verus!
