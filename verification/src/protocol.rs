//! What passes between the resource manager and whoever drives the graphics
//! context: the steps of a program build, each naming the request the context
//! has to serve next, and the commands that need no answer.
use crate::shader::{LinkReport, ShaderKind, ShaderProgramCreationError};
use crate::uniform::{Uniform, UniformSlot};
use vstd::prelude::*;

verus! {

/// Something the context is to be told, in the order it was queued.
#[derive(Debug)]
pub enum ContextCommand {
    /// Show this diagnostic text on the informational channel.
    Log(String),
    /// Delete the shader object with this handle.
    DeleteShader(u32),
    /// Delete the program object with this handle.
    DeleteProgram(u32),
    /// Upload `value` to `location` of the program object with handle
    /// `program`, by the context's call for the value's shape.
    SetUniform { program: u32, location: u32, value: Uniform },
}

/// One side of a program: a shader that is already stored, or text to compile.
#[derive(Debug)]
pub enum ShaderInput {
    Id(usize),
    Source(String),
}

/// The slots of a stored program and of the two shaders it references.
#[derive(Clone, Copy, Debug, PartialEq, Eq, Structural)]
pub struct ShaderProgramIdentifier {
    pub shader_program_id: usize,
    pub vertex_shader_id: usize,
    pub fragment_shader_id: usize,
}

/// A build that waits for a compile.
#[derive(Debug)]
pub enum PendingCompile {
    /// The vertex source is to be compiled; the fragment side is still open.
    Vertex { source: String, fragment: ShaderInput },
    /// The vertex shader is stored; the fragment source is to be compiled.
    Fragment { vertex_shader_id: usize, source: String },
}

/// A build that waits for the link of two stored shaders, named by slot and by
/// the handles the context knows them under.
#[derive(Debug)]
pub struct PendingLink {
    pub vertex_shader_id: usize,
    pub fragment_shader_id: usize,
    pub vertex: u32,
    pub fragment: u32,
}

/// A build whose link was reported and that waits for the validate status of
/// the program in `report`.
#[derive(Debug)]
pub struct PendingValidate {
    pub vertex_shader_id: usize,
    pub fragment_shader_id: usize,
    pub report: LinkReport,
}

/// Where a program build stands: the request the context has to serve next, or
/// the outcome.
#[derive(Debug)]
pub enum BuildStep {
    Compile(PendingCompile),
    Link(PendingLink),
    Validate(PendingValidate),
    Done(Result<ShaderProgramIdentifier, ShaderProgramCreationError>),
}

impl PendingCompile {
    /// The stage the source is to be compiled for.
    pub open spec fn spec_kind(self) -> ShaderKind {
        match self {
            PendingCompile::Vertex { .. } => ShaderKind::Vertex,
            PendingCompile::Fragment { .. } => ShaderKind::Fragment,
        }
    }

    /// The text to compile.
    pub open spec fn spec_source(self) -> String {
        match self {
            PendingCompile::Vertex { source, .. } => source,
            PendingCompile::Fragment { source, .. } => source,
        }
    }

    /// The stage the source is to be compiled for.
    pub fn kind(&self) -> (kind: ShaderKind)
        ensures
            kind == self.spec_kind(),
    {
        match self {
            PendingCompile::Vertex { .. } => ShaderKind::Vertex,
            PendingCompile::Fragment { .. } => ShaderKind::Fragment,
        }
    }

    /// The text to compile.
    pub fn source(&self) -> (source: &String)
        ensures
            *source == self.spec_source(),
    {
        match self {
            PendingCompile::Vertex { source, .. } => source,
            PendingCompile::Fragment { source, .. } => source,
        }
    }

    /// The two sides of the build once the compiled shader sits in slot `id`.
    pub open spec fn resolved(self, id: usize) -> (ShaderInput, ShaderInput) {
        match self {
            PendingCompile::Vertex { fragment, .. } => (ShaderInput::Id(id), fragment),
            PendingCompile::Fragment { vertex_shader_id, .. } => (
                ShaderInput::Id(vertex_shader_id),
                ShaderInput::Id(id),
            ),
        }
    }
}

impl BuildStep {
    /// The slot of the shader that a compile, answered by this step, stored for
    /// the side `kind`. Meaningful only where the step follows a good compile.
    pub open spec fn stored_shader(self, kind: ShaderKind) -> usize {
        match (self, kind) {
            (
                BuildStep::Compile(PendingCompile::Fragment { vertex_shader_id, .. }),
                ShaderKind::Vertex,
            ) => vertex_shader_id,
            (BuildStep::Link(link), ShaderKind::Vertex) => link.vertex_shader_id,
            (BuildStep::Link(link), ShaderKind::Fragment) => link.fragment_shader_id,
            _ => 0,
        }
    }
}

/// The command that shows `log`, or nothing where the text is empty.
pub open spec fn log_commands(log: String) -> Seq<ContextCommand> {
    if log@.len() > 0 {
        seq![ContextCommand::Log(log)]
    } else {
        Seq::empty()
    }
}

/// The commands that upload `slots` to the program object with handle
/// `program`, slot by slot.
pub open spec fn upload_commands(program: u32, slots: Seq<UniformSlot>) -> Seq<ContextCommand> {
    Seq::new(
        slots.len(),
        |i: int|
            ContextCommand::SetUniform {
                program,
                location: slots[i].location,
                value: slots[i].value,
            },
    )
}

} // verus!
