//! Compiled shaders and linked programs, as the graphics context reports them.
//!
//! The context itself is not reachable from here. Whoever drives it performs a
//! compile or a link and hands over a report of what the context answered; the
//! constructors in this module decide from that report whether an object exists.
use vstd::prelude::*;

verus! {

/// The pipeline stage a shader is compiled for.
#[derive(Clone, Copy, Debug, PartialEq, Eq, Structural)]
pub enum ShaderKind {
    Vertex,
    Fragment,
}

/// What the context answered to one compile: the handle of the object it made,
/// the diagnostic text, and the compile status.
#[derive(Debug)]
pub struct CompileReport {
    pub handle: u32,
    pub info_log: String,
    pub compiled: bool,
}

/// What the context answered to one link: the handle of the program object,
/// the diagnostic text read after linking, and the link status.
#[derive(Debug)]
pub struct LinkReport {
    pub handle: u32,
    pub info_log: String,
    pub linked: bool,
}

/// Why a shader or a program could not be created. Each variant carries the
/// context's diagnostic text as it was reported.
#[derive(Debug)]
pub enum ShaderProgramCreationError {
    /// The compile status was false.
    Compilation(String),
    /// The link status was false; validation was not attempted.
    Linking(String),
    /// Linking succeeded and the validate status was false.
    Validation(String),
}

impl ShaderProgramCreationError {
    /// The diagnostic text the context gave for the failed attempt.
    pub open spec fn log(self) -> String {
        match self {
            ShaderProgramCreationError::Compilation(log) => log,
            ShaderProgramCreationError::Linking(log) => log,
            ShaderProgramCreationError::Validation(log) => log,
        }
    }

    /// The diagnostic text the context gave for the failed attempt.
    pub fn info_log(&self) -> (log: &String)
        ensures
            *log == self.log(),
    {
        match self {
            ShaderProgramCreationError::Compilation(log) => log,
            ShaderProgramCreationError::Linking(log) => log,
            ShaderProgramCreationError::Validation(log) => log,
        }
    }
}

/// A successfully compiled shader: its stage, the context's handle for it and
/// the text it was compiled from.
#[derive(Debug)]
pub struct Shader {
    pub kind: ShaderKind,
    pub id: u32,
    pub source: String,
}

impl Shader {
    /// The shader that `report` describes, if there is one.
    pub open spec fn from_report(kind: ShaderKind, source: String, report: CompileReport) -> Result<
        Shader,
        String,
    > {
        if report.compiled {
            Ok(Shader { kind, id: report.handle, source })
        } else {
            Err(report.info_log)
        }
    }

    /// Accepts a compile of `source` for stage `kind`. A true compile status
    /// gives the shader under the reported handle; a false one gives back the
    /// diagnostic text unchanged.
    pub fn new(kind: ShaderKind, source: String, report: CompileReport) -> (shader: Result<
        Shader,
        String,
    >)
        ensures
            shader == Shader::from_report(kind, source, report),
    {
        if report.compiled {
            Ok(Shader { kind, id: report.handle, source })
        } else {
            Err(report.info_log)
        }
    }

    /// The context's handle for this shader.
    pub fn id(&self) -> (handle: u32)
        ensures
            handle == self.id,
    {
        self.id
    }
}

/// A program that linked and validated, by the context's handle for it.
#[derive(Debug)]
pub struct ShaderProgram {
    pub id: u32,
}

impl ShaderProgram {
    /// The program that a link report and a validate status describe, if there
    /// is one. The validate status counts only where the link succeeded.
    pub open spec fn from_report(report: LinkReport, valid: bool) -> Result<
        ShaderProgram,
        ShaderProgramCreationError,
    > {
        if !report.linked {
            Err(ShaderProgramCreationError::Linking(report.info_log))
        } else if !valid {
            Err(ShaderProgramCreationError::Validation(report.info_log))
        } else {
            Ok(ShaderProgram { id: report.handle })
        }
    }

    /// Accepts a link and, where the link succeeded, its validation. A failed
    /// link is a `Linking` error whatever `valid` says; a failed validation
    /// after a good link is a `Validation` error. Both carry the text read
    /// after linking.
    pub fn new(report: LinkReport, valid: bool) -> (program: Result<
        ShaderProgram,
        ShaderProgramCreationError,
    >)
        ensures
            program == ShaderProgram::from_report(report, valid),
    {
        if !report.linked {
            Err(ShaderProgramCreationError::Linking(report.info_log))
        } else if !valid {
            Err(ShaderProgramCreationError::Validation(report.info_log))
        } else {
            Ok(ShaderProgram { id: report.handle })
        }
    }

    /// The context's handle for this program.
    pub fn id(&self) -> (handle: u32)
        ensures
            handle == self.id,
    {
        self.id
    }
}

} // verus!
