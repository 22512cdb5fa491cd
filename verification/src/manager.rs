//! The resource manager: creation, sharing and teardown of shaders and programs.
//!
//! The manager never talks to the graphics context. A program build is a short
//! dialogue instead: each step names the one thing the context has to do next
//! (compile a source, link two shaders, validate a program), and the answer is
//! handed to the matching method, which decides what follows. Whatever the
//! context must be told without an answer (delete an object, show a diagnostic,
//! upload a uniform) is queued as a [`ContextCommand`] and collected with
//! [`ShaderProgramManager::take_commands`].
//!
//! Every method says what it does as a step of [`ManagerModel`], and every
//! method that changes a store keeps the accounts of [`ManagerModel::wf`].
use crate::accounts::{
    attach, lemma_insert_program_keeps_accounts, lemma_remove_program_keeps_accounts,
    lemma_store_shader_keeps_accounts, release, release_commands, ManagerModel,
};
use crate::protocol::{
    log_commands, upload_commands, BuildStep, ContextCommand, PendingCompile, PendingLink,
    PendingValidate, ShaderInput, ShaderProgramIdentifier,
};
use crate::shader::{
    CompileReport, LinkReport, Shader, ShaderKind, ShaderProgram, ShaderProgramCreationError,
};
use crate::store::{
    program_slots, programs_contains, programs_index, programs_insert, programs_len, programs_new,
    programs_remove, shader_slots, shaders_contains, shaders_index, shaders_index_mut,
    shaders_insert, shaders_len, shaders_new, shaders_remove, ShaderListElement,
    ShaderProgramListElement,
};
use crate::uniform::{Material, UniformSlot};
use slab::Slab;
use vstd::prelude::*;

verus! {

/// The manager of the shader store and the program store.
pub struct ShaderProgramManager {
    shaders: Slab<ShaderListElement>,
    shader_programs: Slab<ShaderProgramListElement>,
    commands: Vec<ContextCommand>,
}

impl View for ShaderProgramManager {
    type V = ManagerModel;

    closed spec fn view(&self) -> ManagerModel {
        ManagerModel {
            shaders: shader_slots(self.shaders),
            programs: program_slots(self.shader_programs),
            commands: self.commands@,
        }
    }
}

impl ShaderProgramManager {
    /// The invariant every manager keeps, see [`ManagerModel::wf`].
    pub open spec fn wf(&self) -> bool {
        self@.wf()
    }

    /// A manager with two empty stores and nothing queued.
    pub fn new() -> (manager: ShaderProgramManager)
        ensures
            manager.wf(),
            manager@ == ManagerModel::empty(),
    {
        let manager = ShaderProgramManager {
            shaders: shaders_new(),
            shader_programs: programs_new(),
            commands: Vec::new(),
        };
        proof {
            assert(manager@.shaders =~= ManagerModel::empty().shaders);
            assert(manager@.programs =~= ManagerModel::empty().programs);
            assert(manager@.commands =~= ManagerModel::empty().commands);
        }
        manager
    }

    /// The number of stored shaders.
    pub fn shader_count(&self) -> (count: usize)
        ensures
            count == self@.shaders.dom().len(),
    {
        shaders_len(&self.shaders)
    }

    /// The number of stored programs.
    pub fn program_count(&self) -> (count: usize)
        ensures
            count == self@.programs.dom().len(),
    {
        programs_len(&self.shader_programs)
    }

    /// Whether slot `id` holds a shader.
    pub fn contains_shader(&self, id: usize) -> (found: bool)
        ensures
            found == self@.shaders.contains_key(id),
    {
        shaders_contains(&self.shaders, id)
    }

    /// Whether slot `id` holds a program.
    pub fn contains_program(&self, id: usize) -> (found: bool)
        ensures
            found == self@.programs.contains_key(id),
    {
        programs_contains(&self.shader_programs, id)
    }

    /// The shader in slot `id`.
    pub fn shader(&self, id: usize) -> (shader: &Shader)
        requires
            self@.shaders.contains_key(id),
        ensures
            *shader == self@.shaders[id].shader,
    {
        &shaders_index(&self.shaders, id).shader
    }

    /// The usage counter of the shader in slot `id`.
    pub fn usage(&self, id: usize) -> (usage: usize)
        requires
            self@.shaders.contains_key(id),
        ensures
            usage == self@.shaders[id].usage,
    {
        shaders_index(&self.shaders, id).usage
    }

    /// The program in slot `id`, for uniform upload.
    pub fn program(&self, id: usize) -> (program: &ShaderProgram)
        requires
            self@.programs.contains_key(id),
        ensures
            *program == self@.programs[id].shader_program,
    {
        &programs_index(&self.shader_programs, id).shader_program
    }

    /// The two shader slots that the program in slot `id` references.
    pub fn program_shaders(&self, id: usize) -> (ids: (usize, usize))
        requires
            self@.programs.contains_key(id),
        ensures
            ids.0 == self@.programs[id].vertex_shader_id,
            ids.1 == self@.programs[id].fragment_shader_id,
    {
        let element = programs_index(&self.shader_programs, id);
        (element.vertex_shader_id, element.fragment_shader_id)
    }

    /// Whether `input` can be one side of a program.
    pub fn accepts(&self, input: &ShaderInput) -> (ok: bool)
        ensures
            ok == self@.accepts(*input),
    {
        match input {
            ShaderInput::Id(id) => shaders_contains(&self.shaders, *id),
            ShaderInput::Source(_) => true,
        }
    }

    /// Whether the shader slots that `pending` names hold shaders.
    pub fn accepts_compile(&self, pending: &PendingCompile) -> (ok: bool)
        ensures
            ok == self@.accepts_compile(*pending),
    {
        match pending {
            PendingCompile::Vertex { fragment, .. } => self.accepts(fragment),
            PendingCompile::Fragment { vertex_shader_id, .. } => shaders_contains(
                &self.shaders,
                *vertex_shader_id,
            ),
        }
    }

    /// Whether both usage counters can take the attachments of one more
    /// program on `vertex` and `fragment`.
    pub fn can_attach(&self, vertex: usize, fragment: usize) -> (ok: bool)
        ensures
            ok == self@.can_attach(vertex, fragment),
    {
        if !shaders_contains(&self.shaders, vertex) || !shaders_contains(&self.shaders, fragment) {
            return false;
        }
        let vertex_usage: usize = shaders_index(&self.shaders, vertex).usage;
        let fragment_usage: usize = shaders_index(&self.shaders, fragment).usage;
        vertex_usage < usize::MAX && fragment_usage < usize::MAX && (vertex != fragment
            || vertex_usage < usize::MAX - 1)
    }

    /// Hands over the queued commands, oldest first, and leaves the queue empty.
    pub fn take_commands(&mut self) -> (commands: Vec<ContextCommand>)
        ensures
            commands@ == old(self)@.commands,
            final(self)@ == old(self)@.drained(),
    {
        let mut commands: Vec<ContextCommand> = Vec::new();
        std::mem::swap(&mut self.commands, &mut commands);
        commands
    }

    /// Queues one command.
    fn queue(&mut self, command: ContextCommand)
        ensures
            final(self)@ == old(self)@.queue(seq![command]),
    {
        self.commands.push(command);
        assert(self@.commands =~= old(self)@.commands + seq![command]);
    }

    /// Queues the command that shows `log`, unless the text is empty.
    fn queue_log(&mut self, log: &String)
        ensures
            final(self)@ == old(self)@.queue(log_commands(*log)),
    {
        if !log.as_str().is_empty() {
            self.queue(ContextCommand::Log(log.clone()));
        } else {
            assert(self@.commands =~= old(self)@.commands + log_commands(*log));
        }
    }

    /// Stores `shader` unused and returns the slot it went to.
    fn store_shader(&mut self, shader: Shader) -> (id: usize)
        requires
            old(self).wf(),
        ensures
            final(self).wf(),
            !old(self)@.shaders.contains_key(id),
            final(self)@ == old(self)@.store_shader(id, shader),
    {
        let id: usize = shaders_insert(&mut self.shaders, ShaderListElement { shader, usage: 0 });
        proof {
            lemma_store_shader_keeps_accounts(old(self)@, id, shader);
        }
        id
    }

    /// Accepts the compile of `source` for stage `kind`, see
    /// [`ShaderProgramManager::new_vertex_shader`].
    fn new_shader(
        &mut self,
        kind: ShaderKind,
        source: String,
        report: CompileReport,
    ) -> (id: Result<usize, ShaderProgramCreationError>)
        requires
            old(self).wf(),
        ensures
            final(self).wf(),
            match id {
                Ok(slot) => {
                    &&& report.compiled
                    &&& !old(self)@.shaders.contains_key(slot)
                    &&& final(self)@ == old(self)@.accept_compile(slot, kind, source, report)
                },
                Err(error) => {
                    &&& !report.compiled
                    &&& error == ShaderProgramCreationError::Compilation(report.info_log)
                    &&& final(self)@ == old(self)@.reject_compile(report)
                },
            },
    {
        let handle: u32 = report.handle;
        self.queue_log(&report.info_log);
        match Shader::new(kind, source, report) {
            Ok(shader) => Ok(self.store_shader(shader)),
            Err(log) => {
                self.queue(ContextCommand::DeleteShader(handle));
                assert(self@.commands =~= old(self)@.reject_compile(report).commands);
                Err(ShaderProgramCreationError::Compilation(log))
            },
        }
    }

    /// Accepts the compile of a vertex shader from `source`.
    ///
    /// A true compile status stores the shader, unused, and gives the slot it
    /// went to, which was vacant. A false one is the `Compilation` error with
    /// the report's text; both stores stay as they were, and the context's
    /// shader object is queued for deletion. Text that is not empty is queued
    /// for showing either way.
    pub fn new_vertex_shader(&mut self, source: String, report: CompileReport) -> (id: Result<
        usize,
        ShaderProgramCreationError,
    >)
        requires
            old(self).wf(),
        ensures
            final(self).wf(),
            match id {
                Ok(slot) => {
                    &&& report.compiled
                    &&& !old(self)@.shaders.contains_key(slot)
                    &&& final(self)@ == old(self)@.accept_compile(
                        slot,
                        ShaderKind::Vertex,
                        source,
                        report,
                    )
                },
                Err(error) => {
                    &&& !report.compiled
                    &&& error == ShaderProgramCreationError::Compilation(report.info_log)
                    &&& final(self)@ == old(self)@.reject_compile(report)
                },
            },
    {
        self.new_shader(ShaderKind::Vertex, source, report)
    }

    /// Accepts the compile of a fragment shader from `source`, to the same
    /// rules as [`ShaderProgramManager::new_vertex_shader`].
    pub fn new_fragment_shader(&mut self, source: String, report: CompileReport) -> (id: Result<
        usize,
        ShaderProgramCreationError,
    >)
        requires
            old(self).wf(),
        ensures
            final(self).wf(),
            match id {
                Ok(slot) => {
                    &&& report.compiled
                    &&& !old(self)@.shaders.contains_key(slot)
                    &&& final(self)@ == old(self)@.accept_compile(
                        slot,
                        ShaderKind::Fragment,
                        source,
                        report,
                    )
                },
                Err(error) => {
                    &&& !report.compiled
                    &&& error == ShaderProgramCreationError::Compilation(report.info_log)
                    &&& final(self)@ == old(self)@.reject_compile(report)
                },
            },
    {
        self.new_shader(ShaderKind::Fragment, source, report)
    }

    /// Starts the build of a program from two sides, each a stored shader or
    /// text. Nothing is changed yet: the step names what the context has to do
    /// first.
    pub fn new_program(&self, vertex: ShaderInput, fragment: ShaderInput) -> (step: BuildStep)
        requires
            self@.accepts(vertex),
            self@.accepts(fragment),
        ensures
            step == self@.first_step(vertex, fragment),
    {
        match vertex {
            ShaderInput::Source(source) => BuildStep::Compile(
                PendingCompile::Vertex { source, fragment },
            ),
            ShaderInput::Id(vertex_shader_id) => match fragment {
                ShaderInput::Source(source) => BuildStep::Compile(
                    PendingCompile::Fragment { vertex_shader_id, source },
                ),
                ShaderInput::Id(fragment_shader_id) => BuildStep::Link(
                    PendingLink {
                        vertex_shader_id,
                        fragment_shader_id,
                        vertex: shaders_index(&self.shaders, vertex_shader_id).shader.id,
                        fragment: shaders_index(&self.shaders, fragment_shader_id).shader.id,
                    },
                ),
            },
        }
    }

    /// Starts the build of a program from two stored shaders: the first step
    /// is their link.
    pub fn new_program_id_id(&self, vertex_shader_id: usize, fragment_shader_id: usize) -> (step:
        BuildStep)
        requires
            self@.shaders.contains_key(vertex_shader_id),
            self@.shaders.contains_key(fragment_shader_id),
        ensures
            step == self@.first_step(
                ShaderInput::Id(vertex_shader_id),
                ShaderInput::Id(fragment_shader_id),
            ),
    {
        self.new_program(ShaderInput::Id(vertex_shader_id), ShaderInput::Id(fragment_shader_id))
    }

    /// Starts the build of a program from vertex text and a stored fragment
    /// shader: the first step is the compile of the vertex text.
    pub fn new_program_source_id(
        &self,
        vertex_shader_source: String,
        fragment_shader_id: usize,
    ) -> (step: BuildStep)
        requires
            self@.shaders.contains_key(fragment_shader_id),
        ensures
            step == self@.first_step(
                ShaderInput::Source(vertex_shader_source),
                ShaderInput::Id(fragment_shader_id),
            ),
    {
        self.new_program(
            ShaderInput::Source(vertex_shader_source),
            ShaderInput::Id(fragment_shader_id),
        )
    }

    /// Starts the build of a program from a stored vertex shader and fragment
    /// text: the first step is the compile of the fragment text.
    pub fn new_program_id_source(
        &self,
        vertex_shader_id: usize,
        fragment_shader_source: String,
    ) -> (step: BuildStep)
        requires
            self@.shaders.contains_key(vertex_shader_id),
        ensures
            step == self@.first_step(
                ShaderInput::Id(vertex_shader_id),
                ShaderInput::Source(fragment_shader_source),
            ),
    {
        self.new_program(
            ShaderInput::Id(vertex_shader_id),
            ShaderInput::Source(fragment_shader_source),
        )
    }

    /// Starts the build of a program from two texts: the first step is the
    /// compile of the vertex text, the fragment text follows it.
    pub fn new_program_source_source(
        &self,
        vertex_shader_source: String,
        fragment_shader_source: String,
    ) -> (step: BuildStep)
        ensures
            step == self@.first_step(
                ShaderInput::Source(vertex_shader_source),
                ShaderInput::Source(fragment_shader_source),
            ),
    {
        self.new_program(
            ShaderInput::Source(vertex_shader_source),
            ShaderInput::Source(fragment_shader_source),
        )
    }

    /// Continues a build with the answer to its compile request.
    ///
    /// A failed compile ends the build with the `Compilation` error: both
    /// stores stay as they were and the context's object is queued for
    /// deletion. A good compile stores the shader unused, in a slot that was
    /// vacant, and the build goes on with what is still open: the other
    /// compile, or the link. Text that is not empty is queued for showing
    /// either way.
    pub fn shader_compiled(&mut self, pending: PendingCompile, report: CompileReport) -> (step:
        BuildStep)
        requires
            old(self).wf(),
            old(self)@.accepts_compile(pending),
        ensures
            final(self).wf(),
            !report.compiled ==> {
                &&& step == BuildStep::Done(
                    Err(ShaderProgramCreationError::Compilation(report.info_log)),
                )
                &&& final(self)@ == old(self)@.reject_compile(report)
            },
            report.compiled ==> ({
                let id = step.stored_shader(pending.spec_kind());
                let sides = pending.resolved(id);
                &&& !old(self)@.shaders.contains_key(id)
                &&& final(self)@ == old(self)@.accept_compile(
                    id,
                    pending.spec_kind(),
                    pending.spec_source(),
                    report,
                )
                &&& final(self)@.accepts(sides.0)
                &&& final(self)@.accepts(sides.1)
                &&& step == final(self)@.first_step(sides.0, sides.1)
            }),
    {
        match pending {
            PendingCompile::Vertex { source, fragment } => {
                match self.new_shader(ShaderKind::Vertex, source, report) {
                    Ok(id) => self.new_program(ShaderInput::Id(id), fragment),
                    Err(error) => BuildStep::Done(Err(error)),
                }
            },
            PendingCompile::Fragment { vertex_shader_id, source } => {
                match self.new_shader(ShaderKind::Fragment, source, report) {
                    Ok(id) => self.new_program(
                        ShaderInput::Id(vertex_shader_id),
                        ShaderInput::Id(id),
                    ),
                    Err(error) => BuildStep::Done(Err(error)),
                }
            },
        }
    }

    /// Continues a build with the answer to its link request.
    ///
    /// A failed link ends the build with the `Linking` error and has the
    /// context's program object deleted; validation is not asked for. After a
    /// good link the next step asks for the program's validation. Neither
    /// store changes. Text that is not empty is queued for showing either way.
    pub fn program_linked(&mut self, pending: PendingLink, report: LinkReport) -> (step: BuildStep)
        ensures
            final(self)@ == old(self)@.take_link(report),
            report.linked ==> step == BuildStep::Validate(
                PendingValidate {
                    vertex_shader_id: pending.vertex_shader_id,
                    fragment_shader_id: pending.fragment_shader_id,
                    report,
                },
            ),
            !report.linked ==> step == BuildStep::Done(
                Err(ShaderProgramCreationError::Linking(report.info_log)),
            ),
    {
        self.queue_log(&report.info_log);
        if report.linked {
            BuildStep::Validate(
                PendingValidate {
                    vertex_shader_id: pending.vertex_shader_id,
                    fragment_shader_id: pending.fragment_shader_id,
                    report,
                },
            )
        } else {
            self.queue(ContextCommand::DeleteProgram(report.handle));
            assert(self@.commands =~= old(self)@.take_link(report).commands);
            BuildStep::Done(Err(ShaderProgramCreationError::Linking(report.info_log)))
        }
    }

    /// Adds one attachment to the usage counter of the shader in slot `id`.
    fn attach_shader(&mut self, id: usize)
        requires
            old(self)@.shaders.contains_key(id),
            old(self)@.shaders[id].usage < usize::MAX,
        ensures
            final(self)@.shaders == attach(old(self)@.shaders, id),
            final(self)@.programs == old(self)@.programs,
            final(self)@.commands == old(self)@.commands,
    {
        let element = shaders_index_mut(&mut self.shaders, id);
        element.usage = element.usage + 1;
    }

    /// Gives up one attachment of the shader in slot `id`. The last one takes
    /// the shader out of the store and queues the deletion of its object.
    fn release_shader(&mut self, id: usize)
        requires
            old(self)@.shaders.contains_key(id),
            old(self)@.shaders[id].usage >= 1,
        ensures
            final(self)@.shaders == release(old(self)@.shaders, id),
            final(self)@.programs == old(self)@.programs,
            final(self)@.commands == old(self)@.commands + release_commands(
                old(self)@.shaders,
                id,
            ),
    {
        if shaders_index(&self.shaders, id).usage == 1 {
            let element = shaders_remove(&mut self.shaders, id);
            self.commands.push(ContextCommand::DeleteShader(element.shader.id));
        } else {
            let element = shaders_index_mut(&mut self.shaders, id);
            element.usage = element.usage - 1;
        }
        assert(self@.commands =~= old(self)@.commands + release_commands(old(self)@.shaders, id));
    }

    /// Ends a build with the validate status of its linked program.
    ///
    /// A program that linked and validated is stored in a slot that was
    /// vacant, and each of its two shaders gains one attachment. Otherwise
    /// both stores stay as they were, the context's program object is queued
    /// for deletion, and the error is `Validation`, or `Linking` where the
    /// pending report says that the link had failed.
    pub fn program_validated(&mut self, pending: PendingValidate, valid: bool) -> (step: BuildStep)
        requires
            old(self).wf(),
            old(self)@.can_attach(pending.vertex_shader_id, pending.fragment_shader_id),
        ensures
            final(self).wf(),
            match ShaderProgram::from_report(pending.report, valid) {
                Ok(program) => {
                    &&& step matches BuildStep::Done(Ok(identifier))
                    &&& identifier.vertex_shader_id == pending.vertex_shader_id
                    &&& identifier.fragment_shader_id == pending.fragment_shader_id
                    &&& !old(self)@.programs.contains_key(identifier.shader_program_id)
                    &&& final(self)@ == old(self)@.insert_program(
                        identifier.shader_program_id,
                        pending.vertex_shader_id,
                        pending.fragment_shader_id,
                        program,
                    )
                },
                Err(error) => {
                    &&& step == BuildStep::Done(Err(error))
                    &&& final(self)@ == old(self)@.reject_program(pending)
                },
            },
    {
        let vertex_shader_id: usize = pending.vertex_shader_id;
        let fragment_shader_id: usize = pending.fragment_shader_id;
        let handle: u32 = pending.report.handle;
        match ShaderProgram::new(pending.report, valid) {
            Err(error) => {
                self.queue(ContextCommand::DeleteProgram(handle));
                BuildStep::Done(Err(error))
            },
            Ok(shader_program) => {
                let shader_program_id: usize = programs_insert(
                    &mut self.shader_programs,
                    ShaderProgramListElement {
                        vertex_shader_id,
                        fragment_shader_id,
                        shader_program,
                    },
                );
                self.attach_shader(vertex_shader_id);
                self.attach_shader(fragment_shader_id);
                proof {
                    lemma_insert_program_keeps_accounts(
                        old(self)@,
                        shader_program_id,
                        vertex_shader_id,
                        fragment_shader_id,
                        shader_program,
                    );
                }
                BuildStep::Done(
                    Ok(
                        ShaderProgramIdentifier {
                            shader_program_id,
                            vertex_shader_id,
                            fragment_shader_id,
                        },
                    ),
                )
            },
        }
    }

    /// Removes the program in slot `id`. One attachment of its vertex shader
    /// and one of its fragment shader are given up; a shader whose counter
    /// thereby reaches zero leaves the store in the same call. The objects of
    /// whatever left are queued for deletion: shaders first, the program last.
    pub fn remove_program(&mut self, shader_program_id: usize)
        requires
            old(self).wf(),
            old(self)@.programs.contains_key(shader_program_id),
        ensures
            final(self).wf(),
            final(self)@ == old(self)@.remove_program(shader_program_id),
    {
        let ids = self.program_shaders(shader_program_id);
        let vertex_shader_id: usize = ids.0;
        let fragment_shader_id: usize = ids.1;
        proof {
            lemma_remove_program_keeps_accounts(old(self)@, shader_program_id);
        }
        self.release_shader(vertex_shader_id);
        self.release_shader(fragment_shader_id);
        let element = programs_remove(&mut self.shader_programs, shader_program_id);
        self.commands.push(ContextCommand::DeleteProgram(element.shader_program.id));
        assert(self@.commands =~= old(self)@.remove_program(shader_program_id).commands);
    }

    /// Queues the upload of `slots` to the program in slot
    /// `shader_program_id`: one command for each slot, in order, each naming
    /// the program's handle, the slot's location and the slot's value.
    pub fn queue_uniforms(&mut self, shader_program_id: usize, slots: Vec<UniformSlot>)
        requires
            old(self)@.programs.contains_key(shader_program_id),
        ensures
            final(self)@ == old(self)@.queue(
                upload_commands(old(self)@.programs[shader_program_id].shader_program.id, slots@),
            ),
    {
        let program: u32 = self.program(shader_program_id).id;
        for slot in iter: slots
            invariant
                iter.seq() == slots@,
                self@ == old(self)@.queue(
                    upload_commands(program, slots@.take(iter.index() as int)),
                ),
        {
            self.queue(
                ContextCommand::SetUniform { program, location: slot.location, value: slot.value },
            );
            assert(self@.commands =~= old(self)@.commands + upload_commands(
                program,
                slots@.take(iter.index() + 1),
            ));
        }
        assert(slots@.take(slots@.len() as int) =~= slots@);
    }

    /// Queues the upload of the uniforms that `material` gives for the
    /// program in slot `shader_program_id`, see
    /// [`ShaderProgramManager::queue_uniforms`]. Which uniforms those are is
    /// the material's affair; the stores do not change, what was queued
    /// before stays in front, and all that is added is uploads to this
    /// program.
    pub fn upload<M: Material>(&mut self, shader_program_id: usize, material: &M)
        requires
            old(self)@.programs.contains_key(shader_program_id),
        ensures
            exists|slots: Seq<UniformSlot>|
                final(self)@ == old(self)@.queue(
                    upload_commands(
                        old(self)@.programs[shader_program_id].shader_program.id,
                        slots,
                    ),
                ),
    {
        let slots = material.uniforms(self.program(shader_program_id));
        let ghost given = slots@;
        self.queue_uniforms(shader_program_id, slots);
        assert(self@ == old(self)@.queue(
            upload_commands(old(self)@.programs[shader_program_id].shader_program.id, given),
        ));
    }
}

} // verus!
