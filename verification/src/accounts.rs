//! The accounts of the resource manager: which shader is attached to which
//! program, and what creation and removal do to the usage counters.
//!
//! Everything here is stated over [`ManagerModel`], the occupied slots of the
//! two stores as maps. The laws at the end are the reason the manager exists:
//! a counter is the number of attachments, whatever was created and removed
//! before, and a shader leaves exactly with its last attachment.
use crate::protocol::{
    log_commands, BuildStep, ContextCommand, PendingCompile, PendingLink, PendingValidate,
    ShaderInput,
};
use crate::shader::{CompileReport, LinkReport, Shader, ShaderKind, ShaderProgram};
use crate::store::{ShaderListElement, ShaderProgramListElement};
use vstd::prelude::*;

verus! {

/// The programs in `programs` whose vertex side is the shader in slot `shader`.
pub open spec fn vertex_users(programs: Map<usize, ShaderProgramListElement>, shader: usize) -> Set<
    usize,
> {
    Set::new(|p: usize| programs.contains_key(p) && programs[p].vertex_shader_id == shader)
}

/// The programs in `programs` whose fragment side is the shader in slot `shader`.
pub open spec fn fragment_users(
    programs: Map<usize, ShaderProgramListElement>,
    shader: usize,
) -> Set<usize> {
    Set::new(|p: usize| programs.contains_key(p) && programs[p].fragment_shader_id == shader)
}

/// The programs in `programs` that reference the shader in slot `shader` on
/// either side.
pub open spec fn users(programs: Map<usize, ShaderProgramListElement>, shader: usize) -> Set<
    usize,
> {
    vertex_users(programs, shader).union(fragment_users(programs, shader))
}

/// How often the shader in slot `shader` is attached to a program in
/// `programs`. A program that has it on both sides attaches it twice.
pub open spec fn attachments(programs: Map<usize, ShaderProgramListElement>, shader: usize) -> nat {
    vertex_users(programs, shader).len() + fragment_users(programs, shader).len()
}

/// `shaders` after one more attachment of the shader in slot `id`.
pub open spec fn attach(shaders: Map<usize, ShaderListElement>, id: usize) -> Map<
    usize,
    ShaderListElement,
> {
    shaders.insert(
        id,
        ShaderListElement { shader: shaders[id].shader, usage: (shaders[id].usage + 1) as usize },
    )
}

/// `shaders` after one attachment of the shader in slot `id` is given up: the
/// last one takes the shader out of the store.
pub open spec fn release(shaders: Map<usize, ShaderListElement>, id: usize) -> Map<
    usize,
    ShaderListElement,
> {
    if shaders[id].usage == 1 {
        shaders.remove(id)
    } else {
        shaders.insert(
            id,
            ShaderListElement {
                shader: shaders[id].shader,
                usage: (shaders[id].usage - 1) as usize,
            },
        )
    }
}

/// The command that deletes the shader in slot `id`, where giving up one
/// attachment takes it out of the store.
pub open spec fn release_commands(shaders: Map<usize, ShaderListElement>, id: usize) -> Seq<
    ContextCommand,
> {
    if shaders[id].usage == 1 {
        seq![ContextCommand::DeleteShader(shaders[id].shader.id)]
    } else {
        Seq::empty()
    }
}

/// What a manager holds: the occupied shader and program slots, and the
/// commands queued for the context.
pub struct ManagerModel {
    pub shaders: Map<usize, ShaderListElement>,
    pub programs: Map<usize, ShaderProgramListElement>,
    pub commands: Seq<ContextCommand>,
}

impl ManagerModel {
    /// The invariant of the two stores: every stored program references stored
    /// shaders, and every shader's usage counter equals the number of times it
    /// is attached to a stored program.
    pub open spec fn wf(self) -> bool {
        &&& self.shaders.dom().finite()
        &&& self.programs.dom().finite()
        &&& forall|p: usize| #[trigger]
            self.programs.contains_key(p) ==> self.shaders.contains_key(
                self.programs[p].vertex_shader_id,
            ) && self.shaders.contains_key(self.programs[p].fragment_shader_id)
        &&& forall|s: usize| #[trigger]
            self.shaders.contains_key(s) ==> self.shaders[s].usage == attachments(self.programs, s)
    }

    /// Whether `input` can be one side of a program: text always can, a slot
    /// only while it holds a shader.
    pub open spec fn accepts(self, input: ShaderInput) -> bool {
        match input {
            ShaderInput::Id(id) => self.shaders.contains_key(id),
            ShaderInput::Source(_) => true,
        }
    }

    /// Whether the shader slots that `pending` names hold shaders.
    pub open spec fn accepts_compile(self, pending: PendingCompile) -> bool {
        match pending {
            PendingCompile::Vertex { fragment, .. } => self.accepts(fragment),
            PendingCompile::Fragment { vertex_shader_id, .. } => self.shaders.contains_key(
                vertex_shader_id,
            ),
        }
    }

    /// Whether both usage counters can take the attachments of one more
    /// program on `vertex` and `fragment`.
    pub open spec fn can_attach(self, vertex: usize, fragment: usize) -> bool {
        &&& self.shaders.contains_key(vertex)
        &&& self.shaders.contains_key(fragment)
        &&& self.shaders[vertex].usage < usize::MAX
        &&& self.shaders[fragment].usage < usize::MAX
        &&& vertex == fragment ==> self.shaders[vertex].usage + 1 < usize::MAX
    }

    /// The first thing the context has to do for a program of these two sides:
    /// compile the vertex text, else compile the fragment text, else link.
    pub open spec fn first_step(self, vertex: ShaderInput, fragment: ShaderInput) -> BuildStep {
        match vertex {
            ShaderInput::Source(source) => BuildStep::Compile(
                PendingCompile::Vertex { source, fragment },
            ),
            ShaderInput::Id(vertex_shader_id) => match fragment {
                ShaderInput::Source(source) => BuildStep::Compile(
                    PendingCompile::Fragment { vertex_shader_id, source },
                ),
                ShaderInput::Id(fragment_shader_id) => BuildStep::Link(
                    PendingLink {
                        vertex_shader_id,
                        fragment_shader_id,
                        vertex: self.shaders[vertex_shader_id].shader.id,
                        fragment: self.shaders[fragment_shader_id].shader.id,
                    },
                ),
            },
        }
    }

    /// A manager with nothing stored and nothing queued.
    pub open spec fn empty() -> ManagerModel {
        ManagerModel { shaders: Map::empty(), programs: Map::empty(), commands: Seq::empty() }
    }

    /// The stores after `shader` is stored, unused, in the vacant slot `id`.
    pub open spec fn store_shader(self, id: usize, shader: Shader) -> ManagerModel {
        ManagerModel {
            shaders: self.shaders.insert(id, ShaderListElement { shader, usage: 0 }),
            programs: self.programs,
            commands: self.commands,
        }
    }

    /// The same stores, with `commands` queued behind what is queued already.
    pub open spec fn queue(self, commands: Seq<ContextCommand>) -> ManagerModel {
        ManagerModel {
            shaders: self.shaders,
            programs: self.programs,
            commands: self.commands + commands,
        }
    }

    /// The same stores, with nothing queued.
    pub open spec fn drained(self) -> ManagerModel {
        ManagerModel { shaders: self.shaders, programs: self.programs, commands: Seq::empty() }
    }

    /// The state after a good compile of `source` for stage `kind` is
    /// accepted: the shader is stored, unused, in the vacant slot `id`, and
    /// the report's text, if any, is queued for showing.
    pub open spec fn accept_compile(
        self,
        id: usize,
        kind: ShaderKind,
        source: String,
        report: CompileReport,
    ) -> ManagerModel {
        self.store_shader(id, Shader { kind, id: report.handle, source }).queue(
            log_commands(report.info_log),
        )
    }

    /// The state after a failed compile is turned down: the stores are as
    /// before; the report's text, if any, is queued for showing, and then the
    /// deletion of the context's shader object.
    pub open spec fn reject_compile(self, report: CompileReport) -> ManagerModel {
        self.queue(
            log_commands(report.info_log).push(ContextCommand::DeleteShader(report.handle)),
        )
    }

    /// The state after a link report is taken: the stores are as before; the
    /// report's text, if any, is queued for showing, and after a failed link
    /// the deletion of the context's program object.
    pub open spec fn take_link(self, report: LinkReport) -> ManagerModel {
        if report.linked {
            self.queue(log_commands(report.info_log))
        } else {
            self.queue(
                log_commands(report.info_log).push(ContextCommand::DeleteProgram(report.handle)),
            )
        }
    }

    /// The state after the build behind `pending` is turned down at its end:
    /// the stores are as before, and the deletion of the context's program
    /// object is queued.
    pub open spec fn reject_program(self, pending: PendingValidate) -> ManagerModel {
        self.queue(seq![ContextCommand::DeleteProgram(pending.report.handle)])
    }

    /// The stores and the queue after the program in slot `id` is removed:
    /// one attachment of its vertex shader and one of its fragment shader are
    /// given up, in that order, and then the program itself goes.
    pub open spec fn remove_program(self, id: usize) -> ManagerModel {
        let vertex = self.programs[id].vertex_shader_id;
        let fragment = self.programs[id].fragment_shader_id;
        let after_vertex = release(self.shaders, vertex);
        ManagerModel {
            shaders: release(after_vertex, fragment),
            programs: self.programs.remove(id),
            commands: self.commands + release_commands(self.shaders, vertex) + release_commands(
                after_vertex,
                fragment,
            ) + seq![ContextCommand::DeleteProgram(self.programs[id].shader_program.id)],
        }
    }

    /// The stores after a validated program `program` of the shaders in slots
    /// `vertex` and `fragment` is stored in the vacant slot `id`.
    pub open spec fn insert_program(
        self,
        id: usize,
        vertex: usize,
        fragment: usize,
        program: ShaderProgram,
    ) -> ManagerModel {
        ManagerModel {
            shaders: attach(attach(self.shaders, vertex), fragment),
            programs: self.programs.insert(
                id,
                ShaderProgramListElement {
                    vertex_shader_id: vertex,
                    fragment_shader_id: fragment,
                    shader_program: program,
                },
            ),
            commands: self.commands,
        }
    }
}

/// Storing a program in a vacant slot adds that slot to the users of its two
/// shaders and to no others.
pub proof fn lemma_insert_attachments(
    programs: Map<usize, ShaderProgramListElement>,
    id: usize,
    element: ShaderProgramListElement,
    shader: usize,
)
    requires
        programs.dom().finite(),
        !programs.contains_key(id),
    ensures
        vertex_users(programs, shader).finite(),
        fragment_users(programs, shader).finite(),
        attachments(programs.insert(id, element), shader) == attachments(programs, shader)
            + (if element.vertex_shader_id == shader {
            1nat
        } else {
            0nat
        }) + (if element.fragment_shader_id == shader {
            1nat
        } else {
            0nat
        }),
{
    let after = programs.insert(id, element);
    vstd::set_lib::lemma_set_subset_finite(programs.dom(), vertex_users(programs, shader));
    vstd::set_lib::lemma_set_subset_finite(programs.dom(), fragment_users(programs, shader));
    if element.vertex_shader_id == shader {
        assert(vertex_users(after, shader) =~= vertex_users(programs, shader).insert(id));
    } else {
        assert(vertex_users(after, shader) =~= vertex_users(programs, shader));
    }
    if element.fragment_shader_id == shader {
        assert(fragment_users(after, shader) =~= fragment_users(programs, shader).insert(id));
    } else {
        assert(fragment_users(after, shader) =~= fragment_users(programs, shader));
    }
}

/// Removing a stored program takes its slot out of the users of its two
/// shaders and of no others.
pub proof fn lemma_remove_attachments(
    programs: Map<usize, ShaderProgramListElement>,
    id: usize,
    shader: usize,
)
    requires
        programs.dom().finite(),
        programs.contains_key(id),
    ensures
        vertex_users(programs, shader).finite(),
        fragment_users(programs, shader).finite(),
        attachments(programs, shader) == attachments(programs.remove(id), shader)
            + (if programs[id].vertex_shader_id == shader {
            1nat
        } else {
            0nat
        }) + (if programs[id].fragment_shader_id == shader {
            1nat
        } else {
            0nat
        }),
{
    let after = programs.remove(id);
    vstd::set_lib::lemma_set_subset_finite(programs.dom(), vertex_users(programs, shader));
    vstd::set_lib::lemma_set_subset_finite(programs.dom(), fragment_users(programs, shader));
    if programs[id].vertex_shader_id == shader {
        assert(vertex_users(after, shader) =~= vertex_users(programs, shader).remove(id));
    } else {
        assert(vertex_users(after, shader) =~= vertex_users(programs, shader));
    }
    if programs[id].fragment_shader_id == shader {
        assert(fragment_users(after, shader) =~= fragment_users(programs, shader).remove(id));
    } else {
        assert(fragment_users(after, shader) =~= fragment_users(programs, shader));
    }
}

/// A stored program counts among the users of both of its shaders.
pub proof fn lemma_user_counts(programs: Map<usize, ShaderProgramListElement>, id: usize)
    requires
        programs.dom().finite(),
        programs.contains_key(id),
    ensures
        vertex_users(programs, programs[id].vertex_shader_id).len() >= 1,
        fragment_users(programs, programs[id].fragment_shader_id).len() >= 1,
{
    let v = programs[id].vertex_shader_id;
    let f = programs[id].fragment_shader_id;
    vstd::set_lib::lemma_set_subset_finite(programs.dom(), vertex_users(programs, v));
    vstd::set_lib::lemma_set_subset_finite(programs.dom(), fragment_users(programs, f));
    assert(vertex_users(programs, v).contains(id));
    assert(fragment_users(programs, f).contains(id));
}

/// Storing a validated program keeps the accounts: if the counters were right
/// before and can take the new attachments, they are right afterwards, and
/// every stored program still references stored shaders.
pub proof fn lemma_insert_program_keeps_accounts(
    before: ManagerModel,
    id: usize,
    vertex: usize,
    fragment: usize,
    program: ShaderProgram,
)
    requires
        before.wf(),
        before.can_attach(vertex, fragment),
        !before.programs.contains_key(id),
    ensures
        before.insert_program(id, vertex, fragment, program).wf(),
        before.insert_program(id, vertex, fragment, program).shaders.dom()
            == before.shaders.dom(),
{
    let after = before.insert_program(id, vertex, fragment, program);
    assert(after.shaders.dom() =~= before.shaders.dom());
    assert forall|s: usize| #[trigger] after.shaders.contains_key(s) implies after.shaders[s].usage
        == attachments(after.programs, s) by {
        lemma_insert_attachments(before.programs, id, after.programs[id], s);
    }
}

/// Removing a stored program keeps the accounts: if the counters were right
/// before, both shaders of the program have an attachment to give up, the
/// counters are right afterwards, and every program that stays still
/// references stored shaders.
pub proof fn lemma_remove_program_keeps_accounts(before: ManagerModel, id: usize)
    requires
        before.wf(),
        before.programs.contains_key(id),
    ensures
        before.remove_program(id).wf(),
        before.shaders[before.programs[id].vertex_shader_id].usage >= 1,
        release(before.shaders, before.programs[id].vertex_shader_id).contains_key(
            before.programs[id].fragment_shader_id,
        ),
        release(
            before.shaders,
            before.programs[id].vertex_shader_id,
        )[before.programs[id].fragment_shader_id].usage >= 1,
{
    let after = before.remove_program(id);
    let vertex = before.programs[id].vertex_shader_id;
    let fragment = before.programs[id].fragment_shader_id;
    lemma_remove_attachments(before.programs, id, vertex);
    lemma_remove_attachments(before.programs, id, fragment);
    assert forall|s: usize| #[trigger] after.shaders.contains_key(s) implies after.shaders[s].usage
        == attachments(after.programs, s) by {
        lemma_remove_attachments(before.programs, id, s);
    }
    assert forall|p: usize| #[trigger]
        after.programs.contains_key(p) implies after.shaders.contains_key(
        after.programs[p].vertex_shader_id,
    ) && after.shaders.contains_key(after.programs[p].fragment_shader_id) by {
        lemma_remove_attachments(before.programs, id, after.programs[p].vertex_shader_id);
        lemma_remove_attachments(before.programs, id, after.programs[p].fragment_shader_id);
        lemma_user_counts(after.programs, p);
    }
}

/// Usage accounting. In a manager whose accounts are right, the usage counter
/// of a stored shader is the number of its attachments to stored programs;
/// where no program has the shader on both sides, that is the number of stored
/// programs that reference it.
pub proof fn lemma_usage_accounting(manager: ManagerModel, shader: usize)
    requires
        manager.wf(),
        manager.shaders.contains_key(shader),
    ensures
        manager.shaders[shader].usage == attachments(manager.programs, shader),
        vertex_users(manager.programs, shader).disjoint(fragment_users(manager.programs, shader))
            ==> manager.shaders[shader].usage == users(manager.programs, shader).len(),
        manager.shaders[shader].usage == 0 <==> users(manager.programs, shader)
            =~= Set::<usize>::empty(),
{
    let vertex = vertex_users(manager.programs, shader);
    let fragment = fragment_users(manager.programs, shader);
    vstd::set_lib::lemma_set_subset_finite(manager.programs.dom(), vertex);
    vstd::set_lib::lemma_set_subset_finite(manager.programs.dom(), fragment);
    if vertex.disjoint(fragment) {
        vstd::set_lib::lemma_set_disjoint_lens(vertex, fragment);
    }
    if manager.shaders[shader].usage == 0 {
        vertex.lemma_len0_is_empty();
        fragment.lemma_len0_is_empty();
    }
    if users(manager.programs, shader) =~= Set::<usize>::empty() {
        assert(vertex =~= Set::<usize>::empty());
        assert(fragment =~= Set::<usize>::empty());
    }
}

/// Zero at removal. When a program is removed, a stored shader leaves the
/// store exactly if the program held its last attachments; a shader that some
/// remaining program references stays, unchanged but for its counter. In any
/// manager whose accounts are right, the shaders of a stored program are
/// stored.
pub proof fn lemma_zero_at_removal(before: ManagerModel, id: usize, shader: usize)
    requires
        before.wf(),
        before.programs.contains_key(id),
        before.shaders.contains_key(shader),
    ensures
        before.shaders.contains_key(before.programs[id].vertex_shader_id),
        before.shaders.contains_key(before.programs[id].fragment_shader_id),
        !before.remove_program(id).shaders.contains_key(shader) <==> attachments(
            before.programs,
            shader,
        ) > 0 && attachments(before.remove_program(id).programs, shader) == 0,
        before.remove_program(id).shaders.contains_key(shader) ==> before.remove_program(
            id,
        ).shaders[shader].shader == before.shaders[shader].shader,
        !before.remove_program(id).shaders.contains_key(shader) ==> users(
            before.programs,
            shader,
        ) =~= set![id],
{
    let after = before.remove_program(id);
    lemma_remove_program_keeps_accounts(before, id);
    lemma_remove_attachments(before.programs, id, shader);
    if !after.shaders.contains_key(shader) {
        let vertex = vertex_users(after.programs, shader);
        let fragment = fragment_users(after.programs, shader);
        vstd::set_lib::lemma_set_subset_finite(after.programs.dom(), vertex);
        vstd::set_lib::lemma_set_subset_finite(after.programs.dom(), fragment);
        assert(attachments(after.programs, shader) == 0);
        vertex.lemma_len0_is_empty();
        fragment.lemma_len0_is_empty();
        assert(vertex =~= Set::<usize>::empty());
        assert(fragment =~= Set::<usize>::empty());
        assert forall|p: usize| users(before.programs, shader).contains(p) implies p == id by {
            if p != id {
                assert(after.programs.contains_key(p));
                assert(vertex.contains(p) || fragment.contains(p));
            }
        }
        assert(users(before.programs, shader) =~= set![id]);
    }
}

/// Storing an unused shader in a vacant slot keeps the accounts: nothing
/// stored references a slot that was vacant.
pub proof fn lemma_store_shader_keeps_accounts(before: ManagerModel, id: usize, shader: Shader)
    requires
        before.wf(),
        !before.shaders.contains_key(id),
    ensures
        before.store_shader(id, shader).wf(),
{
    let after = before.store_shader(id, shader);
    assert forall|s: usize| #[trigger] after.shaders.contains_key(s) implies after.shaders[s].usage
        == attachments(after.programs, s) by {
        if s == id {
            assert(vertex_users(before.programs, id) =~= Set::<usize>::empty());
            assert(fragment_users(before.programs, id) =~= Set::<usize>::empty());
        }
    }
}

/// One change that the manager makes to its stores.
pub enum Change {
    /// A compiled shader is stored, unused, in the slot `id`.
    StoreShader { id: usize, shader: Shader },
    /// A validated program of the shaders in slots `vertex` and `fragment` is
    /// stored in the slot `id`.
    InsertProgram { id: usize, vertex: usize, fragment: usize, program: ShaderProgram },
    /// The program in slot `id` is removed.
    RemoveProgram { id: usize },
}

impl ManagerModel {
    /// Whether the manager can make `change` in this state: a new object goes
    /// to a vacant slot, a program is made of stored shaders whose counters
    /// have room, and only a stored program is removed.
    pub open spec fn permits(self, change: Change) -> bool {
        match change {
            Change::StoreShader { id, .. } => !self.shaders.contains_key(id),
            Change::InsertProgram { id, vertex, fragment, .. } => !self.programs.contains_key(id)
                && self.can_attach(vertex, fragment),
            Change::RemoveProgram { id } => self.programs.contains_key(id),
        }
    }

    /// The state after `change`.
    pub open spec fn apply(self, change: Change) -> ManagerModel {
        match change {
            Change::StoreShader { id, shader } => self.store_shader(id, shader),
            Change::InsertProgram { id, vertex, fragment, program } => self.insert_program(
                id,
                vertex,
                fragment,
                program,
            ),
            Change::RemoveProgram { id } => self.remove_program(id),
        }
    }

    /// Whether the manager can make `changes` one after the other, starting
    /// in this state.
    pub open spec fn permits_all(self, changes: Seq<Change>) -> bool
        decreases changes.len(),
    {
        changes.len() == 0 || (self.permits(changes[0]) && self.apply(changes[0]).permits_all(
            changes.drop_first(),
        ))
    }

    /// The state after `changes`, made one after the other.
    pub open spec fn apply_all(self, changes: Seq<Change>) -> ManagerModel
        decreases changes.len(),
    {
        if changes.len() == 0 {
            self
        } else {
            self.apply(changes[0]).apply_all(changes.drop_first())
        }
    }
}

/// Usage accounting over every history. Whatever shaders were stored and
/// whatever programs were created and removed, in whatever order, since the
/// manager was empty: every stored program references stored shaders, and the
/// usage counter of every stored shader is the number of its attachments to
/// stored programs.
pub proof fn lemma_accounts_hold_throughout(changes: Seq<Change>, shader: usize)
    requires
        ManagerModel::empty().permits_all(changes),
    ensures
        ManagerModel::empty().apply_all(changes).wf(),
        ManagerModel::empty().apply_all(changes).shaders.contains_key(shader)
            ==> ManagerModel::empty().apply_all(changes).shaders[shader].usage == attachments(
            ManagerModel::empty().apply_all(changes).programs,
            shader,
        ),
{
    let start = ManagerModel::empty();
    assert forall|s: usize| #[trigger] start.shaders.contains_key(s) implies start.shaders[s].usage
        == attachments(start.programs, s) by {}
    lemma_accounts_kept(start, changes);
}

/// A history that starts with right accounts ends with right accounts.
pub proof fn lemma_accounts_kept(start: ManagerModel, changes: Seq<Change>)
    requires
        start.wf(),
        start.permits_all(changes),
    ensures
        start.apply_all(changes).wf(),
    decreases changes.len(),
{
    if changes.len() > 0 {
        match changes[0] {
            Change::StoreShader { id, shader } => {
                lemma_store_shader_keeps_accounts(start, id, shader);
            },
            Change::InsertProgram { id, vertex, fragment, program } => {
                lemma_insert_program_keeps_accounts(start, id, vertex, fragment, program);
            },
            Change::RemoveProgram { id } => {
                lemma_remove_program_keeps_accounts(start, id);
            },
        }
        lemma_accounts_kept(start.apply(changes[0]), changes.drop_first());
    }
}

} // verus!
