use shaderkit::manager::ShaderProgramManager;
use shaderkit::protocol::{BuildStep, ContextCommand, ShaderInput, ShaderProgramIdentifier};
use shaderkit::shader::{
    CompileReport, LinkReport, Shader, ShaderKind, ShaderProgram, ShaderProgramCreationError,
};
use shaderkit::uniform::{Material, Uniform, UniformSlot};
use shaderkit::vector::f32x4;

const VERTEX: &str = "attribute vec4 position; void main() { gl_Position = position; }";
const FRAGMENT: &str = "void main() { gl_FragColor = vec4(1.0); }";
const BROKEN: &str = "void main( { ";

/// A stand-in for the graphics context: it accepts any source that holds
/// `void main()`, links any two live shaders, and keeps count of its objects.
struct Context {
    next_handle: u32,
    shaders: Vec<u32>,
    programs: Vec<(u32, bool, bool)>,
    shown: Vec<String>,
    uploads: Vec<(u32, u32, Vec<u32>)>,
    warn: bool,
    fail_link: bool,
    fail_validate: bool,
}

impl Context {
    fn new() -> Context {
        Context {
            next_handle: 100,
            shaders: Vec::new(),
            programs: Vec::new(),
            shown: Vec::new(),
            uploads: Vec::new(),
            warn: false,
            fail_link: false,
            fail_validate: false,
        }
    }

    fn compile(&mut self, _kind: ShaderKind, source: &str) -> CompileReport {
        let handle = self.next_handle;
        self.next_handle += 1;
        self.shaders.push(handle);
        let compiled = source.contains("void main()");
        let info_log = if !compiled {
            format!("ERROR: 0:1: syntax error in {:?}", source)
        } else if self.warn {
            String::from("WARNING: 0:1: unused variable")
        } else {
            String::new()
        };
        CompileReport { handle, info_log, compiled }
    }

    fn link(&mut self, vertex: u32, fragment: u32) -> LinkReport {
        assert!(self.shaders.contains(&vertex));
        assert!(self.shaders.contains(&fragment));
        let handle = self.next_handle;
        self.next_handle += 1;
        let linked = !self.fail_link;
        self.programs.push((handle, linked, false));
        let info_log = if linked { String::new() } else { String::from("ERROR: link failed") };
        LinkReport { handle, info_log, linked }
    }

    fn validate(&mut self, program: u32) -> bool {
        let valid = !self.fail_validate;
        for entry in self.programs.iter_mut() {
            if entry.0 == program {
                entry.2 = valid;
            }
        }
        valid
    }

    fn status(&self, program: u32) -> Option<(bool, bool)> {
        self.programs.iter().find(|entry| entry.0 == program).map(|entry| (entry.1, entry.2))
    }

    fn perform(&mut self, commands: Vec<ContextCommand>) {
        for command in commands {
            match command {
                ContextCommand::Log(text) => self.shown.push(text),
                ContextCommand::DeleteShader(handle) => {
                    assert!(self.shaders.contains(&handle));
                    self.shaders.retain(|live| *live != handle);
                }
                ContextCommand::DeleteProgram(handle) => {
                    assert!(self.programs.iter().any(|entry| entry.0 == handle));
                    self.programs.retain(|entry| entry.0 != handle);
                }
                ContextCommand::SetUniform { program, location, value } => {
                    self.uploads.push((program, location, value.words().clone()));
                }
            }
        }
    }
}

/// Serves the requests of a build until it is done.
fn run(
    manager: &mut ShaderProgramManager,
    context: &mut Context,
    first: BuildStep,
) -> Result<ShaderProgramIdentifier, ShaderProgramCreationError> {
    let mut step = first;
    loop {
        step = match step {
            BuildStep::Compile(pending) => {
                assert!(manager.accepts_compile(&pending));
                let report = context.compile(pending.kind(), pending.source());
                manager.shader_compiled(pending, report)
            }
            BuildStep::Link(pending) => {
                let report = context.link(pending.vertex, pending.fragment);
                manager.program_linked(pending, report)
            }
            BuildStep::Validate(pending) => {
                assert!(manager.can_attach(pending.vertex_shader_id, pending.fragment_shader_id));
                let valid = context.validate(pending.report.handle);
                manager.program_validated(pending, valid)
            }
            BuildStep::Done(outcome) => return outcome,
        };
        let commands = manager.take_commands();
        context.perform(commands);
    }
}

fn vertex_shader(manager: &mut ShaderProgramManager, context: &mut Context) -> usize {
    let report = context.compile(ShaderKind::Vertex, VERTEX);
    manager.new_vertex_shader(String::from(VERTEX), report).unwrap()
}

fn fragment_shader(manager: &mut ShaderProgramManager, context: &mut Context) -> usize {
    let report = context.compile(ShaderKind::Fragment, FRAGMENT);
    manager.new_fragment_shader(String::from(FRAGMENT), report).unwrap()
}

#[test]
fn end_to_end_success() {
    let mut manager = ShaderProgramManager::new();
    let mut context = Context::new();
    let first = manager.new_program_source_source(String::from(VERTEX), String::from(FRAGMENT));
    let identifier = run(&mut manager, &mut context, first).unwrap();
    assert!(manager.contains_program(identifier.shader_program_id));
    let handle = manager.program(identifier.shader_program_id).id();
    assert_eq!(context.status(handle), Some((true, true)));
    assert_eq!(manager.shader_count(), 2);
    assert_eq!(manager.program_count(), 1);
    assert_eq!(manager.usage(identifier.vertex_shader_id), 1);
    assert_eq!(manager.usage(identifier.fragment_shader_id), 1);
    assert_eq!(manager.shader(identifier.vertex_shader_id).kind, ShaderKind::Vertex);
    assert_eq!(manager.shader(identifier.vertex_shader_id).source, VERTEX);
    assert_eq!(manager.shader(identifier.fragment_shader_id).kind, ShaderKind::Fragment);
    assert_eq!(
        manager.program_shaders(identifier.shader_program_id),
        (identifier.vertex_shader_id, identifier.fragment_shader_id)
    );

    manager.remove_program(identifier.shader_program_id);
    assert_eq!(manager.shader_count(), 0);
    assert_eq!(manager.program_count(), 0);
    let commands = manager.take_commands();
    assert_eq!(commands.len(), 3);
    assert!(matches!(commands[0], ContextCommand::DeleteShader(_)));
    assert!(matches!(commands[1], ContextCommand::DeleteShader(_)));
    assert!(matches!(commands[2], ContextCommand::DeleteProgram(h) if h == handle));
    context.perform(commands);
    assert!(context.shaders.is_empty());
    assert!(context.programs.is_empty());
}

#[test]
fn end_to_end_failure() {
    let mut manager = ShaderProgramManager::new();
    let mut context = Context::new();
    let kept = vertex_shader(&mut manager, &mut context);
    let before = manager.shader_count();
    let report = context.compile(ShaderKind::Vertex, BROKEN);
    let handle = report.handle;
    let log = report.info_log.clone();
    let outcome = manager.new_vertex_shader(String::from(BROKEN), report);
    match outcome {
        Err(ShaderProgramCreationError::Compilation(text)) => {
            assert!(!text.is_empty());
            assert_eq!(text, log);
        }
        other => panic!("expected a compile error, got {:?}", other),
    }
    assert_eq!(manager.shader_count(), before);
    assert!(manager.contains_shader(kept));
    let commands = manager.take_commands();
    assert_eq!(commands.len(), 2);
    assert!(matches!(&commands[0], ContextCommand::Log(text) if *text == log));
    assert!(matches!(commands[1], ContextCommand::DeleteShader(h) if h == handle));
    context.perform(commands);
    assert_eq!(context.shaders.len(), 1);
}

#[test]
fn usage_counts_the_programs_that_reference_a_shader() {
    let mut manager = ShaderProgramManager::new();
    let mut context = Context::new();
    let vertex = vertex_shader(&mut manager, &mut context);
    let fragment_a = fragment_shader(&mut manager, &mut context);
    let fragment_b = fragment_shader(&mut manager, &mut context);
    assert_eq!(manager.usage(vertex), 0);

    let first = manager.new_program_id_id(vertex, fragment_a);
    let one = run(&mut manager, &mut context, first).unwrap();
    let first = manager.new_program_id_id(vertex, fragment_b);
    let two = run(&mut manager, &mut context, first).unwrap();
    let first = manager.new_program_id_id(vertex, fragment_a);
    let three = run(&mut manager, &mut context, first).unwrap();
    assert_eq!(manager.usage(vertex), 3);
    assert_eq!(manager.usage(fragment_a), 2);
    assert_eq!(manager.usage(fragment_b), 1);
    assert_eq!(manager.program_count(), 3);
    assert_eq!(one.vertex_shader_id, vertex);
    assert_eq!(one.fragment_shader_id, fragment_a);

    manager.remove_program(two.shader_program_id);
    assert_eq!(manager.usage(vertex), 2);
    assert_eq!(manager.usage(fragment_a), 2);
    assert!(!manager.contains_shader(fragment_b));

    manager.remove_program(one.shader_program_id);
    assert_eq!(manager.usage(vertex), 1);
    assert_eq!(manager.usage(fragment_a), 1);

    manager.remove_program(three.shader_program_id);
    assert_eq!(manager.shader_count(), 0);
    assert_eq!(manager.program_count(), 0);
    context.perform(manager.take_commands());
    assert!(context.shaders.is_empty());
    assert!(context.programs.is_empty());
}

#[test]
fn a_shader_leaves_with_its_last_program_and_not_before() {
    let mut manager = ShaderProgramManager::new();
    let mut context = Context::new();
    let vertex = vertex_shader(&mut manager, &mut context);
    let fragment = fragment_shader(&mut manager, &mut context);
    let first = manager.new_program_id_id(vertex, fragment);
    let one = run(&mut manager, &mut context, first).unwrap();
    let first = manager.new_program_id_source(vertex, String::from(FRAGMENT));
    let two = run(&mut manager, &mut context, first).unwrap();
    assert_ne!(two.fragment_shader_id, fragment);

    manager.remove_program(one.shader_program_id);
    assert!(manager.contains_shader(vertex));
    assert!(!manager.contains_shader(fragment));
    assert!(manager.contains_shader(two.fragment_shader_id));
    assert!(!manager.contains_program(one.shader_program_id));

    manager.remove_program(two.shader_program_id);
    assert!(!manager.contains_shader(vertex));
    assert!(!manager.contains_shader(two.fragment_shader_id));
}

#[test]
fn a_program_of_one_shader_on_both_sides_counts_it_twice() {
    let mut manager = ShaderProgramManager::new();
    let mut context = Context::new();
    let shader = vertex_shader(&mut manager, &mut context);
    let first = manager.new_program_id_id(shader, shader);
    let identifier = run(&mut manager, &mut context, first).unwrap();
    assert_eq!(manager.usage(shader), 2);
    manager.remove_program(identifier.shader_program_id);
    assert!(!manager.contains_shader(shader));
    let commands = manager.take_commands();
    assert_eq!(commands.len(), 2);
}

#[test]
fn a_failed_compile_inside_a_build_stops_it() {
    let mut manager = ShaderProgramManager::new();
    let mut context = Context::new();
    let first = manager.new_program_source_source(String::from(BROKEN), String::from(FRAGMENT));
    let outcome = run(&mut manager, &mut context, first);
    assert!(matches!(outcome, Err(ShaderProgramCreationError::Compilation(_))));
    assert_eq!(manager.shader_count(), 0);
    assert_eq!(manager.program_count(), 0);
    // The fragment source was never compiled, and the failed object is gone.
    assert_eq!(context.next_handle, 101);
    assert!(context.shaders.is_empty());
    assert_eq!(context.shown.len(), 1);
}

#[test]
fn a_failed_fragment_compile_leaves_the_vertex_shader_unused() {
    let mut manager = ShaderProgramManager::new();
    let mut context = Context::new();
    let first = manager.new_program_source_source(String::from(VERTEX), String::from(BROKEN));
    let outcome = run(&mut manager, &mut context, first);
    assert!(matches!(outcome, Err(ShaderProgramCreationError::Compilation(_))));
    assert_eq!(manager.shader_count(), 1);
    assert_eq!(manager.program_count(), 0);
    assert_eq!(context.shaders.len(), 1);
}

#[test]
fn a_failed_link_inserts_nothing_and_skips_validation() {
    let mut manager = ShaderProgramManager::new();
    let mut context = Context::new();
    let vertex = vertex_shader(&mut manager, &mut context);
    let fragment = fragment_shader(&mut manager, &mut context);
    context.fail_link = true;
    context.fail_validate = true;
    let first = manager.new_program_id_id(vertex, fragment);
    let outcome = run(&mut manager, &mut context, first);
    match outcome {
        Err(ShaderProgramCreationError::Linking(text)) => assert_eq!(text, "ERROR: link failed"),
        other => panic!("expected a link error, got {:?}", other),
    }
    assert_eq!(manager.program_count(), 0);
    assert_eq!(manager.shader_count(), 2);
    assert_eq!(manager.usage(vertex), 0);
    assert_eq!(manager.usage(fragment), 0);
    assert!(context.programs.is_empty());
    assert_eq!(context.shown, vec![String::from("ERROR: link failed")]);
}

#[test]
fn a_failed_validation_inserts_nothing() {
    let mut manager = ShaderProgramManager::new();
    let mut context = Context::new();
    context.fail_validate = true;
    let first = manager.new_program_source_source(String::from(VERTEX), String::from(FRAGMENT));
    let outcome = run(&mut manager, &mut context, first);
    assert!(matches!(outcome, Err(ShaderProgramCreationError::Validation(_))));
    assert_eq!(manager.program_count(), 0);
    // Both shaders were compiled for this build; they stay, unused.
    assert_eq!(manager.shader_count(), 2);
    assert!(context.programs.is_empty());
    assert_eq!(context.shaders.len(), 2);
}

#[test]
fn diagnostics_are_shown_on_success_too() {
    let mut manager = ShaderProgramManager::new();
    let mut context = Context::new();
    context.warn = true;
    let fragment = fragment_shader(&mut manager, &mut context);
    context.perform(manager.take_commands());
    let first = manager.new_program_source_id(String::from(VERTEX), fragment);
    let identifier = run(&mut manager, &mut context, first).unwrap();
    assert_eq!(identifier.fragment_shader_id, fragment);
    assert_eq!(
        context.shown,
        vec![String::from("WARNING: 0:1: unused variable"); 2]
    );
}

#[test]
fn an_empty_diagnostic_is_not_shown() {
    let mut manager = ShaderProgramManager::new();
    let mut context = Context::new();
    let _ = vertex_shader(&mut manager, &mut context);
    assert!(manager.take_commands().is_empty());
}

#[test]
fn freed_slots_are_handed_out_again() {
    let mut manager = ShaderProgramManager::new();
    let mut context = Context::new();
    let first = manager.new_program_source_source(String::from(VERTEX), String::from(FRAGMENT));
    let one = run(&mut manager, &mut context, first).unwrap();
    let old_handle = manager.program(one.shader_program_id).id();
    manager.remove_program(one.shader_program_id);
    context.perform(manager.take_commands());
    let first = manager.new_program_source_source(String::from(VERTEX), String::from(FRAGMENT));
    let two = run(&mut manager, &mut context, first).unwrap();
    assert_eq!(manager.shader_count(), 2);
    assert_eq!(manager.program_count(), 1);
    // The slots are the old ones; the objects in them are new.
    assert_eq!(two.shader_program_id, one.shader_program_id);
    let mut old_slots = [one.vertex_shader_id, one.fragment_shader_id];
    let mut new_slots = [two.vertex_shader_id, two.fragment_shader_id];
    old_slots.sort();
    new_slots.sort();
    assert_eq!(new_slots, old_slots);
    assert_ne!(manager.program(two.shader_program_id).id(), old_handle);
    assert_eq!(manager.shader(two.vertex_shader_id).kind, ShaderKind::Vertex);
    assert_eq!(manager.shader(two.fragment_shader_id).kind, ShaderKind::Fragment);
}

#[test]
fn the_first_step_follows_the_two_sides() {
    let mut manager = ShaderProgramManager::new();
    let mut context = Context::new();
    let vertex = vertex_shader(&mut manager, &mut context);
    let fragment = fragment_shader(&mut manager, &mut context);
    assert!(manager.accepts(&ShaderInput::Id(vertex)));
    assert!(!manager.accepts(&ShaderInput::Id(vertex + fragment + 1)));
    assert!(manager.accepts(&ShaderInput::Source(String::new())));
    match manager.new_program_id_id(vertex, fragment) {
        BuildStep::Link(pending) => {
            assert_eq!(pending.vertex_shader_id, vertex);
            assert_eq!(pending.fragment_shader_id, fragment);
            assert_eq!(pending.vertex, manager.shader(vertex).id());
            assert_eq!(pending.fragment, manager.shader(fragment).id());
        }
        other => panic!("expected a link request, got {:?}", other),
    }
    match manager.new_program_source_id(String::from(VERTEX), fragment) {
        BuildStep::Compile(pending) => {
            assert_eq!(pending.kind(), ShaderKind::Vertex);
            assert_eq!(pending.source(), VERTEX);
        }
        other => panic!("expected a compile request, got {:?}", other),
    }
    match manager.new_program_id_source(vertex, String::from(FRAGMENT)) {
        BuildStep::Compile(pending) => {
            assert_eq!(pending.kind(), ShaderKind::Fragment);
            assert_eq!(pending.source(), FRAGMENT);
        }
        other => panic!("expected a compile request, got {:?}", other),
    }
    match manager.new_program(ShaderInput::Source(String::from(VERTEX)), ShaderInput::Id(fragment)) {
        BuildStep::Compile(pending) => assert_eq!(pending.kind(), ShaderKind::Vertex),
        other => panic!("expected a compile request, got {:?}", other),
    }
}

#[test]
fn reports_decide_whether_an_object_exists() {
    let good = CompileReport { handle: 7, info_log: String::new(), compiled: true };
    let shader = Shader::new(ShaderKind::Fragment, String::from(FRAGMENT), good).unwrap();
    assert_eq!(shader.id(), 7);
    assert_eq!(shader.kind, ShaderKind::Fragment);
    assert_eq!(shader.source, FRAGMENT);
    let bad = CompileReport { handle: 8, info_log: String::from("no"), compiled: false };
    assert_eq!(Shader::new(ShaderKind::Vertex, String::from(BROKEN), bad).unwrap_err(), "no");

    let linked = LinkReport { handle: 9, info_log: String::from("l"), linked: true };
    assert_eq!(ShaderProgram::new(linked, true).unwrap().id(), 9);
    let linked = LinkReport { handle: 9, info_log: String::from("l"), linked: true };
    let error = ShaderProgram::new(linked, false).unwrap_err();
    assert!(matches!(&error, ShaderProgramCreationError::Validation(text) if text == "l"));
    assert_eq!(error.info_log(), "l");
    let unlinked = LinkReport { handle: 9, info_log: String::from("u"), linked: false };
    let error = ShaderProgram::new(unlinked, true).unwrap_err();
    assert!(matches!(&error, ShaderProgramCreationError::Linking(text) if text == "u"));
}

struct Tint {
    color: f32x4,
    strength: u32,
}

impl Material for Tint {
    fn uniforms(&self, _program: &ShaderProgram) -> Vec<UniformSlot> {
        vec![
            UniformSlot { location: 3, value: Uniform::from_f32x4(self.color) },
            UniformSlot { location: 5, value: Uniform::from_f32(self.strength) },
        ]
    }
}

#[test]
fn a_material_is_uploaded_slot_by_slot() {
    let mut manager = ShaderProgramManager::new();
    let mut context = Context::new();
    let first = manager.new_program_source_source(String::from(VERTEX), String::from(FRAGMENT));
    let identifier = run(&mut manager, &mut context, first).unwrap();
    let handle = manager.program(identifier.shader_program_id).id();
    let tint = Tint { color: f32x4::new([1, 2, 3, 4]), strength: 9 };
    manager.upload(identifier.shader_program_id, &tint);
    context.perform(manager.take_commands());
    assert_eq!(context.uploads, vec![(handle, 3, vec![1, 2, 3, 4]), (handle, 5, vec![9])]);
    assert_eq!(manager.program_count(), 1);
    assert_eq!(manager.shader_count(), 2);
}
