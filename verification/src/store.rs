//! The two stores of the resource manager: compiled shaders with their usage
//! counters, and linked programs with the shader slots they reference.
//!
//! Both are `slab::Slab`s, so a slot is a stable index and a freed index may be
//! handed out again. Nothing in this module is proved: every function here is a
//! single call into `slab`, with a contract that restates what that call does
//! to the occupied slots. The occupied slots of each store have a name of
//! their own, so each store has its own set of functions.
use crate::shader::{Shader, ShaderProgram};
use slab::Slab;
use vstd::prelude::*;

verus! {

/// `slab::Slab<T>`, known to the verifier by name only.
#[verifier::external_type_specification]
#[verifier::external_body]
#[verifier::reject_recursive_types(T)]
pub struct ExSlab<T>(Slab<T>);

/// A stored shader and the number of program attachments that hold it.
#[derive(Debug)]
pub struct ShaderListElement {
    pub shader: Shader,
    pub usage: usize,
}

/// A stored program and the two shader slots it was linked from.
#[derive(Debug)]
pub struct ShaderProgramListElement {
    pub vertex_shader_id: usize,
    pub fragment_shader_id: usize,
    pub shader_program: ShaderProgram,
}

/// The occupied slots of a shader store, by key.
pub uninterp spec fn shader_slots(slab: Slab<ShaderListElement>) -> Map<usize, ShaderListElement>;

/// The occupied slots of a program store, by key.
pub uninterp spec fn program_slots(slab: Slab<ShaderProgramListElement>) -> Map<
    usize,
    ShaderProgramListElement,
>;

/// `Slab::new`: a slab with no occupied slot.
#[verifier::external_body]
pub(crate) fn shaders_new() -> (slab: Slab<ShaderListElement>)
    ensures
        shader_slots(slab).dom() == Set::<usize>::empty(),
{
    Slab::new()
}

/// `Slab::len`: the number of occupied slots.
#[verifier::external_body]
pub(crate) fn shaders_len(slab: &Slab<ShaderListElement>) -> (len: usize)
    ensures
        len == shader_slots(*slab).dom().len(),
{
    slab.len()
}

/// `Slab::contains`: whether `key` names an occupied slot.
#[verifier::external_body]
pub(crate) fn shaders_contains(slab: &Slab<ShaderListElement>, key: usize) -> (found: bool)
    ensures
        found == shader_slots(*slab).contains_key(key),
{
    slab.contains(key)
}

/// `Slab`'s `Index`: the value in an occupied slot. It panics on a vacant
/// key, which the precondition leaves out.
#[verifier::external_body]
pub(crate) fn shaders_index(slab: &Slab<ShaderListElement>, key: usize) -> (element:
    &ShaderListElement)
    requires
        shader_slots(*slab).contains_key(key),
    ensures
        *element == shader_slots(*slab)[key],
{
    &slab[key]
}

/// `Slab`'s `IndexMut`: a mutable borrow of the value in an occupied slot.
/// What the borrower leaves there is what the slot then holds; no other slot
/// changes. It panics on a vacant key, which the precondition leaves out.
#[verifier::external_body]
pub(crate) fn shaders_index_mut(slab: &mut Slab<ShaderListElement>, key: usize) -> (element:
    &mut ShaderListElement)
    requires
        shader_slots(*old(slab)).contains_key(key),
    ensures
        *element == shader_slots(*old(slab))[key],
        shader_slots(*final(slab)) == shader_slots(*old(slab)).insert(key, *final(element)),
{
    &mut slab[key]
}

/// `Slab::insert`: stores the value in a slot that was vacant and returns its
/// key. Which vacant key is chosen is left open here. The call panics only
/// where the slab's storage would outgrow `isize::MAX` bytes; like `vstd` for
/// `Vec::push`, this contract does not account for that.
#[verifier::external_body]
pub(crate) fn shaders_insert(
    slab: &mut Slab<ShaderListElement>,
    element: ShaderListElement,
) -> (key: usize)
    ensures
        !shader_slots(*old(slab)).contains_key(key),
        shader_slots(*final(slab)) == shader_slots(*old(slab)).insert(key, element),
{
    slab.insert(element)
}

/// `Slab::remove`: vacates an occupied slot and returns what it held. It
/// panics on a vacant key, which the precondition leaves out.
#[verifier::external_body]
pub(crate) fn shaders_remove(slab: &mut Slab<ShaderListElement>, key: usize) -> (element:
    ShaderListElement)
    requires
        shader_slots(*old(slab)).contains_key(key),
    ensures
        element == shader_slots(*old(slab))[key],
        shader_slots(*final(slab)) == shader_slots(*old(slab)).remove(key),
{
    slab.remove(key)
}

/// `Slab::new`: a slab with no occupied slot.
#[verifier::external_body]
pub(crate) fn programs_new() -> (slab: Slab<ShaderProgramListElement>)
    ensures
        program_slots(slab).dom() == Set::<usize>::empty(),
{
    Slab::new()
}

/// `Slab::len`: the number of occupied slots.
#[verifier::external_body]
pub(crate) fn programs_len(slab: &Slab<ShaderProgramListElement>) -> (len: usize)
    ensures
        len == program_slots(*slab).dom().len(),
{
    slab.len()
}

/// `Slab::contains`: whether `key` names an occupied slot.
#[verifier::external_body]
pub(crate) fn programs_contains(slab: &Slab<ShaderProgramListElement>, key: usize) -> (found: bool)
    ensures
        found == program_slots(*slab).contains_key(key),
{
    slab.contains(key)
}

/// `Slab`'s `Index`: the value in an occupied slot. It panics on a vacant
/// key, which the precondition leaves out.
#[verifier::external_body]
pub(crate) fn programs_index(slab: &Slab<ShaderProgramListElement>, key: usize) -> (element:
    &ShaderProgramListElement)
    requires
        program_slots(*slab).contains_key(key),
    ensures
        *element == program_slots(*slab)[key],
{
    &slab[key]
}

/// `Slab::insert`: stores the value in a slot that was vacant and returns its
/// key. Which vacant key is chosen is left open here. The call panics only
/// where the slab's storage would outgrow `isize::MAX` bytes; like `vstd` for
/// `Vec::push`, this contract does not account for that.
#[verifier::external_body]
pub(crate) fn programs_insert(
    slab: &mut Slab<ShaderProgramListElement>,
    element: ShaderProgramListElement,
) -> (key: usize)
    ensures
        !program_slots(*old(slab)).contains_key(key),
        program_slots(*final(slab)) == program_slots(*old(slab)).insert(key, element),
{
    slab.insert(element)
}

/// `Slab::remove`: vacates an occupied slot and returns what it held. It
/// panics on a vacant key, which the precondition leaves out.
#[verifier::external_body]
pub(crate) fn programs_remove(slab: &mut Slab<ShaderProgramListElement>, key: usize) -> (element:
    ShaderProgramListElement)
    requires
        program_slots(*old(slab)).contains_key(key),
    ensures
        element == program_slots(*old(slab))[key],
        program_slots(*final(slab)) == program_slots(*old(slab)).remove(key),
{
    slab.remove(key)
}

} // verus!
