//! Checks of global variables and of entry point interfaces: storage classes
//! against types, varying locations and built-ins against the stage,
//! resource bindings, and barriers under divergent control flow.
use vstd::prelude::*;
use crate::analyzer::{first_divergent_barrier, info_describes, uses_global, FunctionInfo};
use crate::bits::{bit_set_members, clear_bit_set, insert_bit_set, new_bit_set};
use crate::function::{function_error, validate_function, FunctionError};
use crate::ir::{
    Binding, BuiltIn, EntryPoint, FunctionArgument, GlobalVariable, ResourceBinding, Module, ShaderStage, StorageClass, TypeInner,
};
use crate::valid::ValidationFlags;

verus! {

#[derive(Clone, Copy, Debug, PartialEq, Eq, Structural)]
pub enum GlobalVariableError {
    /// Global variables cannot live in this storage class.
    InvalidUsage(StorageClass),
    /// The type is missing, or cannot be held in the storage class.
    InvalidType,
    /// A binding is missing where the class needs one, or present where it
    /// takes none.
    InvalidBinding,
}

pub open spec fn is_opaque(inner: TypeInner) -> bool {
    inner is Image || inner is Sampler
}

/// Storage classes that are bound to resources outside the shader.
pub open spec fn class_is_bound(class: StorageClass) -> bool {
    class == StorageClass::Uniform || class == StorageClass::Storage || class
        == StorageClass::Handle
}

/// Whether a type with these contents can be held in the storage class.
pub open spec fn class_accepts(class: StorageClass, inner: TypeInner) -> bool {
    match class {
        StorageClass::Handle => is_opaque(inner),
        StorageClass::Storage => !is_opaque(inner),
        _ => !is_opaque(inner) && inner.spec_is_sized(),
    }
}

/// What is wrong with global variable `k` of the module, if anything.
pub open spec fn global_error(m: &Module, k: int) -> Option<GlobalVariableError> {
    let v = m.global_variables@[k];
    if v.class == StorageClass::Function {
        Some(GlobalVariableError::InvalidUsage(v.class))
    } else if v.ty >= m.types@.len() || !class_accepts(v.class, m.types@[v.ty as int].inner) {
        Some(GlobalVariableError::InvalidType)
    } else if class_is_bound(v.class) != v.binding is Some {
        Some(GlobalVariableError::InvalidBinding)
    } else {
        None
    }
}

pub fn validate_global_var(handle: usize, module: &Module) -> (r: Result<(), GlobalVariableError>)
    requires
        handle < module.global_variables@.len(),
    ensures
        r is Ok <==> global_error(module, handle as int) is None,
        r matches Err(e) ==> global_error(module, handle as int) == Some(e),
{
    let var = &module.global_variables[handle];
    if var.class == StorageClass::Function {
        return Err(GlobalVariableError::InvalidUsage(var.class));
    }
    if var.ty >= module.types.len() {
        return Err(GlobalVariableError::InvalidType);
    }
    let inner = &module.types[var.ty].inner;
    let opaque = match inner {
        TypeInner::Image { .. } | TypeInner::Sampler { .. } => true,
        _ => false,
    };
    let accepted = match var.class {
        StorageClass::Handle => opaque,
        StorageClass::Storage => !opaque,
        _ => !opaque && inner.is_sized(),
    };
    if !accepted {
        return Err(GlobalVariableError::InvalidType);
    }
    let bound = match var.class {
        StorageClass::Uniform | StorageClass::Storage | StorageClass::Handle => true,
        _ => false,
    };
    if bound != var.binding.is_some() {
        return Err(GlobalVariableError::InvalidBinding);
    }
    Ok(())
}

#[derive(Clone, Copy, Debug, PartialEq, Eq, Structural)]
pub enum VaryingError {
    /// The entry point argument at this index has no binding.
    MissingBinding(usize),
    /// The built-in is not available in this direction at this stage.
    InvalidBuiltInStage(BuiltIn),
    /// The location is declared twice on the interface.
    BindingCollision { location: u32 },
}

#[derive(Clone, Copy, Debug, PartialEq, Eq, Structural)]
pub enum EntryPointError {
    /// Another entry point has the same stage and name.
    Conflict,
    /// The function of the entry point is invalid.
    Function(FunctionError),
    Varying(VaryingError),
    /// The global variable at this index shares its resource binding with
    /// an earlier one that the entry point also uses.
    BindingCollision(usize),
    /// The barrier statement at this index may be reached under divergent
    /// control flow.
    NonUniformBarrier(usize),
}

/// Whether a built-in may be read (`output == false`) or written
/// (`output == true`) by an entry point of the stage.
pub open spec fn builtin_allowed(stage: ShaderStage, b: BuiltIn, output: bool) -> bool {
    if output {
        match b {
            BuiltIn::Position => stage == ShaderStage::Vertex,
            BuiltIn::FragDepth => stage == ShaderStage::Fragment,
            _ => false,
        }
    } else {
        match b {
            BuiltIn::VertexIndex | BuiltIn::InstanceIndex => stage == ShaderStage::Vertex,
            BuiltIn::Position | BuiltIn::FrontFacing => stage == ShaderStage::Fragment,
            BuiltIn::LocalInvocationId | BuiltIn::GlobalInvocationId | BuiltIn::WorkGroupId => stage
                == ShaderStage::Compute,
            BuiltIn::FragDepth => false,
        }
    }
}

pub fn check_builtin(stage: ShaderStage, b: BuiltIn, output: bool) -> (r: bool)
    ensures
        r == builtin_allowed(stage, b, output),
{
    if output {
        match b {
            BuiltIn::Position => stage == ShaderStage::Vertex,
            BuiltIn::FragDepth => stage == ShaderStage::Fragment,
            _ => false,
        }
    } else {
        match b {
            BuiltIn::VertexIndex | BuiltIn::InstanceIndex => stage == ShaderStage::Vertex,
            BuiltIn::Position | BuiltIn::FrontFacing => stage == ShaderStage::Fragment,
            BuiltIn::LocalInvocationId | BuiltIn::GlobalInvocationId | BuiltIn::WorkGroupId => stage
                == ShaderStage::Compute,
            BuiltIn::FragDepth => false,
        }
    }
}

pub open spec fn input_varying(a: FunctionArgument) -> (Option<Binding>, bool) {
    (a.binding, false)
}

pub open spec fn output_varying(b: Binding) -> (Option<Binding>, bool) {
    (Some(b), true)
}

/// The interface of an entry point: its arguments, then its outputs, each
/// with whether it is an output.
pub open spec fn varyings(ep: &EntryPoint) -> Seq<(Option<Binding>, bool)> {
    ep.function.arguments@.map_values(|a: FunctionArgument| input_varying(a)) + ep.outputs@.map_values(
        |b: Binding| output_varying(b),
    )
}

/// The locations that the first `n` varyings of `s` declare.
pub open spec fn seen_locations(s: Seq<(Option<Binding>, bool)>, n: int) -> Set<usize>
    decreases n,
{
    if n <= 0 {
        Set::empty()
    } else {
        match s[n - 1].0 {
            Some(Binding::Location(l)) => seen_locations(s, n - 1).insert(l as usize),
            _ => seen_locations(s, n - 1),
        }
    }
}

pub open spec fn varying_error(
    stage: ShaderStage,
    v: (Option<Binding>, bool),
    index: int,
    seen: Set<usize>,
) -> Option<VaryingError> {
    match v.0 {
        None => Some(VaryingError::MissingBinding(index as usize)),
        Some(Binding::BuiltIn(b)) => if builtin_allowed(stage, b, v.1) {
            None
        } else {
            Some(VaryingError::InvalidBuiltInStage(b))
        },
        Some(Binding::Location(l)) => if seen.contains(l as usize) {
            Some(VaryingError::BindingCollision { location: l })
        } else {
            None
        },
    }
}

/// The first error on the interface of `ep` from varying `n` on.
pub open spec fn first_varying_error(ep: &EntryPoint, n: int) -> Option<VaryingError>
    decreases varyings(ep).len() - n,
{
    let s = varyings(ep);
    if n < 0 || n >= s.len() {
        None
    } else if varying_error(ep.stage, s[n], n, seen_locations(s, n)) is Some {
        varying_error(ep.stage, s[n], n, seen_locations(s, n))
    } else {
        first_varying_error(ep, n + 1)
    }
}

/// Global `g` is used by `ep` and shares its binding with an earlier global
/// that `ep` also uses.
pub open spec fn binding_collides(m: &Module, ep: &EntryPoint, g: int) -> bool {
    let globals = m.global_variables@;
    &&& uses_global(&ep.function, g)
    &&& globals[g].binding is Some
    &&& exists|h: int|
        0 <= h < g && uses_global(&ep.function, h) && #[trigger] globals[h].binding
            == globals[g].binding
}

pub open spec fn first_binding_collision(m: &Module, ep: &EntryPoint, g: int) -> Option<usize>
    decreases m.global_variables@.len() - g,
{
    if g < 0 || g >= m.global_variables@.len() {
        None
    } else if binding_collides(m, ep, g) {
        Some(g as usize)
    } else {
        first_binding_collision(m, ep, g + 1)
    }
}

/// The bindings of group `group` that the globals before `g` used by `ep`
/// hold.
pub open spec fn seen_bindings(m: &Module, ep: &EntryPoint, g: int, group: int) -> Set<usize>
    decreases g,
{
    if g <= 0 {
        Set::empty()
    } else {
        let prev = seen_bindings(m, ep, g - 1, group);
        match m.global_variables@[g - 1].binding {
            Some(rb) => if uses_global(&ep.function, g - 1) && rb.group as int == group {
                prev.insert(rb.binding as usize)
            } else {
                prev
            },
            None => prev,
        }
    }
}

proof fn lemma_seen_bindings_step(m: &Module, ep: &EntryPoint, g: int)
    requires
        0 <= g < m.global_variables@.len(),
    ensures
        forall|j: int|
            #[trigger] seen_bindings(m, ep, g + 1, j) == match m.global_variables@[g].binding {
                Some(rb) => if uses_global(&ep.function, g) && rb.group as int == j {
                    seen_bindings(m, ep, g, j).insert(rb.binding as usize)
                } else {
                    seen_bindings(m, ep, g, j)
                },
                None => seen_bindings(m, ep, g, j),
            },
{
}

proof fn lemma_seen_bindings_contains(m: &Module, ep: &EntryPoint, g: int, group: u32, binding: u32)
    requires
        0 <= g <= m.global_variables@.len(),
    ensures
        seen_bindings(m, ep, g, group as int).contains(binding as usize) <==> exists|h: int|
            0 <= h < g && uses_global(&ep.function, h) && #[trigger] m.global_variables@[h].binding
                == Some(ResourceBinding { group, binding }),
    decreases g,
{
    if g > 0 {
        lemma_seen_bindings_contains(m, ep, g - 1, group, binding);
        if seen_bindings(m, ep, g, group as int).contains(binding as usize) {
            if !seen_bindings(m, ep, g - 1, group as int).contains(binding as usize) {
                assert(m.global_variables@[g - 1].binding == Some(ResourceBinding { group, binding }));
            }
        }
    }
}

/// What the entry point checker reports on `ep`, once it is known to be
/// the only entry point of its stage and name.
pub open spec fn entry_point_error(flags: ValidationFlags, m: &Module, ep: &EntryPoint) -> Option<
    EntryPointError,
> {
    if function_error(flags, m, &ep.function) is Some {
        Some(EntryPointError::Function(function_error(flags, m, &ep.function)->0))
    } else if first_varying_error(ep, 0) is Some {
        Some(EntryPointError::Varying(first_varying_error(ep, 0)->0))
    } else if first_binding_collision(m, ep, 0) is Some {
        Some(EntryPointError::BindingCollision(first_binding_collision(m, ep, 0)->0))
    } else if flags.spec_uniformity() && first_divergent_barrier(
        &ep.function,
        m.global_variables@,
        0,
    ) is Some {
        Some(
            EntryPointError::NonUniformBarrier(
                first_divergent_barrier(&ep.function, m.global_variables@, 0)->0,
            ),
        )
    } else {
        None
    }
}

/// The locations recorded so far: the members of the mask, and the one
/// location that a mask cannot hold when it is flagged.
pub open spec fn recorded(mask: bit_set::BitSet, max_seen: bool) -> Set<usize> {
    if max_seen {
        bit_set_members(mask).insert(usize::MAX)
    } else {
        bit_set_members(mask)
    }
}

pub open spec fn with_location(seen: Set<usize>, binding: Option<Binding>) -> Set<usize> {
    match binding {
        Some(Binding::Location(l)) => seen.insert(l as usize),
        _ => seen,
    }
}

fn check_varying(
    stage: ShaderStage,
    binding: Option<Binding>,
    output: bool,
    index: usize,
    mask: &mut bit_set::BitSet,
    max_seen: &mut bool,
) -> (r: Result<(), VaryingError>)
    requires
        !bit_set_members(*old(mask)).contains(usize::MAX),
    ensures
        !bit_set_members(*final(mask)).contains(usize::MAX),
        r is Ok <==> varying_error(stage, (binding, output), index as int, recorded(*old(mask), *old(max_seen))) is None,
        r matches Err(e) ==> varying_error(stage, (binding, output), index as int, recorded(*old(mask), *old(max_seen))) == Some(e),
        r is Ok ==> recorded(*final(mask), *final(max_seen)) == with_location(
            recorded(*old(mask), *old(max_seen)),
            binding,
        ),
{
    match binding {
        None => Err(VaryingError::MissingBinding(index)),
        Some(Binding::BuiltIn(b)) => {
            if check_builtin(stage, b, output) {
                Ok(())
            } else {
                Err(VaryingError::InvalidBuiltInStage(b))
            }
        },
        Some(Binding::Location(l)) => {
            let key = l as usize;
            if key == usize::MAX {
                if *max_seen {
                    return Err(VaryingError::BindingCollision { location: l });
                }
                *max_seen = true;
                assert(recorded(*mask, true) =~= recorded(*old(mask), false).insert(key));
                Ok(())
            } else {
                let fresh = insert_bit_set(mask, key);
                if !fresh {
                    return Err(VaryingError::BindingCollision { location: l });
                }
                assert(recorded(*mask, *max_seen) =~= recorded(*old(mask), *max_seen).insert(key));
                Ok(())
            }
        },
    }
}

/// Checks one entry point, already known to be the only one of its stage
/// and name, with `location_mask` as scratch space for its locations.
pub(crate) fn check_entry_point(
    flags: ValidationFlags,
    location_mask: &mut bit_set::BitSet,
    bind_group_masks: &mut Vec<bit_set::BitSet>,
    ep: &EntryPoint,
    info: &FunctionInfo,
    module: &Module,
) -> (r: Result<(), EntryPointError>)
    requires
        info_describes(*info, &ep.function, module.global_variables@),
    ensures
        r is Ok <==> entry_point_error(flags, module, ep) is None,
        r matches Err(e) ==> entry_point_error(flags, module, ep) == Some(e),
{
    match validate_function(flags, &ep.function, module) {
        Ok(()) => {},
        Err(e) => {
            return Err(EntryPointError::Function(e));
        },
    }
    clear_bit_set(location_mask);
    let mut max_seen = false;
    let ghost s = varyings(ep);
    let n_args = ep.function.arguments.len();
    assert(recorded(*location_mask, max_seen) =~= seen_locations(s, 0));
    let mut n: usize = 0;
    while n < n_args
        invariant
            n_args == ep.function.arguments@.len(),
            s == varyings(ep),
            s.len() == n_args + ep.outputs@.len(),
            0 <= n <= n_args,
            recorded(*location_mask, max_seen) == seen_locations(s, n as int),
            !bit_set_members(*location_mask).contains(usize::MAX),
            function_error(flags, module, &ep.function) is None,
            first_varying_error(ep, 0) == first_varying_error(ep, n as int),
        decreases n_args - n,
    {
        assert(s[n as int] == input_varying(ep.function.arguments@[n as int]));
        let res = check_varying(
            ep.stage,
            ep.function.arguments[n].binding,
            false,
            n,
            location_mask,
            &mut max_seen,
        );
        match res {
            Ok(()) => {},
            Err(e) => {
                return Err(EntryPointError::Varying(e));
            },
        }
        n = n + 1;
    }
    let mut j: usize = 0;
    while j < ep.outputs.len()
        invariant
            n_args == ep.function.arguments@.len(),
            s == varyings(ep),
            s.len() == n_args + ep.outputs@.len(),
            0 <= j <= ep.outputs@.len(),
            recorded(*location_mask, max_seen) == seen_locations(s, n_args + j),
            !bit_set_members(*location_mask).contains(usize::MAX),
            function_error(flags, module, &ep.function) is None,
            first_varying_error(ep, 0) == first_varying_error(ep, n_args + j),
        decreases ep.outputs@.len() - j,
    {
        assert(s[n_args + j] == output_varying(ep.outputs@[j as int]));
        assert(forall|seen: Set<usize>|
            varying_error(ep.stage, s[n_args + j], n_args + j, seen) == #[trigger] varying_error(
                ep.stage,
                s[n_args + j],
                0,
                seen,
            ));
        let res = check_varying(
            ep.stage,
            Some(ep.outputs[j]),
            true,
            0,
            location_mask,
            &mut max_seen,
        );
        match res {
            Ok(()) => {},
            Err(e) => {
                return Err(EntryPointError::Varying(e));
            },
        }
        j = j + 1;
    }
    let globals: &Vec<GlobalVariable> = &module.global_variables;
    let mut i: usize = 0;
    while i < bind_group_masks.len()
        invariant
            0 <= i <= bind_group_masks@.len(),
            forall|j: int|
                0 <= j < i ==> bit_set_members(#[trigger] bind_group_masks@[j]) == Set::<
                    usize,
                >::empty(),
        decreases bind_group_masks@.len() - i,
    {
        clear_bit_set(&mut bind_group_masks[i]);
        i = i + 1;
    }
    let mut max_seen: Vec<bool> = Vec::new();
    while max_seen.len() < bind_group_masks.len()
        invariant
            max_seen@.len() <= bind_group_masks@.len(),
            forall|j: int| 0 <= j < max_seen@.len() ==> !#[trigger] max_seen@[j],
        decreases bind_group_masks@.len() - max_seen@.len(),
    {
        max_seen.push(false);
    }
    assert forall|j: int| 0 <= j < bind_group_masks@.len() implies #[trigger] recorded(
        bind_group_masks@[j],
        max_seen@[j],
    ) == seen_bindings(module, ep, 0, j) by {
        assert(recorded(bind_group_masks@[j], max_seen@[j]) =~= Set::<usize>::empty());
    }
    let mut g: usize = 0;
    while g < globals.len()
        invariant
            info_describes(*info, &ep.function, globals@),
            globals@ == module.global_variables@,
            first_varying_error(ep, 0) is None,
            function_error(flags, module, &ep.function) is None,
            0 <= g <= globals@.len(),
            first_binding_collision(module, ep, 0) == first_binding_collision(module, ep, g as int),
            max_seen@.len() == bind_group_masks@.len(),
            forall|j: int|
                0 <= j < bind_group_masks@.len() ==> #[trigger] recorded(
                    bind_group_masks@[j],
                    max_seen@[j],
                ) == seen_bindings(module, ep, g as int, j),
            forall|j: int|
                0 <= j < bind_group_masks@.len() ==> !bit_set_members(
                    #[trigger] bind_group_masks@[j],
                ).contains(usize::MAX),
            forall|j: int|
                j >= bind_group_masks@.len() ==> #[trigger] seen_bindings(module, ep, g as int, j)
                    == Set::<usize>::empty(),
        decreases globals@.len() - g,
    {
        proof {
            lemma_seen_bindings_step(module, ep, g as int);
        }
        if info.global_uses[g] {
            if let Some(rb) = globals[g].binding {
                let group = rb.group as usize;
                while bind_group_masks.len() <= group
                    invariant
                        max_seen@.len() == bind_group_masks@.len(),
                        forall|j: int|
                            0 <= j < bind_group_masks@.len() ==> #[trigger] recorded(
                                bind_group_masks@[j],
                                max_seen@[j],
                            ) == seen_bindings(module, ep, g as int, j),
                        forall|j: int|
                            0 <= j < bind_group_masks@.len() ==> !bit_set_members(
                                #[trigger] bind_group_masks@[j],
                            ).contains(usize::MAX),
                        forall|j: int|
                            j >= bind_group_masks@.len() ==> #[trigger] seen_bindings(
                                module,
                                ep,
                                g as int,
                                j,
                            ) == Set::<usize>::empty(),
                    decreases group + 1 - bind_group_masks@.len(),
                {
                    let fresh_mask = new_bit_set();
                    bind_group_masks.push(fresh_mask);
                    max_seen.push(false);
                    assert(recorded(fresh_mask, false) =~= Set::<usize>::empty());
                }
                let key = rb.binding as usize;
                let ghost before = recorded(bind_group_masks@[group as int], max_seen@[group as int]);
                let fresh = if key == usize::MAX {
                    if max_seen[group] {
                        false
                    } else {
                        max_seen.set(group, true);
                        assert(recorded(bind_group_masks@[group as int], true) =~= before.insert(key));
                        true
                    }
                } else {
                    let ghost old_mask = bind_group_masks@[group as int];
                    let r = insert_bit_set(&mut bind_group_masks[group], key);
                    assert(recorded(bind_group_masks@[group as int], max_seen@[group as int])
                        =~= recorded(old_mask, max_seen@[group as int]).insert(key));
                    r
                };
                if !fresh {
                    proof {
                        lemma_seen_bindings_contains(module, ep, g as int, rb.group, rb.binding);
                    }
                    assert(binding_collides(module, ep, g as int));
                    return Err(EntryPointError::BindingCollision(g));
                }
                proof {
                    lemma_seen_bindings_contains(module, ep, g as int, rb.group, rb.binding);
                }
                assert(!binding_collides(module, ep, g as int));
            } else {
                assert(!binding_collides(module, ep, g as int));
            }
        } else {
            assert(!uses_global(&ep.function, g as int));
        }
        g = g + 1;
    }
    if flags.control_flow_uniformity() {
        if let Some(n) = info.divergent_barrier {
            return Err(EntryPointError::NonUniformBarrier(n));
        }
    }
    Ok(())
}

} // verus!
