//! Properties of validation that relate several checks or several runs.
use vstd::prelude::*;
use crate::analyzer::{
    divergent_before, divergent_barrier_at, divergent_branch, first_divergent_barrier,
    info_describes, is_first_analysis_error, analysis_ok, fn_analysis_error, ep_analysis_error,
    module_info_describes, FunctionInfo, ModuleInfo, AnalysisError,
};
use crate::function::{first_block_error, first_unresolved_expr, function_error, FunctionError};
use crate::interface::{
    builtin_allowed, entry_point_error, first_varying_error, seen_locations, varying_error, varyings,
    EntryPointError, VaryingError,
};
use crate::ir::{
    ArraySize, Binding, BuiltIn, ConstantInner, EntryPoint, Function, GlobalVariable, Module,
    ShaderStage, Statement, TypeInner,
};
use crate::valid::{
    constant_error, ep_conflict, ep_error, ep_reported, no_conflicts, first_at_least, fn_error,
    functions_ok, entry_points_ok, module_valid, reports, ConstantError,
    ValidationError, ValidationFlags,
};

verus! {

proof fn lemma_first_at_least_none(s: Seq<usize>, k: int, i: int, j: int)
    requires
        0 <= i <= j < s.len(),
        first_at_least(s, k, i) is None,
    ensures
        s[j] < k,
    decreases j - i,
{
    if i < j {
        lemma_first_at_least_none(s, k, i + 1, j);
    }
}

proof fn lemma_first_at_least_some(s: Seq<usize>, k: int, i: int, j: int)
    requires
        0 <= i <= j < s.len(),
        s[j] >= k,
    ensures
        first_at_least(s, k, i) matches Some(c) && exists|p: int|
            i <= p <= j && s[p] == c && c >= k && forall|q: int| i <= q < p ==> s[q] < k,
    decreases j - i,
{
    if s[i] < k {
        lemma_first_at_least_some(s, k, i + 1, j);
    }
}

/// A composite constant that passes its check, and so any composite of a
/// valid module, lists only components defined before it; one that lists a
/// component at or after its own index is rejected, and once its type
/// resolves, the error names the first such component in listed order.
pub proof fn law_composite_components_precede(flags: ValidationFlags, m: &Module, k: int)
    requires
        0 <= k < m.constants@.len(),
        m.constants@[k].inner is Composite,
    ensures
        ({
            let components = m.constants@[k].inner->Composite_components@;
            &&& constant_error(m, k) is None ==> forall|i: int|
                0 <= i < components.len() ==> components[i] < k
            &&& module_valid(flags, m) ==> forall|i: int|
                0 <= i < components.len() ==> components[i] < k
            &&& (exists|i: int| 0 <= i < components.len() && components[i] >= k) ==> constant_error(m, k) is Some
            &&& (first_at_least(components, k, 0) is Some && constant_error(m, k) != Some(
                ConstantError::InvalidType,
            ) && !(constant_error(m, k) matches Some(ConstantError::UnresolvedSize(_))))
                ==> constant_error(m, k) == Some(
                ConstantError::UnresolvedComponent(first_at_least(components, k, 0)->0),
            )
        }),
{
    let components = m.constants@[k].inner->Composite_components@;
    if module_valid(flags, m) {
        assert(constant_error(m, k) is None);
    }
    if constant_error(m, k) is None {
        assert forall|i: int| 0 <= i < components.len() implies components[i] < k by {
            lemma_first_at_least_none(components, k, 0, i);
        }
    }
    if exists|i: int| 0 <= i < components.len() && components[i] >= k {
        let i = choose|i: int| 0 <= i < components.len() && components[i] >= k;
        lemma_first_at_least_some(components, k, 0, i);
    }
}

/// No constant may have an unbounded array type: such a constant is always
/// rejected, and so is every module that holds one.
pub proof fn law_dynamic_array_constant_rejected(flags: ValidationFlags, m: &Module, k: int)
    requires
        0 <= k < m.constants@.len(),
        m.constants@[k].inner matches ConstantInner::Composite { ty, .. } && ty < m.types@.len()
            && m.types@[ty as int].inner matches TypeInner::Array { size: ArraySize::Dynamic, .. },
    ensures
        constant_error(m, k) == Some(ConstantError::InvalidType),
        !module_valid(flags, m),
{
}

/// Two reports that validation may give of one module under one set of
/// flags agree: the same kind of entity, handle, nested error and name.
pub open spec fn same_report(a: ValidationError, b: ValidationError) -> bool {
    match (a, b) {
        (ValidationError::Analysis(x), ValidationError::Analysis(y)) => x == y,
        (
            ValidationError::Constant { handle: h1, name: n1, error: e1 },
            ValidationError::Constant { handle: h2, name: n2, error: e2 },
        ) => h1 == h2 && n1@ == n2@ && e1 == e2,
        (
            ValidationError::Type { handle: h1, name: n1, error: e1 },
            ValidationError::Type { handle: h2, name: n2, error: e2 },
        ) => h1 == h2 && n1@ == n2@ && e1 == e2,
        (
            ValidationError::GlobalVariable { handle: h1, name: n1, error: e1 },
            ValidationError::GlobalVariable { handle: h2, name: n2, error: e2 },
        ) => h1 == h2 && n1@ == n2@ && e1 == e2,
        (
            ValidationError::Function { handle: h1, name: n1, error: e1 },
            ValidationError::Function { handle: h2, name: n2, error: e2 },
        ) => h1 == h2 && n1@ == n2@ && e1 == e2,
        (
            ValidationError::EntryPoint { stage: s1, name: n1, error: e1 },
            ValidationError::EntryPoint { stage: s2, name: n2, error: e2 },
        ) => s1 == s2 && n1@ == n2@ && e1 == e2,
        _ => false,
    }
}

/// Two function infos hold the same facts.
pub open spec fn same_info(a: FunctionInfo, b: FunctionInfo) -> bool {
    a.non_uniform@ == b.non_uniform@ && a.global_uses@ == b.global_uses@ && a.divergent_barrier
        == b.divergent_barrier
}

/// Two module infos hold the same facts.
pub open spec fn same_module_info(i1: ModuleInfo, i2: ModuleInfo) -> bool {
    &&& i1.functions@.len() == i2.functions@.len()
    &&& i1.entry_points@.len() == i2.entry_points@.len()
    &&& forall|k: int|
        0 <= k < i1.functions@.len() ==> same_info(#[trigger] i1.functions@[k], i2.functions@[k])
    &&& forall|k: int|
        0 <= k < i1.entry_points@.len() ==> same_info(
            #[trigger] i1.entry_points@[k],
            i2.entry_points@[k],
        )
}

/// Validation is a function of the flags and the module: any two runs on
/// the same module, with the same or with a reused validator, report the
/// same error, or derive the same facts.
pub proof fn law_validation_is_repeatable(
    flags: ValidationFlags,
    m: &Module,
    r1: Result<ModuleInfo, ValidationError>,
    r2: Result<ModuleInfo, ValidationError>,
)
    requires
        r1 is Ok <==> module_valid(flags, m),
        r1 matches Ok(info) ==> module_info_describes(info, m),
        r1 matches Err(e) ==> reports(flags, m, e),
        r2 is Ok <==> module_valid(flags, m),
        r2 matches Ok(info) ==> module_info_describes(info, m),
        r2 matches Err(e) ==> reports(flags, m, e),
    ensures
        r1 is Ok <==> r2 is Ok,
        (r1 is Err && r2 is Err) ==> same_report(r1->Err_0, r2->Err_0),
        (r1 is Ok && r2 is Ok) ==> same_module_info(r1->Ok_0, r2->Ok_0),
{
    if let (Err(e1), Err(e2)) = (r1, r2) {
        lemma_reports_unique(flags, m, e1, e2);
    }
    if let (Ok(i1), Ok(i2)) = (r1, r2) {
        assert forall|k: int| 0 <= k < i1.functions@.len() implies same_info(
            #[trigger] i1.functions@[k],
            i2.functions@[k],
        ) by {
            lemma_info_unique(i1.functions@[k], i2.functions@[k], &m.functions@[k], m.global_variables@);
        }
        assert forall|k: int| 0 <= k < i1.entry_points@.len() implies same_info(
            #[trigger] i1.entry_points@[k],
            i2.entry_points@[k],
        ) by {
            lemma_info_unique(
                i1.entry_points@[k],
                i2.entry_points@[k],
                &m.entry_points@[k].function,
                m.global_variables@,
            );
        }
    }
}

proof fn lemma_info_unique(a: FunctionInfo, b: FunctionInfo, f: &Function, g: Seq<GlobalVariable>)
    requires
        info_describes(a, f, g),
        info_describes(b, f, g),
    ensures
        same_info(a, b),
{
    assert(a.non_uniform@ =~= b.non_uniform@);
    assert(a.global_uses@ =~= b.global_uses@);
}

proof fn lemma_first_analysis_error_unique(m: &Module, a: AnalysisError, b: AnalysisError)
    requires
        is_first_analysis_error(m, a),
        is_first_analysis_error(m, b),
    ensures
        a == b,
        !analysis_ok(m),
{
    if exists|k: int|
        0 <= k < m.functions@.len() && #[trigger] fn_analysis_error(m, k) == Some(a) && forall|j: int|
            0 <= j < k ==> (#[trigger] fn_analysis_error(m, j)) is None {
        let ka = choose|k: int|
            0 <= k < m.functions@.len() && #[trigger] fn_analysis_error(m, k) == Some(a) && forall|
                j: int,
            | 0 <= j < k ==> (#[trigger] fn_analysis_error(m, j)) is None;
        if exists|k: int|
            0 <= k < m.functions@.len() && #[trigger] fn_analysis_error(m, k) == Some(b) && forall|
                j: int,
            | 0 <= j < k ==> (#[trigger] fn_analysis_error(m, j)) is None {
            let kb = choose|k: int|
                0 <= k < m.functions@.len() && #[trigger] fn_analysis_error(m, k) == Some(b)
                    && forall|j: int| 0 <= j < k ==> (#[trigger] fn_analysis_error(m, j)) is None;
            assert(ka == kb) by {
                if ka < kb {
                    assert(fn_analysis_error(m, ka) is None);
                } else if kb < ka {
                    assert(fn_analysis_error(m, kb) is None);
                }
            }
        } else {
            assert(fn_analysis_error(m, ka) is None);
        }
    } else {
        let ka = choose|k: int|
            0 <= k < m.entry_points@.len() && #[trigger] ep_analysis_error(m, k) == Some(a) && forall|
                j: int,
            | 0 <= j < k ==> (#[trigger] ep_analysis_error(m, j)) is None;
        if exists|k: int|
            0 <= k < m.functions@.len() && #[trigger] fn_analysis_error(m, k) == Some(b) && forall|
                j: int,
            | 0 <= j < k ==> (#[trigger] fn_analysis_error(m, j)) is None {
            let kb = choose|k: int|
                0 <= k < m.functions@.len() && #[trigger] fn_analysis_error(m, k) == Some(b)
                    && forall|j: int| 0 <= j < k ==> (#[trigger] fn_analysis_error(m, j)) is None;
            assert(fn_analysis_error(m, kb) is None);
        } else {
            let kb = choose|k: int|
                0 <= k < m.entry_points@.len() && #[trigger] ep_analysis_error(m, k) == Some(b)
                    && forall|j: int| 0 <= j < k ==> (#[trigger] ep_analysis_error(m, j)) is None;
            assert(ka == kb) by {
                if ka < kb {
                    assert(ep_analysis_error(m, ka) is None);
                } else if kb < ka {
                    assert(ep_analysis_error(m, kb) is None);
                }
            }
        }
    }
}

proof fn lemma_reports_unique(flags: ValidationFlags, m: &Module, a: ValidationError, b: ValidationError)
    requires
        reports(flags, m, a),
        reports(flags, m, b),
    ensures
        same_report(a, b),
{
    if let ValidationError::Analysis(x) = a {
        if let ValidationError::Analysis(y) = b {
            lemma_first_analysis_error_unique(m, x, y);
        } else {
            lemma_first_analysis_error_unique(m, x, x);
        }
    } else if let ValidationError::Analysis(y) = b {
        lemma_first_analysis_error_unique(m, y, y);
    } else {
        match (a, b) {
            (
                ValidationError::EntryPoint { error: e1, .. },
                ValidationError::EntryPoint { error: e2, .. },
            ) => {
                let k1 = choose|k: int|
                    0 <= k < m.entry_points@.len() && #[trigger] ep_reported(flags, m, k, e1)
                        && a->EntryPoint_stage == m.entry_points@[k].stage
                        && a->EntryPoint_name@ == m.entry_points@[k].name@;
                let k2 = choose|k: int|
                    0 <= k < m.entry_points@.len() && #[trigger] ep_reported(flags, m, k, e2)
                        && b->EntryPoint_stage == m.entry_points@[k].stage
                        && b->EntryPoint_name@ == m.entry_points@[k].name@;
                assert(k1 == k2) by {
                    if no_conflicts(m) {
                        if k1 < k2 {
                            assert(ep_error(flags, m, k1) is None);
                        } else if k2 < k1 {
                            assert(ep_error(flags, m, k2) is None);
                        }
                    } else {
                        if k1 < k2 {
                            assert(!ep_conflict(m, k1));
                        } else if k2 < k1 {
                            assert(!ep_conflict(m, k2));
                        }
                    }
                }
            },
            _ => {},
        }
    }
}

/// Two entry points with the same stage and name are a conflict, whatever
/// their interfaces and however many other entry points there are: the
/// module is rejected, and once validation reaches the entry points, what
/// it reports is a conflict.
pub proof fn law_duplicate_entry_points_conflict(flags: ValidationFlags, m: &Module, j: int, k: int)
    requires
        0 <= j < k < m.entry_points@.len(),
        m.entry_points@[j].stage == m.entry_points@[k].stage,
        m.entry_points@[j].name@ == m.entry_points@[k].name@,
    ensures
        ep_conflict(m, k),
        !no_conflicts(m),
        !module_valid(flags, m),
        forall|e: ValidationError|
            #[trigger] reports(flags, m, e) && e is EntryPoint ==> e->EntryPoint_error
                == EntryPointError::Conflict,
{
    assert(ep_conflict(m, k));
}

/// A built-in reserved to one stage is accepted on that stage only: on any
/// other stage the same declaration is rejected, naming the built-in.
pub proof fn law_builtin_stage_rules(
    b: BuiltIn,
    output: bool,
    right: ShaderStage,
    wrong: ShaderStage,
    index: int,
    seen: Set<usize>,
)
    requires
        builtin_allowed(right, b, output),
        wrong != right,
    ensures
        varying_error(right, (Some(Binding::BuiltIn(b)), output), index, seen) is None,
        !builtin_allowed(wrong, b, output),
        varying_error(wrong, (Some(Binding::BuiltIn(b)), output), index, seen) == Some(
            VaryingError::InvalidBuiltInStage(b),
        ),
{
}

proof fn lemma_divergence_persists(f: &Function, g: Seq<GlobalVariable>, j: int, n: int)
    requires
        0 <= j < n,
        divergent_branch(f, g, j),
    ensures
        divergent_before(f, g, n),
    decreases n - j,
{
    if n > j + 1 {
        lemma_divergence_persists(f, g, j, n - 1);
    }
}

proof fn lemma_no_divergence_yet(f: &Function, g: Seq<GlobalVariable>, n: int)
    requires
        0 <= n,
        forall|j: int| 0 <= j < n ==> !#[trigger] divergent_branch(f, g, j),
    ensures
        !divergent_before(f, g, n),
    decreases n,
{
    if n > 0 {
        lemma_no_divergence_yet(f, g, n - 1);
    }
}

proof fn lemma_first_divergent_barrier_some(f: &Function, g: Seq<GlobalVariable>, i: int, n: int)
    requires
        0 <= i <= n < f.body@.len() <= usize::MAX,
        divergent_barrier_at(f, g, n),
    ensures
        first_divergent_barrier(f, g, i) matches Some(b) && i <= b <= n && divergent_barrier_at(
            f,
            g,
            b as int,
        ),
    decreases n - i,
{
    if !divergent_barrier_at(f, g, i) {
        lemma_first_divergent_barrier_some(f, g, i + 1, n);
    }
}

/// A barrier that no branch on a per-invocation value precedes is in
/// uniform control flow; a barrier placed after such a branch is not, and
/// the analysis then names a barrier, at the latest this one.
pub proof fn law_barrier_uniformity(f: &Function, g: Seq<GlobalVariable>, n: int)
    requires
        0 <= n < f.body@.len() <= usize::MAX,
        f.body@[n] == Statement::Barrier,
    ensures
        (forall|j: int| 0 <= j < n ==> !#[trigger] divergent_branch(f, g, j)) ==> !divergent_barrier_at(
            f,
            g,
            n,
        ),
        (exists|j: int| 0 <= j < n && #[trigger] divergent_branch(f, g, j)) ==> {
            &&& divergent_barrier_at(f, g, n)
            &&& first_divergent_barrier(f, g, 0) matches Some(b) && b <= n && f.body@[b as int]
                == Statement::Barrier
        },
{
    if forall|j: int| 0 <= j < n ==> !#[trigger] divergent_branch(f, g, j) {
        lemma_no_divergence_yet(f, g, n);
    }
    if exists|j: int| 0 <= j < n && #[trigger] divergent_branch(f, g, j) {
        let j = choose|j: int| 0 <= j < n && #[trigger] divergent_branch(f, g, j);
        lemma_divergence_persists(f, g, j, n);
        lemma_first_divergent_barrier_some(f, g, 0, n);
    }
}

/// Under the uniformity check, an entry point whose other checks pass is
/// rejected exactly when a barrier may be reached under divergent control
/// flow, and the error names the first such barrier.
pub proof fn law_divergent_barrier_reported(flags: ValidationFlags, m: &Module, ep: &EntryPoint)
    requires
        flags.spec_uniformity(),
        function_error(flags, m, &ep.function) is None,
        first_varying_error(ep, 0) is None,
        crate::interface::first_binding_collision(m, ep, 0) is None,
    ensures
        entry_point_error(flags, m, ep) == match first_divergent_barrier(
            &ep.function,
            m.global_variables@,
            0,
        ) {
            Some(b) => Some(EntryPointError::NonUniformBarrier(b)),
            None => None,
        },
{
}

proof fn lemma_block_error_kind(m: &Module, f: &Function, n: int)
    ensures
        first_block_error(m, f, n) matches Some(e) ==> (e is UnbalancedBlock || e is UnclosedBlock
            || e is InvalidStore),
    decreases f.body@.len() - n,
{
    if 0 <= n < f.body@.len() {
        lemma_block_error_kind(m, f, n + 1);
    }
}

/// Each flag gates its own class of checks: without EXPRESSIONS no
/// expression error is reported, without BLOCKS no block error, without
/// CONTROL_FLOW_UNIFORMITY no barrier error; and on a function whose
/// expressions are sound, toggling EXPRESSIONS changes nothing that the
/// other checks report.
pub proof fn law_flags_non_interference(
    a: ValidationFlags,
    b: ValidationFlags,
    m: &Module,
    ep: &EntryPoint,
)
    requires
        a.spec_blocks() == b.spec_blocks(),
        a.spec_uniformity() == b.spec_uniformity(),
    ensures
        (function_error(a, m, &ep.function) matches Some(FunctionError::InvalidExpression(_)))
            ==> a.spec_expressions(),
        (function_error(a, m, &ep.function) matches Some(FunctionError::UnbalancedBlock(_)))
            ==> a.spec_blocks(),
        (function_error(a, m, &ep.function) matches Some(FunctionError::UnclosedBlock(_)))
            ==> a.spec_blocks(),
        (function_error(a, m, &ep.function) matches Some(FunctionError::InvalidStore(_)))
            ==> a.spec_blocks(),
        (entry_point_error(a, m, ep) matches Some(EntryPointError::NonUniformBarrier(_)))
            ==> a.spec_uniformity(),
        first_unresolved_expr(m, &ep.function, 0) is None ==> {
            &&& function_error(a, m, &ep.function) == function_error(b, m, &ep.function)
            &&& entry_point_error(a, m, ep) == entry_point_error(b, m, ep)
        },
{
    lemma_block_error_kind(m, &ep.function, 0);
}

proof fn lemma_location_seen(s: Seq<(Option<Binding>, bool)>, i: int, n: int, l: u32)
    requires
        0 <= i < n <= s.len(),
        s[i].0 == Some(Binding::Location(l)),
    ensures
        seen_locations(s, n).contains(l as usize),
    decreases n,
{
    if n > i + 1 {
        lemma_location_seen(s, i, n - 1, l);
    }
}

proof fn lemma_first_varying_error_some(ep: &EntryPoint, i: int, n: int)
    requires
        0 <= i <= n < varyings(ep).len(),
        varying_error(ep.stage, varyings(ep)[n], n, seen_locations(varyings(ep), n)) is Some,
    ensures
        first_varying_error(ep, i) is Some,
    decreases n - i,
{
    if i < n {
        lemma_first_varying_error_some(ep, i + 1, n);
    }
}

/// Two varyings of one entry point that declare the same location are
/// rejected, whether each is an input or an output.
pub proof fn law_location_collision_rejected(flags: ValidationFlags, m: &Module, k: int, i: int, j: int, l: u32)
    requires
        0 <= k < m.entry_points@.len(),
        0 <= i < j < varyings(&m.entry_points@[k]).len(),
        varyings(&m.entry_points@[k])[i].0 == Some(Binding::Location(l)),
        varyings(&m.entry_points@[k])[j].0 == Some(Binding::Location(l)),
    ensures
        first_varying_error(&m.entry_points@[k], 0) is Some,
        ep_error(flags, m, k) is Some,
        !module_valid(flags, m),
{
    let ep = &m.entry_points@[k];
    let s = varyings(ep);
    lemma_location_seen(s, i, j, l);
    lemma_first_varying_error_some(ep, 0, j);
}

proof fn lemma_varying_errors_absent(ep: &EntryPoint, i: int, n: int)
    requires
        0 <= i <= n < varyings(ep).len(),
        first_varying_error(ep, i) is None,
    ensures
        varying_error(ep.stage, varyings(ep)[n], n, seen_locations(varyings(ep), n)) is None,
    decreases n - i,
{
    if i < n {
        lemma_varying_errors_absent(ep, i + 1, n);
    }
}

/// An entry point that declares a built-in reserved to another stage makes
/// the module invalid; in a valid module every built-in on every interface
/// is one that the entry point's own stage provides or accepts.
pub proof fn law_stage_rules_in_module(flags: ValidationFlags, m: &Module, k: int, i: int)
    requires
        0 <= k < m.entry_points@.len(),
        0 <= i < varyings(&m.entry_points@[k]).len(),
        varyings(&m.entry_points@[k])[i].0 is Some,
        varyings(&m.entry_points@[k])[i].0->0 is BuiltIn,
    ensures
        ({
            let v = varyings(&m.entry_points@[k])[i];
            let b = v.0->0->BuiltIn_0;
            &&& !builtin_allowed(m.entry_points@[k].stage, b, v.1) ==> {
                &&& ep_error(flags, m, k) is Some
                &&& !module_valid(flags, m)
            }
            &&& module_valid(flags, m) ==> builtin_allowed(m.entry_points@[k].stage, b, v.1)
        }),
{
    let ep = &m.entry_points@[k];
    let v = varyings(ep)[i];
    let b = v.0->0->BuiltIn_0;
    if !builtin_allowed(ep.stage, b, v.1) {
        lemma_first_varying_error_some(ep, 0, i);
    }
    if module_valid(flags, m) {
        assert(ep_error(flags, m, k) is None);
        lemma_varying_errors_absent(ep, 0, i);
    }
}

proof fn lemma_no_divergent_barrier(f: &Function, g: Seq<GlobalVariable>, i: int)
    requires
        0 <= i,
        forall|n: int|
            0 <= n < f.body@.len() && #[trigger] f.body@[n] == Statement::Barrier ==> forall|j: int|
                0 <= j < n ==> !#[trigger] divergent_branch(f, g, j),
    ensures
        first_divergent_barrier(f, g, i) is None,
    decreases f.body@.len() - i,
{
    if i < f.body@.len() {
        if f.body@[i] == Statement::Barrier {
            lemma_no_divergence_yet(f, g, i);
        }
        lemma_no_divergent_barrier(f, g, i + 1);
    }
}

/// Under the uniformity check, a barrier that an entry point reaches after
/// a branch on a per-invocation value makes the module invalid.
pub proof fn law_divergent_barrier_rejects_module(
    flags: ValidationFlags,
    m: &Module,
    k: int,
    j: int,
    n: int,
)
    requires
        flags.spec_uniformity(),
        0 <= k < m.entry_points@.len(),
        0 <= j < n < m.entry_points@[k].function.body@.len() <= usize::MAX,
        divergent_branch(&m.entry_points@[k].function, m.global_variables@, j),
        m.entry_points@[k].function.body@[n] == Statement::Barrier,
    ensures
        ep_error(flags, m, k) is Some,
        !module_valid(flags, m),
{
    law_barrier_uniformity(&m.entry_points@[k].function, m.global_variables@, n);
}

/// When every barrier of every entry point comes before any branch on a
/// per-invocation value, turning the uniformity check on or off changes
/// neither whether the module is accepted nor what is reported.
pub proof fn law_uniform_barriers_accepted(a: ValidationFlags, b: ValidationFlags, m: &Module)
    requires
        a.spec_expressions() == b.spec_expressions(),
        a.spec_blocks() == b.spec_blocks(),
        forall|k: int|
            0 <= k < m.entry_points@.len() ==> forall|n: int|
                0 <= n < (#[trigger] m.entry_points@[k]).function.body@.len()
                    && #[trigger] m.entry_points@[k].function.body@[n] == Statement::Barrier
                    ==> forall|j: int|
                    0 <= j < n ==> !#[trigger] divergent_branch(
                        &m.entry_points@[k].function,
                        m.global_variables@,
                        j,
                    ),
    ensures
        module_valid(a, m) == module_valid(b, m),
        forall|e: ValidationError| #[trigger] reports(a, m, e) == reports(b, m, e),
{
    assert forall|k: int| 0 <= k < m.functions@.len() implies #[trigger] fn_error(a, m, k) == fn_error(b, m, k) by {}
    assert forall|k: int| 0 <= k < m.entry_points@.len() implies #[trigger] ep_error(a, m, k) == ep_error(b, m, k) by {
        let f = &m.entry_points@[k].function;
        assert forall|n: int|
            0 <= n < f.body@.len() && #[trigger] f.body@[n] == Statement::Barrier implies forall|j: int|
                0 <= j < n ==> !#[trigger] divergent_branch(f, m.global_variables@, j) by {
            assert(m.entry_points@[k].function.body@[n] == Statement::Barrier);
        }
        lemma_no_divergent_barrier(f, m.global_variables@, 0);
    }
    lemma_same_checks_same_outcome(a, b, m);
}

/// Where two sets of flags give the same result on every function and
/// every entry point, they give the same outcome on the module.
proof fn lemma_same_checks_same_outcome(a: ValidationFlags, b: ValidationFlags, m: &Module)
    requires
        forall|k: int| 0 <= k < m.functions@.len() ==> #[trigger] fn_error(a, m, k) == fn_error(b, m, k),
        forall|k: int| 0 <= k < m.entry_points@.len() ==> #[trigger] ep_error(a, m, k) == ep_error(b, m, k),
    ensures
        module_valid(a, m) == module_valid(b, m),
        forall|e: ValidationError| #[trigger] reports(a, m, e) == reports(b, m, e),
{
    if functions_ok(a, m) {
        assert forall|k: int| 0 <= k < m.functions@.len() implies (#[trigger] fn_error(b, m, k)) is None by {
            assert(fn_error(a, m, k) is None);
        }
    }
    if functions_ok(b, m) {
        assert forall|k: int| 0 <= k < m.functions@.len() implies (#[trigger] fn_error(a, m, k)) is None by {
            assert(fn_error(b, m, k) is None);
        }
    }
    if entry_points_ok(a, m) {
        assert forall|k: int| 0 <= k < m.entry_points@.len() implies (#[trigger] ep_error(b, m, k)) is None by {
            assert(ep_error(a, m, k) is None);
        }
    }
    if entry_points_ok(b, m) {
        assert forall|k: int| 0 <= k < m.entry_points@.len() implies (#[trigger] ep_error(a, m, k)) is None by {
            assert(ep_error(b, m, k) is None);
        }
    }
    assert forall|e: ValidationError| #[trigger] reports(a, m, e) == reports(b, m, e) by {
        if reports(a, m, e) {
            lemma_reports_transfer(a, b, m, e);
        }
        if reports(b, m, e) {
            lemma_reports_transfer(b, a, m, e);
        }
    }
}

proof fn lemma_reports_transfer(a: ValidationFlags, b: ValidationFlags, m: &Module, e: ValidationError)
    requires
        forall|k: int| 0 <= k < m.functions@.len() ==> #[trigger] fn_error(a, m, k) == fn_error(b, m, k),
        forall|k: int| 0 <= k < m.entry_points@.len() ==> #[trigger] ep_error(a, m, k) == ep_error(b, m, k),
        functions_ok(a, m) == functions_ok(b, m),
        entry_points_ok(a, m) == entry_points_ok(b, m),
        reports(a, m, e),
    ensures
        reports(b, m, e),
{
    if let ValidationError::Function { handle, .. } = e {
        assert forall|j: int| 0 <= j < handle implies (#[trigger] fn_error(b, m, j)) is None by {
            assert(fn_error(a, m, j) is None);
        }
    }
    if let ValidationError::EntryPoint { stage, name, error } = e {
        let k = choose|k: int|
            0 <= k < m.entry_points@.len() && #[trigger] ep_reported(a, m, k, error) && stage
                == m.entry_points@[k].stage && name@ == m.entry_points@[k].name@;
        if no_conflicts(m) {
            assert forall|j: int| 0 <= j < k implies (#[trigger] ep_error(b, m, j)) is None by {
                assert(ep_error(a, m, j) is None);
            }
        }
        assert(ep_reported(b, m, k, error));
    }
}

/// On a module whose expressions all resolve, turning EXPRESSIONS on or off
/// changes neither whether the module is accepted nor what is reported: the
/// BLOCKS and uniformity checks fire exactly as before.
pub proof fn law_expressions_flag_in_module(a: ValidationFlags, b: ValidationFlags, m: &Module)
    requires
        a.spec_blocks() == b.spec_blocks(),
        a.spec_uniformity() == b.spec_uniformity(),
        forall|k: int|
            0 <= k < m.functions@.len() ==> first_unresolved_expr(m, #[trigger] &m.functions@[k], 0) is None,
        forall|k: int|
            0 <= k < m.entry_points@.len() ==> first_unresolved_expr(
                m,
                &(#[trigger] m.entry_points@[k]).function,
                0,
            ) is None,
    ensures
        module_valid(a, m) == module_valid(b, m),
        forall|e: ValidationError| #[trigger] reports(a, m, e) == reports(b, m, e),
{
    assert forall|k: int| 0 <= k < m.functions@.len() implies #[trigger] fn_error(a, m, k) == fn_error(b, m, k) by {
        assert(first_unresolved_expr(m, &m.functions@[k], 0) is None);
        lemma_block_error_kind(m, &m.functions@[k], 0);
    }
    assert forall|k: int| 0 <= k < m.entry_points@.len() implies #[trigger] ep_error(a, m, k) == ep_error(b, m, k) by {
        assert(first_unresolved_expr(m, &m.entry_points@[k].function, 0) is None);
        law_flags_non_interference(a, b, m, &m.entry_points@[k]);
    }
    lemma_same_checks_same_outcome(a, b, m);
}

} // verus!
