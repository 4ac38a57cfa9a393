//! Analysis of function bodies: which expressions may differ between the
//! invocations of a work group, which global variables a function touches,
//! and whether a barrier can be reached under divergent control flow.
use vstd::prelude::*;
use crate::ir::{
    Binding, BuiltIn, Expression, Function, GlobalVariable, Module, Statement, StorageClass,
};

verus! {

/// The function that an analysis error is attributed to.
#[derive(Clone, Copy, Debug, PartialEq, Eq, Structural)]
pub enum FunctionOrigin {
    Function(usize),
    EntryPoint(usize),
}

#[derive(Clone, Copy, Debug, PartialEq, Eq, Structural)]
pub enum AnalysisError {
    /// An expression uses an operand that is not defined before it.
    ForwardDependency { origin: FunctionOrigin, expression: usize },
    /// A branch condition does not name an expression of the function.
    InvalidCondition { origin: FunctionOrigin, statement: usize },
}

/// Facts derived for one function.
#[derive(Clone, Debug, PartialEq, Eq)]
pub struct FunctionInfo {
    /// For each expression: whether its value may differ between invocations.
    pub non_uniform: Vec<bool>,
    /// For each global variable of the module: whether the function uses it.
    pub global_uses: Vec<bool>,
    /// The first barrier statement that may be reached under divergent
    /// control flow.
    pub divergent_barrier: Option<usize>,
}

/// Facts derived for a whole module, one entry per function and per entry
/// point.
#[derive(Clone, Debug, PartialEq, Eq)]
pub struct ModuleInfo {
    pub functions: Vec<FunctionInfo>,
    pub entry_points: Vec<FunctionInfo>,
}

/// An argument is uniform only when it carries the work group id.
pub open spec fn arg_non_uniform(f: &Function, a: int) -> bool {
    !(0 <= a < f.arguments@.len() && f.arguments@[a].binding == Some(
        Binding::BuiltIn(BuiltIn::WorkGroupId),
    ))
}

/// Whether expression `i` of `f` may take different values in different
/// invocations: it reads a per-invocation argument or a writable storage
/// variable, directly or through its operands.
pub open spec fn expr_non_uniform(f: &Function, globals: Seq<GlobalVariable>, i: int) -> bool
    decreases i,
{
    if i < 0 || i >= f.expressions@.len() {
        false
    } else {
        match f.expressions@[i] {
            Expression::Constant(_) => false,
            Expression::GlobalVariable(g) => g < globals.len() && globals[g as int].class
                == StorageClass::Storage,
            Expression::FunctionArgument(a) => arg_non_uniform(f, a as int),
            Expression::Binary { left, right } => (left < i && expr_non_uniform(
                f,
                globals,
                left as int,
            )) || (right < i && expr_non_uniform(f, globals, right as int)),
        }
    }
}

/// Expression `i` names an operand that is not defined before it.
pub open spec fn expr_forward(f: &Function, i: int) -> bool {
    match f.expressions@[i] {
        Expression::Binary { left, right } => left >= i || right >= i,
        _ => false,
    }
}

/// The first expression from `i` on that depends on a later one.
pub open spec fn first_forward_expr(f: &Function, i: int) -> Option<usize>
    decreases f.expressions@.len() - i,
{
    if i < 0 || i >= f.expressions@.len() {
        None
    } else if expr_forward(f, i) {
        Some(i as usize)
    } else {
        first_forward_expr(f, i + 1)
    }
}

/// Statement `n` is a branch whose condition is not an expression of `f`.
pub open spec fn bad_condition(f: &Function, n: int) -> bool {
    match f.body@[n] {
        Statement::If { condition } => condition >= f.expressions@.len(),
        _ => false,
    }
}

pub open spec fn first_bad_condition(f: &Function, n: int) -> Option<usize>
    decreases f.body@.len() - n,
{
    if n < 0 || n >= f.body@.len() {
        None
    } else if bad_condition(f, n) {
        Some(n as usize)
    } else {
        first_bad_condition(f, n + 1)
    }
}

/// Statement `n` branches on a value that may differ between invocations.
pub open spec fn divergent_branch(f: &Function, globals: Seq<GlobalVariable>, n: int) -> bool {
    match f.body@[n] {
        Statement::If { condition } => expr_non_uniform(f, globals, condition as int),
        _ => false,
    }
}

/// Whether control may have diverged before statement `n`: some earlier
/// statement branched on a non-uniform condition. Paths that split are never
/// considered to have joined again.
pub open spec fn divergent_before(f: &Function, globals: Seq<GlobalVariable>, n: int) -> bool
    decreases n,
{
    if n <= 0 {
        false
    } else {
        divergent_before(f, globals, n - 1) || divergent_branch(f, globals, n - 1)
    }
}

pub open spec fn divergent_barrier_at(f: &Function, globals: Seq<GlobalVariable>, n: int) -> bool {
    f.body@[n] == Statement::Barrier && divergent_before(f, globals, n)
}

/// The first barrier from statement `n` on that control may reach diverged.
pub open spec fn first_divergent_barrier(
    f: &Function,
    globals: Seq<GlobalVariable>,
    n: int,
) -> Option<usize>
    decreases f.body@.len() - n,
{
    if n < 0 || n >= f.body@.len() {
        None
    } else if divergent_barrier_at(f, globals, n) {
        Some(n as usize)
    } else {
        first_divergent_barrier(f, globals, n + 1)
    }
}

/// Whether `f` reads global `g` in an expression or stores into it.
pub open spec fn uses_global(f: &Function, g: int) -> bool {
    (exists|i: int|
        0 <= i < f.expressions@.len() && #[trigger] f.expressions@[i]
            == Expression::GlobalVariable(g as usize)) || (exists|n: int|
        0 <= n < f.body@.len() && stores_into(#[trigger] f.body@[n], g))
}

pub open spec fn stores_into(s: Statement, g: int) -> bool {
    match s {
        Statement::Store { global, .. } => global == g,
        _ => false,
    }
}

/// The analysis of a function, or the error it stops on.
pub open spec fn function_analysis_error(
    f: &Function,
    origin: FunctionOrigin,
) -> Option<AnalysisError> {
    match first_forward_expr(f, 0) {
        Some(i) => Some(AnalysisError::ForwardDependency { origin, expression: i }),
        None => match first_bad_condition(f, 0) {
            Some(n) => Some(AnalysisError::InvalidCondition { origin, statement: n }),
            None => None,
        },
    }
}

/// `info` holds exactly the facts derived for `f`.
pub open spec fn info_describes(
    info: FunctionInfo,
    f: &Function,
    globals: Seq<GlobalVariable>,
) -> bool {
    &&& info.non_uniform@.len() == f.expressions@.len()
    &&& forall|i: int|
        0 <= i < f.expressions@.len() ==> #[trigger] info.non_uniform@[i] == expr_non_uniform(
            f,
            globals,
            i,
        )
    &&& info.global_uses@.len() == globals.len()
    &&& forall|g: int| 0 <= g < globals.len() ==> #[trigger] info.global_uses@[g] == uses_global(f, g)
    &&& info.divergent_barrier == first_divergent_barrier(f, globals, 0)
}

/// Derives the facts of one function, or reports the first expression that
/// depends on a later one, then the first branch on a missing condition.
pub fn analyze_function(
    f: &Function,
    globals: &Vec<GlobalVariable>,
    origin: FunctionOrigin,
) -> (r: Result<FunctionInfo, AnalysisError>)
    ensures
        r is Ok <==> function_analysis_error(f, origin) is None,
        r matches Err(e) ==> function_analysis_error(f, origin) == Some(e),
        r matches Ok(info) ==> info_describes(info, f, globals@),
{
    let n_expr = f.expressions.len();
    let mut non_uniform: Vec<bool> = Vec::new();
    let mut i: usize = 0;
    while i < n_expr
        invariant
            n_expr == f.expressions@.len(),
            0 <= i <= n_expr,
            non_uniform@.len() == i,
            first_forward_expr(f, 0) == first_forward_expr(f, i as int),
            forall|j: int| 0 <= j < i ==> #[trigger] non_uniform@[j] == expr_non_uniform(f, globals@, j),
        decreases n_expr - i,
    {
        let nu = match f.expressions[i] {
            Expression::Constant(_) => false,
            Expression::GlobalVariable(g) => g < globals.len() && globals[g].class
                == StorageClass::Storage,
            Expression::FunctionArgument(a) => !(a < f.arguments.len() && f.arguments[a].binding
                == Some(Binding::BuiltIn(BuiltIn::WorkGroupId))),
            Expression::Binary { left, right } => {
                if left >= i || right >= i {
                    return Err(AnalysisError::ForwardDependency { origin, expression: i });
                }
                non_uniform[left] || non_uniform[right]
            },
        };
        non_uniform.push(nu);
        i = i + 1;
    }
    let n_stmt = f.body.len();
    let mut divergent = false;
    let mut divergent_barrier: Option<usize> = None;
    let mut n: usize = 0;
    while n < n_stmt
        invariant
            n_expr == f.expressions@.len(),
            n_stmt == f.body@.len(),
            0 <= n <= n_stmt,
            first_forward_expr(f, 0) is None,
            non_uniform@.len() == n_expr,
            forall|j: int| 0 <= j < n_expr ==> #[trigger] non_uniform@[j] == expr_non_uniform(f, globals@, j),
            first_bad_condition(f, 0) == first_bad_condition(f, n as int),
            divergent == divergent_before(f, globals@, n as int),
            first_divergent_barrier(f, globals@, 0) == match divergent_barrier {
                Some(b) => Some(b),
                None => first_divergent_barrier(f, globals@, n as int),
            },
        decreases n_stmt - n,
    {
        match f.body[n] {
            Statement::If { condition } => {
                if condition >= n_expr {
                    return Err(AnalysisError::InvalidCondition { origin, statement: n });
                }
                if non_uniform[condition] {
                    divergent = true;
                }
            },
            Statement::Barrier => {
                if divergent && divergent_barrier.is_none() {
                    divergent_barrier = Some(n);
                }
            },
            _ => {},
        }
        n = n + 1;
    }
    let n_glob = globals.len();
    let mut global_uses: Vec<bool> = Vec::new();
    let mut g: usize = 0;
    while g < n_glob
        invariant
            n_glob == globals@.len(),
            0 <= g <= n_glob,
            global_uses@.len() == g,
            forall|j: int| 0 <= j < g ==> !#[trigger] global_uses@[j],
        decreases n_glob - g,
    {
        global_uses.push(false);
        g = g + 1;
    }
    let mut i: usize = 0;
    while i < n_expr
        invariant
            n_expr == f.expressions@.len(),
            n_glob == globals@.len(),
            0 <= i <= n_expr,
            global_uses@.len() == n_glob,
            forall|j: int|
                0 <= j < n_glob ==> #[trigger] global_uses@[j] == exists|k: int|
                    0 <= k < i && #[trigger] f.expressions@[k] == Expression::GlobalVariable(
                        j as usize,
                    ),
        decreases n_expr - i,
    {
        if let Expression::GlobalVariable(h) = f.expressions[i] {
            if h < n_glob {
                global_uses.set(h, true);
            }
        }
        i = i + 1;
    }
    let mut n: usize = 0;
    while n < n_stmt
        invariant
            n_expr == f.expressions@.len(),
            n_stmt == f.body@.len(),
            n_glob == globals@.len(),
            0 <= n <= n_stmt,
            global_uses@.len() == n_glob,
            forall|j: int|
                0 <= j < n_glob ==> #[trigger] global_uses@[j] == ((exists|k: int|
                    0 <= k < n_expr && #[trigger] f.expressions@[k] == Expression::GlobalVariable(
                        j as usize,
                    )) || (exists|k: int| 0 <= k < n && stores_into(#[trigger] f.body@[k], j))),
        decreases n_stmt - n,
    {
        if let Statement::Store { global, .. } = f.body[n] {
            if global < n_glob {
                global_uses.set(global, true);
            }
        }
        n = n + 1;
    }
    Ok(FunctionInfo { non_uniform, global_uses, divergent_barrier })
}

pub open spec fn fn_analysis_error(m: &Module, k: int) -> Option<AnalysisError> {
    function_analysis_error(&m.functions@[k], FunctionOrigin::Function(k as usize))
}

pub open spec fn ep_analysis_error(m: &Module, k: int) -> Option<AnalysisError> {
    function_analysis_error(&m.entry_points@[k].function, FunctionOrigin::EntryPoint(k as usize))
}

/// Every function and every entry point of `m` can be analysed.
pub open spec fn analysis_ok(m: &Module) -> bool {
    &&& forall|k: int| 0 <= k < m.functions@.len() ==> (#[trigger] fn_analysis_error(m, k)) is None
    &&& forall|k: int|
        0 <= k < m.entry_points@.len() ==> (#[trigger] ep_analysis_error(m, k)) is None
}

/// `e` is the error that the analysis of `m` stops on: that of the first
/// function that fails, or else that of the first entry point that fails.
pub open spec fn is_first_analysis_error(m: &Module, e: AnalysisError) -> bool {
    ||| exists|k: int|
        0 <= k < m.functions@.len() && #[trigger] fn_analysis_error(m, k) == Some(e) && forall|j: int|
            0 <= j < k ==> (#[trigger] fn_analysis_error(m, j)) is None
    ||| (forall|k: int| 0 <= k < m.functions@.len() ==> (#[trigger] fn_analysis_error(m, k)) is None)
        && exists|k: int|
        0 <= k < m.entry_points@.len() && #[trigger] ep_analysis_error(m, k) == Some(e) && forall|
            j: int,
        | 0 <= j < k ==> (#[trigger] ep_analysis_error(m, j)) is None
}

/// `info` holds exactly the facts derived for every function and entry point.
pub open spec fn module_info_describes(info: ModuleInfo, m: &Module) -> bool {
    &&& info.functions@.len() == m.functions@.len()
    &&& forall|k: int|
        0 <= k < m.functions@.len() ==> info_describes(
            #[trigger] info.functions@[k],
            &m.functions@[k],
            m.global_variables@,
        )
    &&& info.entry_points@.len() == m.entry_points@.len()
    &&& forall|k: int|
        0 <= k < m.entry_points@.len() ==> info_describes(
            #[trigger] info.entry_points@[k],
            &m.entry_points@[k].function,
            m.global_variables@,
        )
}

/// Analyses every function, then every entry point, of the module.
pub fn analyze_module(m: &Module) -> (r: Result<ModuleInfo, AnalysisError>)
    ensures
        r is Ok <==> analysis_ok(m),
        r matches Err(e) ==> is_first_analysis_error(m, e),
        r matches Ok(info) ==> module_info_describes(info, m),
{
    let mut functions: Vec<FunctionInfo> = Vec::new();
    let mut k: usize = 0;
    while k < m.functions.len()
        invariant
            0 <= k <= m.functions@.len(),
            functions@.len() == k,
            forall|j: int| 0 <= j < k ==> (#[trigger] fn_analysis_error(m, j)) is None,
            forall|j: int|
                0 <= j < k ==> info_describes(
                    #[trigger] functions@[j],
                    &m.functions@[j],
                    m.global_variables@,
                ),
        decreases m.functions@.len() - k,
    {
        match analyze_function(&m.functions[k], &m.global_variables, FunctionOrigin::Function(k)) {
            Ok(info) => functions.push(info),
            Err(e) => {
                assert(fn_analysis_error(m, k as int) == Some(e));
                return Err(e);
            },
        }
        k = k + 1;
    }
    let mut entry_points: Vec<FunctionInfo> = Vec::new();
    let mut k: usize = 0;
    while k < m.entry_points.len()
        invariant
            0 <= k <= m.entry_points@.len(),
            entry_points@.len() == k,
            forall|j: int| 0 <= j < m.functions@.len() ==> (#[trigger] fn_analysis_error(m, j)) is None,
            forall|j: int| 0 <= j < k ==> (#[trigger] ep_analysis_error(m, j)) is None,
            forall|j: int|
                0 <= j < k ==> info_describes(
                    #[trigger] entry_points@[j],
                    &m.entry_points@[j].function,
                    m.global_variables@,
                ),
        decreases m.entry_points@.len() - k,
    {
        match analyze_function(
            &m.entry_points[k].function,
            &m.global_variables,
            FunctionOrigin::EntryPoint(k),
        ) {
            Ok(info) => entry_points.push(info),
            Err(e) => {
                assert(ep_analysis_error(m, k as int) == Some(e));
                return Err(e);
            },
        }
        k = k + 1;
    }
    Ok(ModuleInfo { functions, entry_points })
}

} // verus!
