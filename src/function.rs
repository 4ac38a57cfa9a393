//! Checks of function bodies: argument types, the references held by
//! expressions, and the block structure of the statements.
use vstd::prelude::*;
use crate::ir::{Expression, Function, Module, Statement};
use crate::valid::ValidationFlags;

verus! {

#[derive(Clone, Copy, Debug, PartialEq, Eq, Structural)]
pub enum FunctionError {
    /// The type of this argument is not a type of the module.
    InvalidArgumentType(usize),
    /// This expression refers to a missing constant, global or argument.
    InvalidExpression(usize),
    /// This statement closes or switches a block that is not open.
    UnbalancedBlock(usize),
    /// A block opened by the statement at this index is never closed.
    UnclosedBlock(usize),
    /// This store names a missing global variable or expression.
    InvalidStore(usize),
}

pub open spec fn first_bad_argument(m: &Module, f: &Function, i: int) -> Option<usize>
    decreases f.arguments@.len() - i,
{
    if i < 0 || i >= f.arguments@.len() {
        None
    } else if f.arguments@[i].ty >= m.types@.len() {
        Some(i as usize)
    } else {
        first_bad_argument(m, f, i + 1)
    }
}

/// Expression `i` of `f` names something that does not exist.
pub open spec fn expr_unresolved(m: &Module, f: &Function, i: int) -> bool {
    match f.expressions@[i] {
        Expression::Constant(c) => c >= m.constants@.len(),
        Expression::GlobalVariable(g) => g >= m.global_variables@.len(),
        Expression::FunctionArgument(a) => a >= f.arguments@.len(),
        Expression::Binary { .. } => false,
    }
}

pub open spec fn first_unresolved_expr(m: &Module, f: &Function, i: int) -> Option<usize>
    decreases f.expressions@.len() - i,
{
    if i < 0 || i >= f.expressions@.len() {
        None
    } else if expr_unresolved(m, f, i) {
        Some(i as usize)
    } else {
        first_unresolved_expr(m, f, i + 1)
    }
}

/// The blocks open before statement `n`, innermost last, each with whether
/// its `Else` has been seen.
pub open spec fn open_blocks(f: &Function, n: int) -> Seq<(usize, bool)>
    decreases n,
{
    if n <= 0 {
        Seq::empty()
    } else {
        let s = open_blocks(f, n - 1);
        match f.body@[n - 1] {
            Statement::If { .. } => s.push(((n - 1) as usize, false)),
            Statement::Else => if s.len() > 0 {
                s.update(s.len() - 1, (s.last().0, true))
            } else {
                s
            },
            Statement::End => if s.len() > 0 {
                s.drop_last()
            } else {
                s
            },
            _ => s,
        }
    }
}

/// What is wrong with statement `n` of `f`, given the blocks open before it.
pub open spec fn statement_error(m: &Module, f: &Function, n: int) -> Option<FunctionError> {
    let s = open_blocks(f, n);
    match f.body@[n] {
        Statement::Else => if s.len() == 0 || s.last().1 {
            Some(FunctionError::UnbalancedBlock(n as usize))
        } else {
            None
        },
        Statement::End => if s.len() == 0 {
            Some(FunctionError::UnbalancedBlock(n as usize))
        } else {
            None
        },
        Statement::Store { global, value } => if global >= m.global_variables@.len() || value
            >= f.expressions@.len() {
            Some(FunctionError::InvalidStore(n as usize))
        } else {
            None
        },
        _ => None,
    }
}

/// The first error of the block structure from statement `n` on, counting a
/// block left open at the end.
pub open spec fn first_block_error(m: &Module, f: &Function, n: int) -> Option<FunctionError>
    decreases f.body@.len() - n,
{
    if n < 0 || n > f.body@.len() {
        None
    } else if n == f.body@.len() {
        let s = open_blocks(f, n);
        if s.len() > 0 {
            Some(FunctionError::UnclosedBlock(s.last().0))
        } else {
            None
        }
    } else if statement_error(m, f, n) is Some {
        statement_error(m, f, n)
    } else {
        first_block_error(m, f, n + 1)
    }
}

/// What the function checker reports on `f` under `flags`: argument types
/// always, expressions only under EXPRESSIONS, blocks only under BLOCKS.
pub open spec fn function_error(flags: ValidationFlags, m: &Module, f: &Function) -> Option<
    FunctionError,
> {
    if first_bad_argument(m, f, 0) is Some {
        Some(FunctionError::InvalidArgumentType(first_bad_argument(m, f, 0)->0))
    } else if flags.spec_expressions() && first_unresolved_expr(m, f, 0) is Some {
        Some(FunctionError::InvalidExpression(first_unresolved_expr(m, f, 0)->0))
    } else if flags.spec_blocks() {
        first_block_error(m, f, 0)
    } else {
        None
    }
}

pub fn validate_function(flags: ValidationFlags, f: &Function, module: &Module) -> (r: Result<
    (),
    FunctionError,
>)
    ensures
        r is Ok <==> function_error(flags, module, f) is None,
        r matches Err(e) ==> function_error(flags, module, f) == Some(e),
{
    let mut i: usize = 0;
    while i < f.arguments.len()
        invariant
            0 <= i <= f.arguments@.len(),
            first_bad_argument(module, f, 0) == first_bad_argument(module, f, i as int),
        decreases f.arguments@.len() - i,
    {
        if f.arguments[i].ty >= module.types.len() {
            return Err(FunctionError::InvalidArgumentType(i));
        }
        i = i + 1;
    }
    if flags.expressions() {
        let mut i: usize = 0;
        while i < f.expressions.len()
            invariant
                0 <= i <= f.expressions@.len(),
                flags.spec_expressions(),
                first_bad_argument(module, f, 0) is None,
                first_unresolved_expr(module, f, 0) == first_unresolved_expr(module, f, i as int),
            decreases f.expressions@.len() - i,
        {
            let bad = match f.expressions[i] {
                Expression::Constant(c) => c >= module.constants.len(),
                Expression::GlobalVariable(g) => g >= module.global_variables.len(),
                Expression::FunctionArgument(a) => a >= f.arguments.len(),
                Expression::Binary { .. } => false,
            };
            if bad {
                return Err(FunctionError::InvalidExpression(i));
            }
            i = i + 1;
        }
    }
    if flags.blocks() {
        let mut open: Vec<(usize, bool)> = Vec::new();
        let mut n: usize = 0;
        while n < f.body.len()
            invariant
                0 <= n <= f.body@.len(),
                flags.spec_blocks(),
                first_bad_argument(module, f, 0) is None,
                !flags.spec_expressions() || first_unresolved_expr(module, f, 0) is None,
                open@ == open_blocks(f, n as int),
                first_block_error(module, f, 0) == first_block_error(module, f, n as int),
            decreases f.body@.len() - n,
        {
            match f.body[n] {
                Statement::If { .. } => {
                    open.push((n, false));
                },
                Statement::Else => {
                    let len = open.len();
                    if len == 0 || open[len - 1].1 {
                        return Err(FunctionError::UnbalancedBlock(n));
                    }
                    let start = open[len - 1].0;
                    open.set(len - 1, (start, true));
                },
                Statement::End => {
                    if open.len() == 0 {
                        return Err(FunctionError::UnbalancedBlock(n));
                    }
                    open.pop();
                },
                Statement::Store { global, value } => {
                    if global >= module.global_variables.len() || value >= f.expressions.len() {
                        return Err(FunctionError::InvalidStore(n));
                    }
                },
                _ => {},
            }
            n = n + 1;
        }
        if open.len() > 0 {
            return Err(FunctionError::UnclosedBlock(open[open.len() - 1].0));
        }
    }
    Ok(())
}

} // verus!
