//! The module representation under validation. Every cross-reference is an
//! index into one of the module's arenas (a `Vec`), and a well-formed
//! reference points only at an entry defined earlier.
use vstd::prelude::*;

verus! {

/// Kind of a scalar value.
#[derive(Clone, Copy, Debug, PartialEq, Eq, Structural)]
pub enum ScalarKind {
    Sint,
    Uint,
    Float,
    Bool,
}

/// A literal scalar; a float is carried as its IEEE-754 bit pattern.
#[derive(Clone, Copy, Debug, PartialEq, Eq, Structural)]
pub enum ScalarValue {
    Sint(i64),
    Uint(u64),
    Float(u64),
    Bool(bool),
}

impl ScalarValue {
    pub open spec fn spec_scalar_kind(self) -> ScalarKind {
        match self {
            ScalarValue::Sint(_) => ScalarKind::Sint,
            ScalarValue::Uint(_) => ScalarKind::Uint,
            ScalarValue::Float(_) => ScalarKind::Float,
            ScalarValue::Bool(_) => ScalarKind::Bool,
        }
    }

    /// The kind of scalar this literal holds.
    pub fn scalar_kind(&self) -> (r: ScalarKind)
        ensures
            r == self.spec_scalar_kind(),
    {
        match self {
            ScalarValue::Sint(_) => ScalarKind::Sint,
            ScalarValue::Uint(_) => ScalarKind::Uint,
            ScalarValue::Float(_) => ScalarKind::Float,
            ScalarValue::Bool(_) => ScalarKind::Bool,
        }
    }
}

/// Size of an array type: given by a constant, or unbounded.
#[derive(Clone, Copy, Debug, PartialEq, Eq, Structural)]
pub enum ArraySize {
    Constant(usize),
    Dynamic,
}

/// Where a variable lives, and so how it may be bound.
#[derive(Clone, Copy, Debug, PartialEq, Eq, Structural)]
pub enum StorageClass {
    Function,
    Private,
    WorkGroup,
    Uniform,
    Storage,
    Handle,
}

#[derive(Clone, Copy, Debug, PartialEq, Eq, Structural)]
pub struct StructMember {
    pub ty: usize,
    pub offset: u32,
}

#[allow(inconsistent_fields)]
pub enum TypeInner {
    Scalar { kind: ScalarKind, width: u8 },
    Vector { size: u8, kind: ScalarKind, width: u8 },
    Matrix { columns: u8, rows: u8, width: u8 },
    Array { base: usize, size: ArraySize, stride: u32 },
    Pointer { base: usize, class: StorageClass },
    ValuePointer { size: Option<u8>, kind: ScalarKind, width: u8, class: StorageClass },
    Struct { members: Vec<StructMember> },
    Image { arrayed: bool },
    Sampler { comparison: bool },
}

pub struct Type {
    pub name: Option<String>,
    pub inner: TypeInner,
}

pub enum ConstantInner {
    Scalar { width: u8, value: ScalarValue },
    Composite { ty: usize, components: Vec<usize> },
}

pub struct Constant {
    pub name: Option<String>,
    pub inner: ConstantInner,
}

/// A resource slot: bind group and binding index within it.
#[derive(Clone, Copy, Debug, PartialEq, Eq, Structural)]
pub struct ResourceBinding {
    pub group: u32,
    pub binding: u32,
}

pub struct GlobalVariable {
    pub name: Option<String>,
    pub class: StorageClass,
    pub binding: Option<ResourceBinding>,
    pub ty: usize,
}

/// Built-in values that cross the boundary of a pipeline stage.
#[derive(Clone, Copy, Debug, PartialEq, Eq, Structural)]
pub enum BuiltIn {
    Position,
    VertexIndex,
    InstanceIndex,
    FrontFacing,
    FragDepth,
    LocalInvocationId,
    GlobalInvocationId,
    WorkGroupId,
}

/// How an entry point argument or result is bound to the pipeline.
#[derive(Clone, Copy, Debug, PartialEq, Eq, Structural)]
pub enum Binding {
    BuiltIn(BuiltIn),
    Location(u32),
}

pub struct FunctionArgument {
    pub name: Option<String>,
    pub ty: usize,
    pub binding: Option<Binding>,
}

/// A node of a function's expression graph. Operands are indices of earlier
/// expressions of the same function.
#[derive(Clone, Copy, Debug, PartialEq, Eq, Structural)]
pub enum Expression {
    Constant(usize),
    GlobalVariable(usize),
    FunctionArgument(usize),
    Binary { left: usize, right: usize },
}

/// A statement of a function body, written as a flat sequence in which
/// `If`, `Else` and `End` delimit the nested blocks.
#[derive(Clone, Copy, Debug, PartialEq, Eq, Structural)]
pub enum Statement {
    /// Opens a block taken when the condition expression holds.
    If { condition: usize },
    /// Switches the innermost open `If` to its other block.
    Else,
    /// Closes the innermost open `If`.
    End,
    /// Waits until every invocation of the work group arrives here.
    Barrier,
    /// Stores the value of an expression into a global variable.
    Store { global: usize, value: usize },
    Return,
}

pub struct Function {
    pub name: Option<String>,
    pub arguments: Vec<FunctionArgument>,
    pub expressions: Vec<Expression>,
    pub body: Vec<Statement>,
}

#[derive(Clone, Copy, Debug, PartialEq, Eq, Structural)]
pub enum ShaderStage {
    Vertex,
    Fragment,
    Compute,
}

pub struct EntryPoint {
    pub name: String,
    pub stage: ShaderStage,
    /// Bindings of the values the entry point writes to the next stage.
    pub outputs: Vec<Binding>,
    pub function: Function,
}

pub struct Module {
    pub types: Vec<Type>,
    pub constants: Vec<Constant>,
    pub global_variables: Vec<GlobalVariable>,
    pub functions: Vec<Function>,
    pub entry_points: Vec<EntryPoint>,
}

impl TypeInner {
    /// Whether values of this type have a size known at this level.
    pub open spec fn spec_is_sized(&self) -> bool {
        match self {
            TypeInner::Array { size: ArraySize::Dynamic, .. } => false,
            TypeInner::Image { .. } | TypeInner::Sampler { .. } => false,
            _ => true,
        }
    }

    pub fn is_sized(&self) -> (r: bool)
        ensures
            r == self.spec_is_sized(),
    {
        match *self {
            TypeInner::Scalar { .. }
            | TypeInner::Vector { .. }
            | TypeInner::Matrix { .. }
            | TypeInner::Array { size: ArraySize::Constant(_), .. }
            | TypeInner::Pointer { .. }
            | TypeInner::ValuePointer { .. }
            | TypeInner::Struct { .. } => true,
            TypeInner::Array { .. } | TypeInner::Image { .. } | TypeInner::Sampler { .. } => false,
        }
    }
}

} // verus!
