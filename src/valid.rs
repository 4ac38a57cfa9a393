//! The validator: runs the analysis, then checks constants, types, global
//! variables, functions and entry points, and stops at the first failure.
use vstd::prelude::*;
use crate::analyzer::{
    analysis_ok, analyze_module, is_first_analysis_error, module_info_describes, AnalysisError,
    ModuleInfo,
};
use crate::bits::{bit_set_members, new_bit_set};
use crate::function::{function_error, validate_function, FunctionError};
use crate::interface::{
    check_entry_point, entry_point_error, global_error, validate_global_var, EntryPointError,
    GlobalVariableError,
};
use crate::ir::{
    ArraySize, Constant, ConstantInner, Module, ScalarKind, ScalarValue, ShaderStage, StructMember,
    TypeInner,
};

verus! {

/// Which optional classes of checks a validator runs.
#[derive(Clone, Copy, Debug, PartialEq, Eq, Structural)]
pub struct ValidationFlags {
    pub bits: u8,
}

pub const EXPRESSIONS_BIT: u8 = 1;

pub const BLOCKS_BIT: u8 = 2;

pub const CONTROL_FLOW_UNIFORMITY_BIT: u8 = 4;

impl ValidationFlags {
    pub open spec fn spec_expressions(self) -> bool {
        self.bits & EXPRESSIONS_BIT != 0
    }

    pub open spec fn spec_blocks(self) -> bool {
        self.bits & BLOCKS_BIT != 0
    }

    pub open spec fn spec_uniformity(self) -> bool {
        self.bits & CONTROL_FLOW_UNIFORMITY_BIT != 0
    }

    /// The flags of the given bits; bits that name no flag are dropped.
    pub fn from_bits_truncate(bits: u8) -> (r: Self)
        ensures
            r.bits == bits & 7,
    {
        ValidationFlags { bits: bits & 7 }
    }

    pub fn empty() -> (r: Self)
        ensures
            r.bits == 0,
            !r.spec_expressions() && !r.spec_blocks() && !r.spec_uniformity(),
    {
        let r = ValidationFlags { bits: 0 };
        assert(0u8 & 1 == 0 && 0u8 & 2 == 0 && 0u8 & 4 == 0) by (bit_vector);
        r
    }

    pub fn all() -> (r: Self)
        ensures
            r.bits == 7,
            r.spec_expressions() && r.spec_blocks() && r.spec_uniformity(),
    {
        let r = ValidationFlags { bits: 7 };
        assert(7u8 & 1 != 0 && 7u8 & 2 != 0 && 7u8 & 4 != 0) by (bit_vector);
        r
    }

    pub fn expressions(&self) -> (r: bool)
        ensures
            r == self.spec_expressions(),
    {
        self.bits & EXPRESSIONS_BIT != 0
    }

    pub fn blocks(&self) -> (r: bool)
        ensures
            r == self.spec_blocks(),
    {
        self.bits & BLOCKS_BIT != 0
    }

    pub fn control_flow_uniformity(&self) -> (r: bool)
        ensures
            r == self.spec_uniformity(),
    {
        self.bits & CONTROL_FLOW_UNIFORMITY_BIT != 0
    }
}

#[derive(Clone, Copy, Debug, PartialEq, Eq, Structural)]
pub enum ConstantError {
    /// The type does not match the constant.
    InvalidType,
    /// A component handle does not refer to an earlier constant.
    UnresolvedComponent(usize),
    /// The array size handle does not refer to an earlier constant.
    UnresolvedSize(usize),
}

/// Whether `width` bytes is a legal width for a scalar of `kind`.
pub open spec fn width_fits(kind: ScalarKind, width: u8) -> bool {
    match kind {
        ScalarKind::Bool => width == 1,
        _ => width == 4,
    }
}

pub fn check_width(kind: ScalarKind, width: u8) -> (r: bool)
    ensures
        r == width_fits(kind, width),
{
    match kind {
        ScalarKind::Bool => width == 1,
        _ => width == 4,
    }
}

/// The first entry of `s` from position `i` on that is at least `k`.
pub open spec fn first_at_least(s: Seq<usize>, k: int, i: int) -> Option<usize>
    decreases s.len() - i,
{
    if i < 0 || i >= s.len() {
        None
    } else if s[i] >= k {
        Some(s[i])
    } else {
        first_at_least(s, k, i + 1)
    }
}

/// What is wrong with constant `k` of the module, if anything.
pub open spec fn constant_error(m: &Module, k: int) -> Option<ConstantError> {
    match m.constants@[k].inner {
        ConstantInner::Scalar { width, value } => {
            if width_fits(value.spec_scalar_kind(), width) {
                None
            } else {
                Some(ConstantError::InvalidType)
            }
        },
        ConstantInner::Composite { ty, components } => {
            if ty >= m.types@.len() {
                Some(ConstantError::InvalidType)
            } else {
                match m.types@[ty as int].inner {
                    TypeInner::Array { size: ArraySize::Dynamic, .. } => Some(
                        ConstantError::InvalidType,
                    ),
                    TypeInner::Array { size: ArraySize::Constant(s), .. } if s >= k => Some(
                        ConstantError::UnresolvedSize(s),
                    ),
                    _ => match first_at_least(components@, k, 0) {
                        Some(c) => Some(ConstantError::UnresolvedComponent(c)),
                        None => None,
                    },
                }
            }
        },
    }
}

pub fn validate_constant(handle: usize, module: &Module) -> (r: Result<(), ConstantError>)
    requires
        handle < module.constants@.len(),
    ensures
        r is Ok <==> constant_error(module, handle as int) is None,
        r matches Err(e) ==> constant_error(module, handle as int) == Some(e),
{
    let con: &Constant = &module.constants[handle];
    match &con.inner {
        ConstantInner::Scalar { width, value } => {
            if !check_width(value.scalar_kind(), *width) {
                return Err(ConstantError::InvalidType);
            }
        },
        ConstantInner::Composite { ty, components } => {
            if *ty >= module.types.len() {
                return Err(ConstantError::InvalidType);
            }
            match module.types[*ty].inner {
                TypeInner::Array { size: ArraySize::Dynamic, .. } => {
                    return Err(ConstantError::InvalidType);
                },
                TypeInner::Array { size: ArraySize::Constant(size_handle), .. } => {
                    if handle <= size_handle {
                        return Err(ConstantError::UnresolvedSize(size_handle));
                    }
                },
                _ => {},
            }
            let mut i: usize = 0;
            while i < components.len()
                invariant
                    0 <= i <= components@.len(),
                    constant_error(module, handle as int) == match first_at_least(
                        components@,
                        handle as int,
                        0,
                    ) {
                        Some(c) => Some(ConstantError::UnresolvedComponent(c)),
                        None => None,
                    },
                    first_at_least(components@, handle as int, 0)
                        == first_at_least(components@, handle as int, i as int),
                decreases components@.len() - i,
            {
                let comp = components[i];
                if handle <= comp {
                    return Err(ConstantError::UnresolvedComponent(comp));
                }
                i = i + 1;
            }
        },
    }
    Ok(())
}

#[derive(Clone, Copy, Debug, PartialEq, Eq, Structural)]
pub enum TypeError {
    /// A scalar of this kind cannot have this width.
    InvalidWidth(ScalarKind, u8),
    /// A vector has other than two to four components.
    InvalidVectorSize(u8),
    /// A matrix has other than two to four columns or rows.
    InvalidMatrixSize { columns: u8, rows: u8 },
    /// A referenced type is not defined before this one.
    UnresolvedBase(usize),
    /// The element type of an array has no known size.
    InvalidArrayBaseType(usize),
    /// The size of an array does not name an integer constant of the module.
    InvalidArraySizeConstant(usize),
    /// The size of an array is a constant that is zero or negative.
    NonPositiveArrayLength(usize),
    /// An array stride or a member offset breaks the alignment of its type.
    Disalignment(Disalignment),
}

#[derive(Clone, Copy, Debug, PartialEq, Eq, Structural)]
pub enum Disalignment {
    ArrayStride { stride: u32, alignment: u32 },
    MemberOffset { index: usize, offset: u32, alignment: u32 },
}

/// Number of components a vector of `n` takes room for.
pub open spec fn padded_count(n: u8) -> u32 {
    if n == 3 {
        4
    } else {
        n as u32
    }
}

/// The alignment in bytes that values of this type need, where it follows
/// from the type alone; 0 where it does not (arrays, structures, pointers
/// and opaque types, whose layout is computed elsewhere).
pub open spec fn type_alignment(inner: TypeInner) -> u32 {
    match inner {
        TypeInner::Scalar { width, .. } => width as u32,
        TypeInner::Vector { size, width, .. } => ((width as u32) * padded_count(size)) as u32,
        TypeInner::Matrix { rows, width, .. } => ((width as u32) * padded_count(rows)) as u32,
        _ => 0,
    }
}

pub fn alignment(inner: &TypeInner) -> (r: u32)
    ensures
        r == type_alignment(*inner),
{
    match inner {
        TypeInner::Scalar { width, .. } => *width as u32,
        TypeInner::Vector { size, width, .. } => {
            let n: u32 = if *size == 3 { 4 } else { *size as u32 };
            let w: u32 = *width as u32;
            assert(w * n <= 255 * 255) by (nonlinear_arith)
                requires
                    w <= 255,
                    n <= 255,
            ;
            w * n
        },
        TypeInner::Matrix { rows, width, .. } => {
            let n: u32 = if *rows == 3 { 4 } else { *rows as u32 };
            let w: u32 = *width as u32;
            assert(w * n <= 255 * 255) by (nonlinear_arith)
                requires
                    w <= 255,
                    n <= 255,
            ;
            w * n
        },
        _ => 0,
    }
}

/// `offset` breaks an alignment requirement of `alignment` bytes.
pub open spec fn misaligned(offset: u32, alignment: u32) -> bool {
    alignment != 0 && offset % alignment != 0
}

/// What is wrong with a constant used as an array length, if anything.
pub open spec fn array_length_error(m: &Module, c: usize) -> Option<TypeError> {
    if c >= m.constants@.len() {
        Some(TypeError::InvalidArraySizeConstant(c))
    } else {
        match m.constants@[c as int].inner {
            ConstantInner::Scalar { value: ScalarValue::Uint(v), .. } => if v == 0 {
                Some(TypeError::NonPositiveArrayLength(c))
            } else {
                None
            },
            ConstantInner::Scalar { value: ScalarValue::Sint(v), .. } => if v <= 0 {
                Some(TypeError::NonPositiveArrayLength(c))
            } else {
                None
            },
            _ => Some(TypeError::InvalidArraySizeConstant(c)),
        }
    }
}

/// The first struct member from `i` on whose offset breaks the alignment of
/// its type.
pub open spec fn first_misaligned_member(m: &Module, s: Seq<StructMember>, i: int) -> Option<TypeError>
    decreases s.len() - i,
{
    if i < 0 || i >= s.len() {
        None
    } else if s[i].ty < m.types@.len() && misaligned(
        s[i].offset,
        type_alignment(m.types@[s[i].ty as int].inner),
    ) {
        Some(
            TypeError::Disalignment(
                Disalignment::MemberOffset {
                    index: i as usize,
                    offset: s[i].offset,
                    alignment: type_alignment(m.types@[s[i].ty as int].inner),
                },
            ),
        )
    } else {
        first_misaligned_member(m, s, i + 1)
    }
}

pub open spec fn count_ok(n: u8) -> bool {
    2 <= n <= 4
}

/// The first struct member from `i` on whose type is not defined before
/// type `h`.
pub open spec fn first_unresolved_member(s: Seq<StructMember>, h: int, i: int) -> Option<usize>
    decreases s.len() - i,
{
    if i < 0 || i >= s.len() {
        None
    } else if s[i].ty >= h {
        Some(s[i].ty)
    } else {
        first_unresolved_member(s, h, i + 1)
    }
}

/// What is wrong with type `h` of the module, if anything.
pub open spec fn type_error(m: &Module, h: int) -> Option<TypeError> {
    match m.types@[h].inner {
        TypeInner::Scalar { kind, width } | TypeInner::ValuePointer { kind, width, .. } => {
            if width_fits(kind, width) {
                None
            } else {
                Some(TypeError::InvalidWidth(kind, width))
            }
        },
        TypeInner::Vector { size, kind, width } => {
            if !count_ok(size) {
                Some(TypeError::InvalidVectorSize(size))
            } else if !width_fits(kind, width) {
                Some(TypeError::InvalidWidth(kind, width))
            } else {
                None
            }
        },
        TypeInner::Matrix { columns, rows, width } => {
            if !count_ok(columns) || !count_ok(rows) {
                Some(TypeError::InvalidMatrixSize { columns, rows })
            } else if !width_fits(ScalarKind::Float, width) {
                Some(TypeError::InvalidWidth(ScalarKind::Float, width))
            } else {
                None
            }
        },
        TypeInner::Array { base, size, stride } => {
            if base >= h {
                Some(TypeError::UnresolvedBase(base))
            } else if !m.types@[base as int].inner.spec_is_sized() {
                Some(TypeError::InvalidArrayBaseType(base))
            } else if size is Constant && array_length_error(m, size->Constant_0) is Some {
                array_length_error(m, size->Constant_0)
            } else if misaligned(stride, type_alignment(m.types@[base as int].inner)) {
                Some(
                    TypeError::Disalignment(
                        Disalignment::ArrayStride {
                            stride,
                            alignment: type_alignment(m.types@[base as int].inner),
                        },
                    ),
                )
            } else {
                None
            }
        },
        TypeInner::Pointer { base, .. } => {
            if base >= h {
                Some(TypeError::UnresolvedBase(base))
            } else {
                None
            }
        },
        TypeInner::Struct { members } => match first_unresolved_member(members@, h, 0) {
            Some(t) => Some(TypeError::UnresolvedBase(t)),
            None => first_misaligned_member(m, members@, 0),
        },
        TypeInner::Image { .. } | TypeInner::Sampler { .. } => None,
    }
}

fn check_count(n: u8) -> (r: bool)
    ensures
        r == count_ok(n),
{
    2 <= n && n <= 4
}

pub fn validate_type(handle: usize, module: &Module) -> (r: Result<(), TypeError>)
    requires
        handle < module.types@.len(),
    ensures
        r is Ok <==> type_error(module, handle as int) is None,
        r matches Err(e) ==> type_error(module, handle as int) == Some(e),
{
    match &module.types[handle].inner {
        TypeInner::Scalar { kind, width } | TypeInner::ValuePointer { kind, width, .. } => {
            if !check_width(*kind, *width) {
                return Err(TypeError::InvalidWidth(*kind, *width));
            }
        },
        TypeInner::Vector { size, kind, width } => {
            if !check_count(*size) {
                return Err(TypeError::InvalidVectorSize(*size));
            }
            if !check_width(*kind, *width) {
                return Err(TypeError::InvalidWidth(*kind, *width));
            }
        },
        TypeInner::Matrix { columns, rows, width } => {
            if !check_count(*columns) || !check_count(*rows) {
                return Err(TypeError::InvalidMatrixSize { columns: *columns, rows: *rows });
            }
            if !check_width(ScalarKind::Float, *width) {
                return Err(TypeError::InvalidWidth(ScalarKind::Float, *width));
            }
        },
        TypeInner::Array { base, size, stride } => {
            if *base >= handle {
                return Err(TypeError::UnresolvedBase(*base));
            }
            if !module.types[*base].inner.is_sized() {
                return Err(TypeError::InvalidArrayBaseType(*base));
            }
            if let ArraySize::Constant(c) = size {
                if *c >= module.constants.len() {
                    return Err(TypeError::InvalidArraySizeConstant(*c));
                }
                match module.constants[*c].inner {
                    ConstantInner::Scalar { value: ScalarValue::Uint(v), .. } => {
                        if v == 0 {
                            return Err(TypeError::NonPositiveArrayLength(*c));
                        }
                    },
                    ConstantInner::Scalar { value: ScalarValue::Sint(v), .. } => {
                        if v <= 0 {
                            return Err(TypeError::NonPositiveArrayLength(*c));
                        }
                    },
                    _ => {
                        return Err(TypeError::InvalidArraySizeConstant(*c));
                    },
                }
            }
            let align = alignment(&module.types[*base].inner);
            if align != 0 && *stride % align != 0 {
                return Err(
                    TypeError::Disalignment(
                        Disalignment::ArrayStride { stride: *stride, alignment: align },
                    ),
                );
            }
        },
        TypeInner::Pointer { base, .. } => {
            if *base >= handle {
                return Err(TypeError::UnresolvedBase(*base));
            }
        },
        TypeInner::Struct { members } => {
            let mut i: usize = 0;
            while i < members.len()
                invariant
                    0 <= i <= members@.len(),
                    type_error(module, handle as int) == match first_unresolved_member(
                        members@,
                        handle as int,
                        0,
                    ) {
                        Some(t) => Some(TypeError::UnresolvedBase(t)),
                        None => first_misaligned_member(module, members@, 0),
                    },
                    forall|j: int| 0 <= j < i ==> #[trigger] members@[j].ty < handle,
                    first_unresolved_member(members@, handle as int, 0)
                        == first_unresolved_member(members@, handle as int, i as int),
                decreases members@.len() - i,
            {
                if members[i].ty >= handle {
                    return Err(TypeError::UnresolvedBase(members[i].ty));
                }
                i = i + 1;
            }
            let mut i: usize = 0;
            while i < members.len()
                invariant
                    0 <= i <= members@.len(),
                    handle < module.types@.len(),
                    type_error(module, handle as int) == first_misaligned_member(
                        module,
                        members@,
                        0,
                    ),
                    first_misaligned_member(module, members@, 0) == first_misaligned_member(
                        module,
                        members@,
                        i as int,
                    ),
                    forall|j: int| 0 <= j < members@.len() ==> #[trigger] members@[j].ty < handle,
                decreases members@.len() - i,
            {
                let member = members[i];
                let align = alignment(&module.types[member.ty].inner);
                if align != 0 && member.offset % align != 0 {
                    return Err(
                        TypeError::Disalignment(
                            Disalignment::MemberOffset {
                                index: i,
                                offset: member.offset,
                                alignment: align,
                            },
                        ),
                    );
                }
                i = i + 1;
            }
        },
        TypeInner::Image { .. } | TypeInner::Sampler { .. } => {},
    }
    Ok(())
}

/// Why a module was rejected: the failing entity, its handle and display
/// name, and the nested cause.
#[allow(inconsistent_fields)]
#[derive(Clone, Debug, PartialEq, Eq)]
pub enum ValidationError {
    Type { handle: usize, name: String, error: TypeError },
    Constant { handle: usize, name: String, error: ConstantError },
    GlobalVariable { handle: usize, name: String, error: GlobalVariableError },
    Function { handle: usize, name: String, error: FunctionError },
    EntryPoint { stage: ShaderStage, name: String, error: EntryPointError },
    Analysis(AnalysisError),
    Corrupted,
}

/// The display name of an entity: its name, or empty when it has none.
pub open spec fn name_of(name: Option<String>) -> Seq<char> {
    match name {
        Some(s) => s@,
        None => Seq::empty(),
    }
}

fn display_name(name: &Option<String>) -> (r: String)
    ensures
        r@ == name_of(*name),
{
    match name {
        Some(s) => s.clone(),
        None => String::new(),
    }
}

pub open spec fn constants_ok(m: &Module) -> bool {
    forall|k: int| 0 <= k < m.constants@.len() ==> (#[trigger] constant_error(m, k)) is None
}

pub open spec fn types_ok(m: &Module) -> bool {
    forall|k: int| 0 <= k < m.types@.len() ==> (#[trigger] type_error(m, k)) is None
}

pub open spec fn globals_ok(m: &Module) -> bool {
    forall|k: int| 0 <= k < m.global_variables@.len() ==> (#[trigger] global_error(m, k)) is None
}

pub open spec fn fn_error(flags: ValidationFlags, m: &Module, k: int) -> Option<FunctionError> {
    function_error(flags, m, &m.functions@[k])
}

pub open spec fn functions_ok(flags: ValidationFlags, m: &Module) -> bool {
    forall|k: int| 0 <= k < m.functions@.len() ==> (#[trigger] fn_error(flags, m, k)) is None
}

/// Entry point `k` has the stage and name of an earlier one.
pub open spec fn ep_conflict(m: &Module, k: int) -> bool {
    exists|j: int|
        0 <= j < k && (#[trigger] m.entry_points@[j]).stage == m.entry_points@[k].stage
            && m.entry_points@[j].name@ == m.entry_points@[k].name@
}

/// No two entry points share a stage and a name.
pub open spec fn no_conflicts(m: &Module) -> bool {
    forall|k: int| 0 <= k < m.entry_points@.len() ==> !#[trigger] ep_conflict(m, k)
}

/// What the checks of entry point `k` itself report, if anything.
pub open spec fn ep_error(flags: ValidationFlags, m: &Module, k: int) -> Option<EntryPointError> {
    entry_point_error(flags, m, &m.entry_points@[k])
}

pub open spec fn entry_points_ok(flags: ValidationFlags, m: &Module) -> bool {
    &&& no_conflicts(m)
    &&& forall|k: int| 0 <= k < m.entry_points@.len() ==> (#[trigger] ep_error(flags, m, k)) is None
}

/// `error`, reported on entry point `k`, is what the entry point pass
/// reports: the duplicate check runs over the whole module first, so a
/// conflict, at the least index that has one, wins over every other error;
/// without one, the first entry point whose own checks fail is reported.
pub open spec fn ep_reported(flags: ValidationFlags, m: &Module, k: int, error: EntryPointError) -> bool {
    if !no_conflicts(m) {
        &&& ep_conflict(m, k)
        &&& forall|j: int| 0 <= j < k ==> !#[trigger] ep_conflict(m, j)
        &&& error == EntryPointError::Conflict
    } else {
        &&& ep_error(flags, m, k) == Some(error)
        &&& forall|j: int| 0 <= j < k ==> (#[trigger] ep_error(flags, m, j)) is None
    }
}

/// Every pass accepts the module.
pub open spec fn module_valid(flags: ValidationFlags, m: &Module) -> bool {
    &&& analysis_ok(m)
    &&& constants_ok(m)
    &&& types_ok(m)
    &&& globals_ok(m)
    &&& functions_ok(flags, m)
    &&& entry_points_ok(flags, m)
}

/// `e` is what validation of `m` reports: the first failing entity of the
/// first pass that fails, passes running in the order analysis, constants,
/// types, global variables, functions, entry points.
pub open spec fn reports(flags: ValidationFlags, m: &Module, e: ValidationError) -> bool {
    match e {
        ValidationError::Analysis(a) => is_first_analysis_error(m, a),
        ValidationError::Constant { handle, name, error } => {
            &&& analysis_ok(m)
            &&& handle < m.constants@.len()
            &&& constant_error(m, handle as int) == Some(error)
            &&& forall|j: int| 0 <= j < handle ==> (#[trigger] constant_error(m, j)) is None
            &&& name@ == name_of(m.constants@[handle as int].name)
        },
        ValidationError::Type { handle, name, error } => {
            &&& analysis_ok(m) && constants_ok(m)
            &&& handle < m.types@.len()
            &&& type_error(m, handle as int) == Some(error)
            &&& forall|j: int| 0 <= j < handle ==> (#[trigger] type_error(m, j)) is None
            &&& name@ == name_of(m.types@[handle as int].name)
        },
        ValidationError::GlobalVariable { handle, name, error } => {
            &&& analysis_ok(m) && constants_ok(m) && types_ok(m)
            &&& handle < m.global_variables@.len()
            &&& global_error(m, handle as int) == Some(error)
            &&& forall|j: int| 0 <= j < handle ==> (#[trigger] global_error(m, j)) is None
            &&& name@ == name_of(m.global_variables@[handle as int].name)
        },
        ValidationError::Function { handle, name, error } => {
            &&& analysis_ok(m) && constants_ok(m) && types_ok(m) && globals_ok(m)
            &&& handle < m.functions@.len()
            &&& fn_error(flags, m, handle as int) == Some(error)
            &&& forall|j: int| 0 <= j < handle ==> (#[trigger] fn_error(flags, m, j)) is None
            &&& name@ == name_of(m.functions@[handle as int].name)
        },
        ValidationError::EntryPoint { stage, name, error } => {
            &&& analysis_ok(m) && constants_ok(m) && types_ok(m) && globals_ok(m)
            &&& functions_ok(flags, m)
            &&& exists|k: int|
                0 <= k < m.entry_points@.len() && #[trigger] ep_reported(flags, m, k, error)
                    && stage == m.entry_points@[k].stage && name@ == m.entry_points@[k].name@
        },
        ValidationError::Corrupted => false,
    }
}

/// A reusable validator: the flags it checks under, and scratch space that
/// each run resets.
pub struct Validator {
    flags: ValidationFlags,
    location_mask: bit_set::BitSet,
    bind_group_masks: Vec<bit_set::BitSet>,
}

impl Validator {
    pub closed spec fn spec_flags(&self) -> ValidationFlags {
        self.flags
    }

    /// The locations held by the scratch mask of varying locations.
    pub closed spec fn location_members(&self) -> Set<usize> {
        bit_set_members(self.location_mask)
    }

    /// The number of bind groups that the scratch binding masks cover.
    pub closed spec fn bind_group_count(&self) -> nat {
        self.bind_group_masks@.len()
    }

    /// Construct a new validator instance, with empty scratch state.
    pub fn new(flags: ValidationFlags) -> (r: Self)
        ensures
            r.spec_flags() == flags,
            r.location_members() == Set::<usize>::empty(),
            r.bind_group_count() == 0,
    {
        Validator { flags, location_mask: new_bit_set(), bind_group_masks: Vec::new() }
    }

    /// Check the given module to be valid. The outcome depends on the flags
    /// and the module alone, never on earlier runs.
    pub fn validate(&mut self, module: &Module) -> (r: Result<ModuleInfo, ValidationError>)
        ensures
            final(self).spec_flags() == old(self).spec_flags(),
            r is Ok <==> module_valid(old(self).spec_flags(), module),
            r matches Ok(info) ==> module_info_describes(info, module),
            r matches Err(e) ==> reports(old(self).spec_flags(), module, e),
    {
        let flags = self.flags;
        let mod_info = match analyze_module(module) {
            Ok(info) => info,
            Err(e) => {
                return Err(ValidationError::Analysis(e));
            },
        };
        let mut k: usize = 0;
        while k < module.constants.len()
            invariant
                flags == old(self).flags,
                self.flags == old(self).flags,
                0 <= k <= module.constants@.len(),
                analysis_ok(module),
                forall|j: int| 0 <= j < k ==> (#[trigger] constant_error(module, j)) is None,
            decreases module.constants@.len() - k,
        {
            match validate_constant(k, module) {
                Ok(()) => {},
                Err(error) => {
                    return Err(
                        ValidationError::Constant {
                            handle: k,
                            name: display_name(&module.constants[k].name),
                            error,
                        },
                    );
                },
            }
            k = k + 1;
        }
        let mut k: usize = 0;
        while k < module.types.len()
            invariant
                flags == old(self).flags,
                self.flags == old(self).flags,
                0 <= k <= module.types@.len(),
                analysis_ok(module) && constants_ok(module),
                forall|j: int| 0 <= j < k ==> (#[trigger] type_error(module, j)) is None,
            decreases module.types@.len() - k,
        {
            match validate_type(k, module) {
                Ok(()) => {},
                Err(error) => {
                    return Err(
                        ValidationError::Type {
                            handle: k,
                            name: display_name(&module.types[k].name),
                            error,
                        },
                    );
                },
            }
            k = k + 1;
        }
        let mut k: usize = 0;
        while k < module.global_variables.len()
            invariant
                flags == old(self).flags,
                self.flags == old(self).flags,
                0 <= k <= module.global_variables@.len(),
                analysis_ok(module) && constants_ok(module) && types_ok(module),
                forall|j: int| 0 <= j < k ==> (#[trigger] global_error(module, j)) is None,
            decreases module.global_variables@.len() - k,
        {
            match validate_global_var(k, module) {
                Ok(()) => {},
                Err(error) => {
                    return Err(
                        ValidationError::GlobalVariable {
                            handle: k,
                            name: display_name(&module.global_variables[k].name),
                            error,
                        },
                    );
                },
            }
            k = k + 1;
        }
        let mut k: usize = 0;
        while k < module.functions.len()
            invariant
                flags == old(self).flags,
                self.flags == old(self).flags,
                0 <= k <= module.functions@.len(),
                analysis_ok(module) && constants_ok(module) && types_ok(module) && globals_ok(
                    module,
                ),
                forall|j: int| 0 <= j < k ==> (#[trigger] fn_error(flags, module, j)) is None,
            decreases module.functions@.len() - k,
        {
            match validate_function(flags, &module.functions[k], module) {
                Ok(()) => {},
                Err(error) => {
                    assert(fn_error(flags, module, k as int) == Some(error));
                    return Err(
                        ValidationError::Function {
                            handle: k,
                            name: display_name(&module.functions[k].name),
                            error,
                        },
                    );
                },
            }
            k = k + 1;
        }
        let eps = &module.entry_points;
        let mut k: usize = 0;
        while k < eps.len()
            invariant
                eps@ == module.entry_points@,
                flags == old(self).flags,
                self.flags == old(self).flags,
                0 <= k <= eps@.len(),
                analysis_ok(module) && constants_ok(module) && types_ok(module) && globals_ok(
                    module,
                ) && functions_ok(flags, module),
                forall|i: int| 0 <= i < k ==> !#[trigger] ep_conflict(module, i),
            decreases eps@.len() - k,
        {
            let ep = &eps[k];
            let mut j: usize = 0;
            while j < k
                invariant
                    flags == old(self).flags,
                    self.flags == old(self).flags,
                    eps@ == module.entry_points@,
                    0 <= j <= k < eps@.len(),
                    ep == eps@[k as int],
                    analysis_ok(module) && constants_ok(module) && types_ok(module) && globals_ok(
                        module,
                    ) && functions_ok(flags, module),
                    forall|i: int| 0 <= i < k ==> !#[trigger] ep_conflict(module, i),
                    forall|i: int|
                        0 <= i < j ==> !((#[trigger] eps@[i]).stage == ep.stage && eps@[i].name@
                            == ep.name@),
                decreases k - j,
            {
                if eps[j].stage == ep.stage && eps[j].name == ep.name {
                    assert(ep_conflict(module, k as int));
                    assert(ep_reported(flags, module, k as int, EntryPointError::Conflict));
                    return Err(
                        ValidationError::EntryPoint {
                            stage: ep.stage,
                            name: ep.name.clone(),
                            error: EntryPointError::Conflict,
                        },
                    );
                }
                j = j + 1;
            }
            assert(!ep_conflict(module, k as int));
            k = k + 1;
        }
        let mut k: usize = 0;
        while k < eps.len()
            invariant
                eps@ == module.entry_points@,
                flags == old(self).flags,
                self.flags == old(self).flags,
                0 <= k <= eps@.len(),
                analysis_ok(module) && constants_ok(module) && types_ok(module) && globals_ok(
                    module,
                ) && functions_ok(flags, module) && no_conflicts(module),
                module_info_describes(mod_info, module),
                forall|j: int| 0 <= j < k ==> (#[trigger] ep_error(flags, module, j)) is None,
            decreases eps@.len() - k,
        {
            let ep = &eps[k];
            match check_entry_point(
                flags,
                &mut self.location_mask,
                &mut self.bind_group_masks,
                ep,
                &mod_info.entry_points[k],
                module,
            ) {
                Ok(()) => {},
                Err(error) => {
                    assert(ep_reported(flags, module, k as int, error));
                    return Err(
                        ValidationError::EntryPoint { stage: ep.stage, name: ep.name.clone(), error },
                    );
                },
            }
            k = k + 1;
        }
        Ok(mod_info)
    }
}

} // verus!
