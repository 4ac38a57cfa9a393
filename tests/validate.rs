use shader_valid::analyzer::{AnalysisError, FunctionOrigin};
use shader_valid::function::FunctionError;
use shader_valid::interface::{EntryPointError, GlobalVariableError, VaryingError};
use shader_valid::ir::{
    ArraySize, Binding, BuiltIn, Constant, ConstantInner, EntryPoint, Expression, Function,
    FunctionArgument, GlobalVariable, Module, ResourceBinding, ScalarKind, ScalarValue,
    ShaderStage, Statement, StorageClass, StructMember, Type, TypeInner,
};
use shader_valid::valid::{
    ConstantError, Disalignment, TypeError, ValidationError, ValidationFlags, Validator,
};

fn empty_module() -> Module {
    Module {
        types: vec![],
        constants: vec![],
        global_variables: vec![],
        functions: vec![],
        entry_points: vec![],
    }
}

fn ty(inner: TypeInner) -> Type {
    Type { name: None, inner }
}

fn u32_ty() -> Type {
    ty(TypeInner::Scalar { kind: ScalarKind::Uint, width: 4 })
}

fn uint_const(v: u64) -> Constant {
    Constant { name: None, inner: ConstantInner::Scalar { width: 4, value: ScalarValue::Uint(v) } }
}

fn function(arguments: Vec<FunctionArgument>, expressions: Vec<Expression>, body: Vec<Statement>) -> Function {
    Function { name: None, arguments, expressions, body }
}

fn arg(binding: Binding) -> FunctionArgument {
    FunctionArgument { name: None, ty: 0, binding: Some(binding) }
}

fn entry(name: &str, stage: ShaderStage, outputs: Vec<Binding>, f: Function) -> EntryPoint {
    EntryPoint { name: name.to_string(), stage, outputs, function: f }
}

fn run(flags: ValidationFlags, m: &Module) -> Result<shader_valid::analyzer::ModuleInfo, ValidationError> {
    Validator::new(flags).validate(m)
}

/// A compute entry point that reads the local invocation id (argument 0)
/// and the work group id (argument 1).
fn compute_module(body: Vec<Statement>) -> Module {
    let mut m = empty_module();
    m.types.push(u32_ty());
    m.entry_points.push(entry(
        "main",
        ShaderStage::Compute,
        vec![],
        function(
            vec![arg(Binding::BuiltIn(BuiltIn::LocalInvocationId)), arg(Binding::BuiltIn(BuiltIn::WorkGroupId))],
            vec![Expression::FunctionArgument(0), Expression::FunctionArgument(1)],
            body,
        ),
    ));
    m
}

#[test]
fn empty_module_is_valid() {
    let info = run(ValidationFlags::all(), &empty_module()).unwrap();
    assert!(info.functions.is_empty());
    assert!(info.entry_points.is_empty());
}

#[test]
fn scalar_constant_width_must_match_kind() {
    let mut m = empty_module();
    m.constants.push(uint_const(3));
    m.constants.push(Constant {
        name: Some("flag".to_string()),
        inner: ConstantInner::Scalar { width: 4, value: ScalarValue::Bool(true) },
    });
    assert_eq!(
        run(ValidationFlags::all(), &m),
        Err(ValidationError::Constant { handle: 1, name: "flag".to_string(), error: ConstantError::InvalidType })
    );
    m.constants[1] = Constant { name: None, inner: ConstantInner::Scalar { width: 1, value: ScalarValue::Bool(true) } };
    assert!(run(ValidationFlags::all(), &m).is_ok());
}

#[test]
fn composite_forward_component_is_named() {
    let mut m = empty_module();
    m.types.push(u32_ty());
    m.types.push(ty(TypeInner::Vector { size: 3, kind: ScalarKind::Uint, width: 4 }));
    m.constants.push(uint_const(1));
    m.constants.push(Constant {
        name: None,
        inner: ConstantInner::Composite { ty: 1, components: vec![0, 1, 3, 2] },
    });
    m.constants.push(uint_const(2));
    m.constants.push(uint_const(3));
    assert_eq!(
        run(ValidationFlags::all(), &m),
        Err(ValidationError::Constant { handle: 1, name: String::new(), error: ConstantError::UnresolvedComponent(1) })
    );
    m.constants[1] = Constant { name: None, inner: ConstantInner::Composite { ty: 1, components: vec![0, 0, 0] } };
    assert!(run(ValidationFlags::all(), &m).is_ok());
}

#[test]
fn dynamic_array_constant_rejected() {
    let mut m = empty_module();
    m.types.push(u32_ty());
    m.types.push(ty(TypeInner::Array { base: 0, size: ArraySize::Dynamic, stride: 4 }));
    m.constants.push(uint_const(1));
    m.constants.push(Constant { name: None, inner: ConstantInner::Composite { ty: 1, components: vec![0] } });
    assert_eq!(
        run(ValidationFlags::empty(), &m),
        Err(ValidationError::Constant { handle: 1, name: String::new(), error: ConstantError::InvalidType })
    );
}

#[test]
fn array_size_must_be_earlier_constant() {
    let mut m = empty_module();
    m.types.push(u32_ty());
    m.types.push(ty(TypeInner::Array { base: 0, size: ArraySize::Constant(1), stride: 4 }));
    m.constants.push(uint_const(1));
    m.constants.push(Constant { name: None, inner: ConstantInner::Composite { ty: 1, components: vec![0] } });
    assert_eq!(
        run(ValidationFlags::all(), &m),
        Err(ValidationError::Constant { handle: 1, name: String::new(), error: ConstantError::UnresolvedSize(1) })
    );
}

#[test]
fn type_errors() {
    let mut m = empty_module();
    m.types.push(ty(TypeInner::Vector { size: 5, kind: ScalarKind::Float, width: 4 }));
    assert_eq!(
        run(ValidationFlags::all(), &m),
        Err(ValidationError::Type { handle: 0, name: String::new(), error: TypeError::InvalidVectorSize(5) })
    );
    m.types[0] = ty(TypeInner::Struct { members: vec![StructMember { ty: 0, offset: 0 }] });
    assert_eq!(
        run(ValidationFlags::all(), &m),
        Err(ValidationError::Type { handle: 0, name: String::new(), error: TypeError::UnresolvedBase(0) })
    );
    m.types[0] = ty(TypeInner::Sampler { comparison: false });
    m.types.push(ty(TypeInner::Array { base: 0, size: ArraySize::Dynamic, stride: 4 }));
    assert_eq!(
        run(ValidationFlags::all(), &m),
        Err(ValidationError::Type { handle: 1, name: String::new(), error: TypeError::InvalidArrayBaseType(0) })
    );
    m.types[0] = ty(TypeInner::Matrix { columns: 4, rows: 1, width: 4 });
    assert_eq!(
        run(ValidationFlags::all(), &m),
        Err(ValidationError::Type { handle: 0, name: String::new(), error: TypeError::InvalidMatrixSize { columns: 4, rows: 1 } })
    );
}

#[test]
fn global_variable_errors() {
    let mut m = empty_module();
    m.types.push(u32_ty());
    m.global_variables.push(GlobalVariable { name: Some("u".to_string()), class: StorageClass::Uniform, binding: None, ty: 0 });
    assert_eq!(
        run(ValidationFlags::all(), &m),
        Err(ValidationError::GlobalVariable { handle: 0, name: "u".to_string(), error: GlobalVariableError::InvalidBinding })
    );
    m.global_variables[0].class = StorageClass::Function;
    assert_eq!(
        run(ValidationFlags::all(), &m),
        Err(ValidationError::GlobalVariable {
            handle: 0,
            name: "u".to_string(),
            error: GlobalVariableError::InvalidUsage(StorageClass::Function)
        })
    );
    m.global_variables[0].class = StorageClass::Handle;
    m.global_variables[0].binding = Some(ResourceBinding { group: 0, binding: 0 });
    assert_eq!(
        run(ValidationFlags::all(), &m),
        Err(ValidationError::GlobalVariable { handle: 0, name: "u".to_string(), error: GlobalVariableError::InvalidType })
    );
    m.global_variables[0].class = StorageClass::Uniform;
    assert!(run(ValidationFlags::all(), &m).is_ok());
}

#[test]
fn analysis_rejects_forward_operand() {
    let mut m = empty_module();
    m.functions.push(function(vec![], vec![Expression::Binary { left: 0, right: 1 }, Expression::Constant(0)], vec![]));
    assert_eq!(
        run(ValidationFlags::empty(), &m),
        Err(ValidationError::Analysis(AnalysisError::ForwardDependency {
            origin: FunctionOrigin::Function(0),
            expression: 0
        }))
    );
}

#[test]
fn analysis_rejects_missing_condition() {
    let m = compute_module(vec![Statement::If { condition: 7 }, Statement::End]);
    assert_eq!(
        run(ValidationFlags::empty(), &m),
        Err(ValidationError::Analysis(AnalysisError::InvalidCondition {
            origin: FunctionOrigin::EntryPoint(0),
            statement: 0
        }))
    );
}

#[test]
fn reused_validator_gives_identical_results() {
    let m = compute_module(vec![Statement::Barrier, Statement::If { condition: 0 }, Statement::End]);
    let mut v = Validator::new(ValidationFlags::all());
    let first = v.validate(&m).unwrap();
    let second = v.validate(&m).unwrap();
    assert_eq!(first, second);
    assert_eq!(first.entry_points[0].non_uniform, vec![true, false]);
    let mut bad = compute_module(vec![]);
    bad.entry_points[0].outputs.push(Binding::Location(0));
    bad.entry_points[0].outputs.push(Binding::Location(0));
    let e1 = v.validate(&bad);
    let e2 = v.validate(&bad);
    assert!(e1.is_err());
    assert_eq!(e1, e2);
    assert_eq!(v.validate(&m).unwrap(), first);
}

#[test]
fn duplicate_entry_points_conflict() {
    let mut m = empty_module();
    m.types.push(u32_ty());
    m.entry_points.push(entry("main", ShaderStage::Vertex, vec![Binding::BuiltIn(BuiltIn::Position)], function(vec![], vec![], vec![])));
    m.entry_points.push(entry("main", ShaderStage::Fragment, vec![], function(vec![], vec![], vec![])));
    m.entry_points.push(entry("other", ShaderStage::Vertex, vec![], function(vec![], vec![], vec![])));
    assert!(run(ValidationFlags::all(), &m).is_ok());
    m.entry_points.push(entry(
        "main",
        ShaderStage::Vertex,
        vec![Binding::Location(3)],
        function(vec![arg(Binding::Location(1))], vec![], vec![]),
    ));
    assert_eq!(
        run(ValidationFlags::all(), &m),
        Err(ValidationError::EntryPoint { stage: ShaderStage::Vertex, name: "main".to_string(), error: EntryPointError::Conflict })
    );
}

#[test]
fn stage_specific_builtins() {
    let make = |stage: ShaderStage| {
        let mut m = empty_module();
        m.types.push(u32_ty());
        m.entry_points.push(entry("main", stage, vec![], function(vec![arg(Binding::BuiltIn(BuiltIn::VertexIndex))], vec![], vec![])));
        m
    };
    assert!(run(ValidationFlags::all(), &make(ShaderStage::Vertex)).is_ok());
    assert_eq!(
        run(ValidationFlags::all(), &make(ShaderStage::Fragment)),
        Err(ValidationError::EntryPoint {
            stage: ShaderStage::Fragment,
            name: "main".to_string(),
            error: EntryPointError::Varying(VaryingError::InvalidBuiltInStage(BuiltIn::VertexIndex))
        })
    );
    let out = |stage: ShaderStage| {
        let mut m = empty_module();
        m.entry_points.push(entry("main", stage, vec![Binding::BuiltIn(BuiltIn::FragDepth)], function(vec![], vec![], vec![])));
        m
    };
    assert!(run(ValidationFlags::all(), &out(ShaderStage::Fragment)).is_ok());
    assert!(run(ValidationFlags::all(), &out(ShaderStage::Compute)).is_err());
}

#[test]
fn barrier_before_divergent_branch_accepted() {
    let m = compute_module(vec![
        Statement::Barrier,
        Statement::If { condition: 0 },
        Statement::End,
    ]);
    let info = run(ValidationFlags::all(), &m).unwrap();
    assert_eq!(info.entry_points[0].divergent_barrier, None);
}

#[test]
fn barrier_after_divergent_branch_rejected() {
    let m = compute_module(vec![
        Statement::If { condition: 0 },
        Statement::End,
        Statement::Barrier,
    ]);
    assert_eq!(
        run(ValidationFlags::all(), &m),
        Err(ValidationError::EntryPoint {
            stage: ShaderStage::Compute,
            name: "main".to_string(),
            error: EntryPointError::NonUniformBarrier(2)
        })
    );
    let without = ValidationFlags::from_bits_truncate(3);
    assert!(run(without, &m).is_ok());
}

#[test]
fn barrier_after_uniform_branch_accepted() {
    let m = compute_module(vec![
        Statement::If { condition: 1 },
        Statement::Barrier,
        Statement::End,
        Statement::Barrier,
    ]);
    assert!(run(ValidationFlags::all(), &m).is_ok());
}

#[test]
fn flags_gate_their_own_checks() {
    let mut m = compute_module(vec![Statement::If { condition: 0 }, Statement::Else, Statement::Else, Statement::End]);
    m.entry_points[0].function.expressions.push(Expression::Constant(9));
    let block_error = Err(ValidationError::EntryPoint {
        stage: ShaderStage::Compute,
        name: "main".to_string(),
        error: EntryPointError::Function(FunctionError::UnbalancedBlock(2)),
    });
    let expr_error = Err(ValidationError::EntryPoint {
        stage: ShaderStage::Compute,
        name: "main".to_string(),
        error: EntryPointError::Function(FunctionError::InvalidExpression(2)),
    });
    assert_eq!(run(ValidationFlags::all(), &m), expr_error);
    assert_eq!(run(ValidationFlags::from_bits_truncate(2), &m), block_error);
    assert_eq!(run(ValidationFlags::from_bits_truncate(6), &m), block_error);
    assert!(run(ValidationFlags::from_bits_truncate(4), &m).is_ok());
    m.entry_points[0].function.expressions.pop();
    assert_eq!(run(ValidationFlags::all(), &m), block_error);
    assert_eq!(run(ValidationFlags::from_bits_truncate(6), &m), block_error);
}

#[test]
fn unclosed_block_reported() {
    let m = compute_module(vec![Statement::If { condition: 1 }, Statement::If { condition: 1 }, Statement::End]);
    assert_eq!(
        run(ValidationFlags::all(), &m),
        Err(ValidationError::EntryPoint {
            stage: ShaderStage::Compute,
            name: "main".to_string(),
            error: EntryPointError::Function(FunctionError::UnclosedBlock(0)),
        })
    );
}

#[test]
fn duplicate_location_rejected_across_directions() {
    let mut m = empty_module();
    m.types.push(u32_ty());
    m.entry_points.push(entry(
        "main",
        ShaderStage::Fragment,
        vec![Binding::Location(0)],
        function(vec![arg(Binding::Location(0))], vec![], vec![]),
    ));
    assert_eq!(
        run(ValidationFlags::all(), &m),
        Err(ValidationError::EntryPoint {
            stage: ShaderStage::Fragment,
            name: "main".to_string(),
            error: EntryPointError::Varying(VaryingError::BindingCollision { location: 0 })
        })
    );
    m.entry_points[0].outputs[0] = Binding::Location(1);
    assert!(run(ValidationFlags::all(), &m).is_ok());
}

#[test]
fn missing_argument_binding_rejected() {
    let mut m = empty_module();
    m.types.push(u32_ty());
    m.entry_points.push(entry(
        "main",
        ShaderStage::Vertex,
        vec![],
        function(vec![arg(Binding::Location(0)), FunctionArgument { name: None, ty: 0, binding: None }], vec![], vec![]),
    ));
    assert_eq!(
        run(ValidationFlags::all(), &m),
        Err(ValidationError::EntryPoint {
            stage: ShaderStage::Vertex,
            name: "main".to_string(),
            error: EntryPointError::Varying(VaryingError::MissingBinding(1))
        })
    );
}

#[test]
fn resource_binding_collision_among_used_globals() {
    let mut m = empty_module();
    m.types.push(u32_ty());
    for _ in 0..3 {
        m.global_variables.push(GlobalVariable {
            name: None,
            class: StorageClass::Uniform,
            binding: Some(ResourceBinding { group: 0, binding: 1 }),
            ty: 0,
        });
    }
    m.entry_points.push(entry(
        "main",
        ShaderStage::Compute,
        vec![],
        function(vec![], vec![Expression::GlobalVariable(0), Expression::GlobalVariable(2)], vec![]),
    ));
    assert_eq!(
        run(ValidationFlags::all(), &m),
        Err(ValidationError::EntryPoint {
            stage: ShaderStage::Compute,
            name: "main".to_string(),
            error: EntryPointError::BindingCollision(2)
        })
    );
    m.entry_points[0].function.expressions.pop();
    let info = run(ValidationFlags::all(), &m).unwrap();
    assert_eq!(info.entry_points[0].global_uses, vec![true, false, false]);
}

#[test]
fn storage_reads_are_non_uniform() {
    let mut m = empty_module();
    m.types.push(u32_ty());
    m.global_variables.push(GlobalVariable {
        name: None,
        class: StorageClass::Storage,
        binding: Some(ResourceBinding { group: 0, binding: 0 }),
        ty: 0,
    });
    m.functions.push(function(
        vec![],
        vec![Expression::Constant(0), Expression::GlobalVariable(0), Expression::Binary { left: 0, right: 1 }],
        vec![Statement::Store { global: 0, value: 0 }],
    ));
    m.constants.push(uint_const(0));
    let info = run(ValidationFlags::all(), &m).unwrap();
    assert_eq!(info.functions[0].non_uniform, vec![false, true, true]);
    assert_eq!(info.functions[0].global_uses, vec![true]);
}

#[test]
fn invalid_store_reported() {
    let mut m = empty_module();
    m.functions.push(function(vec![], vec![], vec![Statement::Store { global: 0, value: 0 }]));
    m.functions[0].name = Some("f".to_string());
    assert_eq!(
        run(ValidationFlags::all(), &m),
        Err(ValidationError::Function { handle: 0, name: "f".to_string(), error: FunctionError::InvalidStore(0) })
    );
    assert!(run(ValidationFlags::empty(), &m).is_ok());
}

#[test]
fn flags_from_bits() {
    assert!(ValidationFlags::from_bits_truncate(0xff).expressions());
    assert!(ValidationFlags::all().control_flow_uniformity());
    assert!(!ValidationFlags::from_bits_truncate(1).blocks());
    assert!(!ValidationFlags::empty().expressions());
}

#[test]
fn sized_types() {
    assert!(TypeInner::Array { base: 0, size: ArraySize::Constant(0), stride: 4 }.is_sized());
    assert!(!TypeInner::Array { base: 0, size: ArraySize::Dynamic, stride: 4 }.is_sized());
    assert!(!TypeInner::Image { arrayed: false }.is_sized());
    assert!(TypeInner::Struct { members: vec![] }.is_sized());
}

#[test]
fn locations_reset_between_entry_points() {
    let mut m = empty_module();
    m.types.push(u32_ty());
    m.entry_points.push(entry("a", ShaderStage::Fragment, vec![Binding::Location(0)], function(vec![arg(Binding::Location(0))], vec![], vec![])));
    m.entry_points.push(entry("b", ShaderStage::Vertex, vec![Binding::Location(0)], function(vec![], vec![], vec![])));
    m.entry_points[0].outputs[0] = Binding::Location(1);
    assert!(run(ValidationFlags::all(), &m).is_ok());
    m.entry_points[1].outputs.push(Binding::Location(0));
    assert_eq!(
        run(ValidationFlags::all(), &m),
        Err(ValidationError::EntryPoint {
            stage: ShaderStage::Vertex,
            name: "b".to_string(),
            error: EntryPointError::Varying(VaryingError::BindingCollision { location: 0 })
        })
    );
}

#[test]
fn conflict_reported_before_interface_errors() {
    let mut m = empty_module();
    m.entry_points.push(entry("", ShaderStage::Vertex, vec![Binding::BuiltIn(BuiltIn::FragDepth)], function(vec![], vec![], vec![])));
    m.entry_points.push(entry("", ShaderStage::Vertex, vec![], function(vec![], vec![], vec![])));
    assert_eq!(
        run(ValidationFlags::all(), &m),
        Err(ValidationError::EntryPoint { stage: ShaderStage::Vertex, name: String::new(), error: EntryPointError::Conflict })
    );
}

#[test]
fn array_length_and_alignment() {
    let mut m = empty_module();
    m.types.push(u32_ty());
    m.types.push(ty(TypeInner::Array { base: 0, size: ArraySize::Constant(0), stride: 4 }));
    m.constants.push(uint_const(0));
    assert_eq!(
        run(ValidationFlags::all(), &m),
        Err(ValidationError::Type { handle: 1, name: String::new(), error: TypeError::NonPositiveArrayLength(0) })
    );
    m.constants[0] = uint_const(8);
    assert!(run(ValidationFlags::all(), &m).is_ok());
    m.types[1] = ty(TypeInner::Array { base: 0, size: ArraySize::Constant(0), stride: 6 });
    assert_eq!(
        run(ValidationFlags::all(), &m),
        Err(ValidationError::Type {
            handle: 1,
            name: String::new(),
            error: TypeError::Disalignment(Disalignment::ArrayStride { stride: 6, alignment: 4 })
        })
    );
    m.types[1] = ty(TypeInner::Vector { size: 3, kind: ScalarKind::Float, width: 4 });
    m.types.push(ty(TypeInner::Struct {
        members: vec![StructMember { ty: 0, offset: 0 }, StructMember { ty: 1, offset: 4 }],
    }));
    assert_eq!(
        run(ValidationFlags::all(), &m),
        Err(ValidationError::Type {
            handle: 2,
            name: String::new(),
            error: TypeError::Disalignment(Disalignment::MemberOffset { index: 1, offset: 4, alignment: 16 })
        })
    );
    m.types[2] = ty(TypeInner::Struct {
        members: vec![StructMember { ty: 0, offset: 0 }, StructMember { ty: 1, offset: 16 }],
    });
    assert!(run(ValidationFlags::all(), &m).is_ok());
}

#[test]
fn bind_groups_are_separate_and_reset() {
    let mut m = empty_module();
    m.types.push(u32_ty());
    m.global_variables.push(GlobalVariable { name: None, class: StorageClass::Uniform, binding: Some(ResourceBinding { group: 0, binding: 1 }), ty: 0 });
    m.global_variables.push(GlobalVariable { name: None, class: StorageClass::Uniform, binding: Some(ResourceBinding { group: 2, binding: 1 }), ty: 0 });
    m.global_variables.push(GlobalVariable { name: None, class: StorageClass::Uniform, binding: Some(ResourceBinding { group: 2, binding: 1 }), ty: 0 });
    let uses = |a: usize, b: usize| function(vec![], vec![Expression::GlobalVariable(a), Expression::GlobalVariable(b)], vec![]);
    m.entry_points.push(entry("a", ShaderStage::Compute, vec![], uses(0, 1)));
    m.entry_points.push(entry("b", ShaderStage::Compute, vec![], uses(0, 2)));
    let mut v = Validator::new(ValidationFlags::all());
    assert!(v.validate(&m).is_ok());
    m.entry_points.push(entry("c", ShaderStage::Compute, vec![], uses(1, 2)));
    assert_eq!(
        v.validate(&m),
        Err(ValidationError::EntryPoint { stage: ShaderStage::Compute, name: "c".to_string(), error: EntryPointError::BindingCollision(2) })
    );
}
