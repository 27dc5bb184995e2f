use zkay::ast::{
    BuiltinFunction, BuiltinOp, Callee, ConstructorOrFunctionDefinition, ContractDefinition, DeclKind, DeclRef,
    Declaration, EnumDefinition, EnumValue, Expr, ExprKind, Identifier, SourceUnit, StateVariableDeclaration, Stmt,
    StmtKind,
};
use zkay::builtin_calls::eval_literal_op;
use zkay::type_check_driver::type_check;
use zkay::type_checker::{TypeCheckVisitor, TypeError};
use zkay::types::{
    instance_of_exec, AnnotatedTypeList, AnnotatedTypeName, CombinedType, Homomorphism, InstanceOf, PartitionState,
    PrivacyLabel, TypeName,
};

fn annotated(t: TypeName, p: PrivacyLabel) -> AnnotatedTypeName {
    AnnotatedTypeName { ty: Box::new(t), privacy_annotation: Some(p), homomorphism: Homomorphism::NonHomomorphic }
}

fn expr(id: u64, kind: ExprKind) -> Expr {
    Expr {
        id,
        kind,
        annotated_type: None,
        evaluate_privately: false,
        line: 0,
        column: 0,
        parent: None,
        statement: None,
        namespace: None,
    }
}

fn num(id: u64, v: i64) -> Expr {
    expr(id, ExprKind::NumberLiteral(v))
}

fn target(id: u64, kind: DeclKind, t: AnnotatedTypeName) -> DeclRef {
    DeclRef { id, kind, annotated_type: Some(t), is_final: false, is_constant: false }
}

fn var(id: u64, name: &str, decl_id: u64, t: AnnotatedTypeName) -> Expr {
    expr(id, ExprKind::Identifier { name: name.to_string(), target: Some(target(decl_id, DeclKind::LocalVariable, t)) })
}

fn builtin(id: u64, op: BuiltinOp, args: Vec<Expr>) -> Expr {
    expr(
        id,
        ExprKind::FunctionCall {
            func: Callee::Builtin(BuiltinFunction { op, is_private: false, homomorphism: Homomorphism::NonHomomorphic }),
            args,
        },
    )
}

fn stmt(id: u64, kind: StmtKind) -> Stmt {
    Stmt {
        id,
        kind,
        line: 0,
        column: 0,
        parent: None,
        function: None,
        namespace: None,
        before_analysis: None,
        modified_values: Vec::new(),
    }
}

fn idf(id: u64, name: &str) -> Identifier {
    Identifier { id, name: name.to_string(), parent: None, namespace: None }
}

fn declaration(id: u64, name: &str, t: AnnotatedTypeName) -> Declaration {
    Declaration { id, idf: idf(id + 1, name), annotated_type: t, is_final: false, is_constant: false, parent: None, namespace: None }
}

fn function(id: u64, parameters: Vec<Declaration>, body: Stmt) -> ConstructorOrFunctionDefinition {
    ConstructorOrFunctionDefinition {
        id,
        idf: idf(id + 1, "f"),
        is_constructor: false,
        parameters,
        return_parameters: Vec::new(),
        body: Some(body),
        can_be_external: true,
        can_be_private: true,
        requires_verification: false,
        requires_verification_when_external: false,
        has_static_body: true,
        has_side_effects: false,
        is_recursive: false,
        called_functions: Vec::new(),
        parent: None,
        namespace: None,
    }
}

fn program(functions: Vec<ConstructorOrFunctionDefinition>, vars: Vec<StateVariableDeclaration>) -> SourceUnit {
    let c = ContractDefinition {
        id: 2,
        idf: idf(3, "C"),
        state_variable_declarations: vars,
        constructor_definitions: Vec::new(),
        function_definitions: functions,
        enum_definitions: Vec::new(),
        parent: None,
        namespace: None,
    };
    SourceUnit { id: 1, contracts: vec![c], namespace: None }
}

fn uint_all() -> AnnotatedTypeName {
    annotated(TypeName::Uint(256), PrivacyLabel::All)
}

fn uint_me() -> AnnotatedTypeName {
    annotated(TypeName::Uint(256), PrivacyLabel::Me)
}

fn checked(e: Expr) -> Result<Expr, TypeError> {
    let mut v = TypeCheckVisitor::new(1000);
    v.type_check_expr(e, None)
}

fn type_of(e: &Expr) -> &AnnotatedTypeName {
    e.annotated_type.as_ref().unwrap()
}

#[test]
fn literal_addition_is_folded() {
    let r = checked(builtin(1, BuiltinOp::Add, vec![num(2, 1), num(3, 2)])).unwrap();
    let t = type_of(&r);
    assert!(matches!(*t.ty, TypeName::NumberLiteral(3)));
    assert_eq!(t.privacy_annotation, Some(PrivacyLabel::All));
}

#[test]
fn literal_comparison_gives_boolean_literal() {
    let r = checked(builtin(1, BuiltinOp::Lt, vec![num(2, 1), num(3, 2)])).unwrap();
    assert!(matches!(*type_of(&r).ty, TypeName::BooleanLiteral(true)));
}

#[test]
fn literal_overflow_is_refused() {
    let r = checked(builtin(1, BuiltinOp::Add, vec![num(2, i64::MAX), num(3, 1)]));
    assert_eq!(r.unwrap_err(), TypeError::LiteralOperation);
    let d = checked(builtin(1, BuiltinOp::Div, vec![num(2, 7), num(3, 0)]));
    assert_eq!(d.unwrap_err(), TypeError::LiteralOperation);
}

#[test]
fn eval_literal_op_values() {
    assert!(matches!(eval_literal_op(BuiltinOp::Mul, &TypeName::NumberLiteral(6), 6, 7), Some(TypeName::NumberLiteral(42))));
    assert!(matches!(eval_literal_op(BuiltinOp::Sub, &TypeName::NumberLiteral(1), 1, 5), Some(TypeName::NumberLiteral(-4))));
    assert!(matches!(eval_literal_op(BuiltinOp::Shl, &TypeName::NumberLiteral(1), 1, 4), Some(TypeName::NumberLiteral(16))));
    assert!(matches!(eval_literal_op(BuiltinOp::Shr, &TypeName::NumberLiteral(1), 1, 64), None));
    assert!(matches!(eval_literal_op(BuiltinOp::Mod, &TypeName::NumberLiteral(7), 7, 3), Some(TypeName::NumberLiteral(1))));
    assert!(matches!(eval_literal_op(BuiltinOp::And, &TypeName::BooleanLiteral(true), 1, 0), Some(TypeName::BooleanLiteral(false))));
    assert!(matches!(eval_literal_op(BuiltinOp::Ite, &TypeName::BooleanLiteral(true), 1, 0), None));
    assert!(matches!(eval_literal_op(BuiltinOp::Neg, &TypeName::NumberLiteral(i64::MIN), i64::MIN, 0), None));
}

#[test]
fn variable_plus_literal_has_the_variable_type() {
    let r = checked(builtin(1, BuiltinOp::Add, vec![var(2, "x", 50, uint_all()), num(3, 1)])).unwrap();
    let t = type_of(&r);
    assert!(matches!(*t.ty, TypeName::Uint(256)));
    assert_eq!(t.privacy_annotation, Some(PrivacyLabel::All));
}

#[test]
fn boolean_operand_of_addition_is_refused() {
    let r = checked(builtin(1, BuiltinOp::Add, vec![expr(2, ExprKind::BooleanLiteral(true)), num(3, 1)]));
    assert_eq!(r.unwrap_err(), TypeError::BuiltinArgumentType);
}

#[test]
fn private_division_is_refused() {
    let r = checked(builtin(1, BuiltinOp::Div, vec![var(2, "x", 50, uint_me()), num(3, 2)]));
    assert_eq!(r.unwrap_err(), TypeError::NoPrivateOperands(BuiltinOp::Div));
}

#[test]
fn private_addition_is_private_at_me() {
    let r = checked(builtin(1, BuiltinOp::Add, vec![var(2, "x", 50, uint_me()), var(3, "y", 51, uint_all())])).unwrap();
    let t = type_of(&r);
    assert_eq!(t.privacy_annotation, Some(PrivacyLabel::Me));
    match &r.kind {
        ExprKind::FunctionCall { func: Callee::Builtin(b), .. } => assert!(b.is_private),
        _ => panic!("a call"),
    }
}

#[test]
fn me_has_type_address_at_all() {
    let r = checked(expr(1, ExprKind::Me)).unwrap();
    let t = type_of(&r);
    assert!(matches!(*t.ty, TypeName::Address));
    assert_eq!(t.privacy_annotation, Some(PrivacyLabel::All));
}

#[test]
fn unresolved_and_contract_identifiers_are_refused() {
    let r = checked(expr(1, ExprKind::Identifier { name: "z".to_string(), target: None }));
    assert_eq!(r.unwrap_err(), TypeError::UnresolvedTarget);
    let c = expr(1, ExprKind::Identifier { name: "C".to_string(), target: Some(target(2, DeclKind::Contract, uint_all())) });
    assert_eq!(checked(c).unwrap_err(), TypeError::ContractTypeInExpression);
}

fn mapping_var(id: u64) -> Expr {
    let t = annotated(
        TypeName::Mapping { key_type: Box::new(TypeName::Address), key_label: None, value_type: Box::new(uint_all()) },
        PrivacyLabel::All,
    );
    expr(id, ExprKind::Identifier { name: "m".to_string(), target: Some(target(60, DeclKind::StateVariable, t)) })
}

#[test]
fn mapping_index_gives_the_value_type() {
    let e = expr(1, ExprKind::Index { arr: Box::new(mapping_var(2)), key: Box::new(expr(3, ExprKind::Me)) });
    let r = checked(e).unwrap();
    assert!(matches!(*type_of(&r).ty, TypeName::Uint(256)));
}

#[test]
fn index_errors() {
    let bad_key = expr(1, ExprKind::Index { arr: Box::new(mapping_var(2)), key: Box::new(expr(3, ExprKind::BooleanLiteral(true))) });
    assert_eq!(checked(bad_key).unwrap_err(), TypeError::IndexTypeMismatch);
    let not_map = expr(1, ExprKind::Index { arr: Box::new(var(2, "x", 50, uint_all())), key: Box::new(num(3, 0)) });
    assert_eq!(checked(not_map).unwrap_err(), TypeError::IndexIntoNonMapping);
    let private = expr(1, ExprKind::Index { arr: Box::new(var(2, "x", 50, uint_me())), key: Box::new(num(3, 0)) });
    assert_eq!(checked(private).unwrap_err(), TypeError::PrivateContainer);
    let arr_t = annotated(TypeName::Array { value_type: Box::new(uint_all()), length: 3 }, PrivacyLabel::All);
    let private_index = expr(1, ExprKind::Index { arr: Box::new(var(2, "a", 52, arr_t)), key: Box::new(var(3, "k", 53, uint_me())) });
    assert_eq!(checked(private_index).unwrap_err(), TypeError::PrivateArrayIndex);
}

fn reclassify(id: u64, e: Expr, p: Option<PrivacyLabel>) -> Expr {
    expr(id, ExprKind::Reclassify { expr: Box::new(e), privacy: p, homomorphism: None, is_rehom: false })
}

#[test]
fn reveal_to_all_makes_public() {
    let r = checked(reclassify(1, var(2, "x", 50, uint_me()), Some(PrivacyLabel::All))).unwrap();
    assert_eq!(type_of(&r).privacy_annotation, Some(PrivacyLabel::All));
}

#[test]
fn reveal_errors() {
    assert_eq!(checked(reclassify(1, var(2, "x", 50, uint_all()), Some(PrivacyLabel::All))).unwrap_err(), TypeError::RedundantReveal);
    assert_eq!(checked(reclassify(1, var(2, "x", 50, uint_me()), None)).unwrap_err(), TypeError::RevealPrivacyNotLabel);
    let other = annotated(TypeName::Uint(256), PrivacyLabel::Idf(77));
    assert_eq!(checked(reclassify(1, var(2, "x", 50, other), Some(PrivacyLabel::All))).unwrap_err(), TypeError::RevealNotAccessible);
}

#[test]
fn reveal_accessible_through_the_analysis() {
    let other = annotated(TypeName::Uint(256), PrivacyLabel::Idf(77));
    let analysis = PartitionState { me_aliases: vec![77] };
    let mut v = TypeCheckVisitor::new(1000);
    let r = v.type_check_expr(reclassify(1, var(2, "x", 50, other), Some(PrivacyLabel::All)), Some(&analysis)).unwrap();
    assert_eq!(type_of(&r).privacy_annotation, Some(PrivacyLabel::All));
}

#[test]
fn tuple_has_tuple_type() {
    let r = checked(expr(1, ExprKind::Tuple(vec![num(2, 1), expr(3, ExprKind::BooleanLiteral(false))]))).unwrap();
    match &*type_of(&r).ty {
        TypeName::Tuple(AnnotatedTypeList::Cons(a, rest)) => {
            assert!(matches!(*a.ty, TypeName::NumberLiteral(1)));
            match &**rest {
                AnnotatedTypeList::Cons(b, _) => assert!(matches!(*b.ty, TypeName::BooleanLiteral(false))),
                _ => panic!("two elements"),
            }
        },
        _ => panic!("a tuple type"),
    }
}

#[test]
fn cast_of_private_value_is_private_at_me() {
    let v = TypeCheckVisitor::new(0);
    let mut x = var(2, "x", 50, uint_me());
    x.annotated_type = Some(uint_me());
    let t = v.handle_cast(&x, &TypeName::Uint(8), None).unwrap();
    assert!(matches!(*t.ty, TypeName::Uint(8)));
    assert_eq!(t.privacy_annotation, Some(PrivacyLabel::Me));
    let mut y = var(3, "y", 51, uint_all());
    y.annotated_type = Some(uint_all());
    let u = v.handle_cast(&y, &TypeName::Uint(8), None).unwrap();
    assert_eq!(u.privacy_annotation, Some(PrivacyLabel::All));
}

#[test]
fn instance_of_cases() {
    assert_eq!(instance_of_exec(&uint_all(), None, &uint_all()), InstanceOf::Yes);
    assert_eq!(instance_of_exec(&uint_all(), None, &uint_me()), InstanceOf::MakePrivate);
    assert_eq!(instance_of_exec(&uint_me(), None, &uint_all()), InstanceOf::No);
    let b = annotated(TypeName::Bool, PrivacyLabel::All);
    assert_eq!(instance_of_exec(&b, None, &uint_all()), InstanceOf::No);
    let small = annotated(TypeName::Uint(8), PrivacyLabel::All);
    assert_eq!(instance_of_exec(&small, None, &uint_all()), InstanceOf::Yes);
    assert_eq!(instance_of_exec(&uint_all(), None, &small), InstanceOf::No);
}

#[test]
fn combined_types() {
    match TypeName::Uint(8).combined_type(&TypeName::Uint(16), false) {
        Some(CombinedType::Type(TypeName::Uint(16))) => {},
        _ => panic!("uint16"),
    }
    assert!(matches!(TypeName::NumberLiteral(1).combined_type(&TypeName::NumberLiteral(2), false), Some(CombinedType::Lit)));
    assert!(TypeName::Bool.combined_type(&TypeName::Uint(8), false).is_none());
    assert!(TypeName::Uint(8).implicitly_convertible_to(&TypeName::Int(16)));
    assert!(!TypeName::Int(8).implicitly_convertible_to(&TypeName::Uint(16)));
    assert!(TypeName::NumberLiteral(255).implicitly_convertible_to(&TypeName::Uint(8)));
    assert!(!TypeName::NumberLiteral(256).implicitly_convertible_to(&TypeName::Uint(8)));
}

fn assign(id: u64, lhs: Expr, rhs: Expr) -> Stmt {
    stmt(id, StmtKind::Assignment { lhs, rhs })
}

#[test]
fn type_check_accepts_a_simple_program() {
    let body = stmt(20, StmtKind::Block(vec![assign(21, var(22, "x", 15, uint_all()), builtin(23, BuiltinOp::Add, vec![var(24, "x", 15, uint_all()), num(25, 1)]))]));
    let f = function(10, vec![declaration(15, "x", uint_all())], body);
    let su = type_check(program(vec![f], Vec::new()), 1000).unwrap();
    let f2 = &su.contracts[0].function_definitions[0];
    match &f2.body.as_ref().unwrap().kind {
        StmtKind::Block(ss) => match &ss[0].kind {
            StmtKind::Assignment { rhs, .. } => assert!(matches!(*type_of(rhs).ty, TypeName::Uint(256))),
            _ => panic!("an assignment"),
        },
        _ => panic!("a block"),
    }
}

#[test]
fn assigning_private_to_public_is_refused() {
    let body = stmt(20, StmtKind::Block(vec![assign(21, var(22, "x", 15, uint_all()), var(23, "y", 16, uint_me()))]));
    let f = function(10, vec![declaration(15, "x", uint_all())], body);
    assert_eq!(type_check(program(vec![f], Vec::new()), 1000).unwrap_err(), TypeError::TypeMismatch);
}

#[test]
fn assigning_public_to_private_makes_it_private() {
    let body = stmt(20, StmtKind::Block(vec![assign(21, var(22, "y", 16, uint_me()), num(23, 3))]));
    let f = function(10, Vec::new(), body);
    let su = type_check(program(vec![f], Vec::new()), 1000).unwrap();
    match &su.contracts[0].function_definitions[0].body.as_ref().unwrap().kind {
        StmtKind::Block(ss) => match &ss[0].kind {
            StmtKind::Assignment { rhs, .. } => {
                assert_eq!(type_of(rhs).privacy_annotation, Some(PrivacyLabel::Me));
                assert!(matches!(rhs.kind, ExprKind::Reclassify { .. }));
            },
            _ => panic!("an assignment"),
        },
        _ => panic!("a block"),
    }
}

#[test]
fn assignment_target_must_be_a_location() {
    let body = stmt(20, StmtKind::Block(vec![assign(21, num(22, 1), num(23, 3))]));
    let f = function(10, Vec::new(), body);
    assert_eq!(type_check(program(vec![f], Vec::new()), 1000).unwrap_err(), TypeError::AssignmentTargetNotLocation);
}

#[test]
fn final_variable_cannot_be_assigned() {
    let mut t = target(15, DeclKind::LocalVariable, uint_all());
    t.is_final = true;
    let lhs = expr(22, ExprKind::Identifier { name: "x".to_string(), target: Some(t) });
    let body = stmt(20, StmtKind::Block(vec![assign(21, lhs, num(23, 3))]));
    let f = function(10, Vec::new(), body);
    assert_eq!(type_check(program(vec![f], Vec::new()), 1000).unwrap_err(), TypeError::ModifyingFinal);
}

#[test]
fn conditions_must_be_boolean_and_public_loops() {
    let bad_if = stmt(20, StmtKind::If { condition: num(21, 1), then_branch: Box::new(stmt(22, StmtKind::Block(Vec::new()))), else_branch: None });
    let f = function(10, Vec::new(), bad_if);
    assert_eq!(type_check(program(vec![f], Vec::new()), 1000).unwrap_err(), TypeError::NonBoolCondition);
    let bool_me = annotated(TypeName::Bool, PrivacyLabel::Me);
    let private_while = stmt(20, StmtKind::While { condition: var(21, "b", 30, bool_me), body: Box::new(stmt(22, StmtKind::Block(Vec::new()))) });
    let g = function(10, Vec::new(), private_while);
    assert_eq!(type_check(program(vec![g], Vec::new()), 1000).unwrap_err(), TypeError::LoopConditionNotPublic);
}

#[test]
fn require_needs_a_public_condition() {
    let bool_me = annotated(TypeName::Bool, PrivacyLabel::Me);
    let r = stmt(20, StmtKind::Require(var(21, "b", 30, bool_me)));
    let f = function(10, Vec::new(), r);
    assert_eq!(type_check(program(vec![f], Vec::new()), 1000).unwrap_err(), TypeError::RequirePrivate);
}

#[test]
fn return_in_constructor_is_refused() {
    let mut f = function(10, Vec::new(), stmt(20, StmtKind::Return(None)));
    f.is_constructor = true;
    assert_eq!(type_check(program(vec![f], Vec::new()), 1000).unwrap_err(), TypeError::ReturnOutsideFunction);
}

#[test]
fn return_arity_must_match() {
    let f = function(10, Vec::new(), stmt(20, StmtKind::Return(Some(num(21, 1)))));
    assert_eq!(type_check(program(vec![f], Vec::new()), 1000).unwrap_err(), TypeError::TypeMismatch);
}

#[test]
fn parameters_must_be_me_or_all() {
    let p = declaration(15, "x", annotated(TypeName::Uint(256), PrivacyLabel::Idf(3)));
    let f = function(10, vec![p], stmt(20, StmtKind::Block(Vec::new())));
    assert_eq!(type_check(program(vec![f], Vec::new()), 1000).unwrap_err(), TypeError::ParameterPrivacy);
}

#[test]
fn state_variables() {
    let me_var = StateVariableDeclaration { decl: declaration(40, "s", uint_me()), expr: None };
    assert_eq!(type_check(program(Vec::new(), vec![me_var]), 1000).unwrap_err(), TypeError::StateVariableAtMe);
    let ok_var = StateVariableDeclaration { decl: declaration(40, "s", uint_all()), expr: Some(num(41, 5)) };
    let su = type_check(program(Vec::new(), vec![ok_var]), 1000).unwrap();
    let init = su.contracts[0].state_variable_declarations[0].expr.as_ref().unwrap();
    assert!(matches!(*type_of(init).ty, TypeName::NumberLiteral(5)));
}

#[test]
fn enums_get_their_types() {
    let mut su = program(Vec::new(), Vec::new());
    su.contracts[0].enum_definitions.push(EnumDefinition {
        id: 70,
        idf: idf(71, "E"),
        values: vec![EnumValue { idf: idf(72, "A"), annotated_type: None }],
        annotated_type: None,
        parent: None,
        namespace: None,
    });
    let r = type_check(su, 1000).unwrap();
    let e = &r.contracts[0].enum_definitions[0];
    assert!(matches!(*e.annotated_type.as_ref().unwrap().ty, TypeName::Enum(70)));
    assert!(matches!(*e.values[0].annotated_type.as_ref().unwrap().ty, TypeName::EnumValue(70)));
}

#[test]
fn mapping_keys_can_be_labelled_only_for_addresses() {
    let v = TypeCheckVisitor::new(0);
    let good = TypeName::Mapping { key_type: Box::new(TypeName::Address), key_label: Some(9), value_type: Box::new(uint_all()) };
    assert!(v.visitMapping(&good).is_ok());
    let bad = TypeName::Mapping { key_type: Box::new(TypeName::Uint(256)), key_label: Some(9), value_type: Box::new(uint_all()) };
    assert_eq!(v.visitMapping(&bad).unwrap_err(), TypeError::OnlyAddressAnnotated);
}

#[test]
fn annotated_type_name_rules() {
    let v = TypeCheckVisitor::new(0);
    let hom = |t: TypeName| AnnotatedTypeName { ty: Box::new(t), privacy_annotation: Some(PrivacyLabel::Me), homomorphism: Homomorphism::Additive };
    assert_eq!(v.visitAnnotatedTypeName(hom(TypeName::Bool), None, None).unwrap_err(), TypeError::HomomorphicNotNumeric);
    assert_eq!(v.visitAnnotatedTypeName(hom(TypeName::Int(32)), None, None).unwrap_err(), TypeError::HomomorphicSigned);
    assert_eq!(v.visitAnnotatedTypeName(hom(TypeName::Uint(64)), None, None).unwrap_err(), TypeError::HomomorphicTooWide);
    assert!(v.visitAnnotatedTypeName(hom(TypeName::Uint(32)), None, None).is_ok());
    let private_map = annotated(
        TypeName::Mapping { key_type: Box::new(TypeName::Address), key_label: None, value_type: Box::new(uint_all()) },
        PrivacyLabel::Me,
    );
    assert_eq!(v.visitAnnotatedTypeName(private_map, None, None).unwrap_err(), TypeError::UnsupportedPrivateType);
    let labelled = annotated(TypeName::Uint(256), PrivacyLabel::Idf(5));
    let not_final = DeclRef { id: 5, kind: DeclKind::StateVariable, annotated_type: Some(annotated(TypeName::Address, PrivacyLabel::All)), is_final: false, is_constant: false };
    assert_eq!(v.visitAnnotatedTypeName(labelled, None, Some(&not_final)).unwrap_err(), TypeError::PrivacyLabelNotFinal);
    let labelled2 = annotated(TypeName::Uint(256), PrivacyLabel::Idf(5));
    let not_address = DeclRef { id: 5, kind: DeclKind::StateVariable, annotated_type: Some(uint_all()), is_final: true, is_constant: false };
    assert_eq!(v.visitAnnotatedTypeName(labelled2, None, Some(&not_address)).unwrap_err(), TypeError::PrivacyLabelNotAddress);
    let user = annotated(TypeName::UserDefined(70), PrivacyLabel::All);
    let enum_t = DeclRef { id: 70, kind: DeclKind::Enum, annotated_type: Some(annotated(TypeName::Enum(70), PrivacyLabel::All)), is_final: false, is_constant: false };
    let r = v.visitAnnotatedTypeName(user, Some(&enum_t), None).unwrap();
    assert!(matches!(*r.ty, TypeName::Enum(70)));
    let user2 = annotated(TypeName::UserDefined(70), PrivacyLabel::All);
    assert_eq!(v.visitAnnotatedTypeName(user2, None, None).unwrap_err(), TypeError::UnsupportedUserType);
}

fn uint8(p: PrivacyLabel) -> AnnotatedTypeName {
    annotated(TypeName::Uint(8), p)
}

#[test]
fn comparing_unrelated_types_is_refused() {
    let r = checked(builtin(1, BuiltinOp::Eq, vec![var(2, "x", 50, uint_all()), var(3, "b", 51, annotated(TypeName::Bool, PrivacyLabel::All))]));
    assert_eq!(r.unwrap_err(), TypeError::IncompatibleTypes);
}

#[test]
fn private_shifts_and_bitwise_operations() {
    let not_literal = builtin(1, BuiltinOp::Shl, vec![var(2, "x", 50, uint8(PrivacyLabel::Me)), var(3, "y", 51, uint8(PrivacyLabel::All))]);
    assert_eq!(checked(not_literal).unwrap_err(), TypeError::PrivateShiftNotLiteral);
    let int8_me = annotated(TypeName::Int(8), PrivacyLabel::Me);
    let negative = builtin(1, BuiltinOp::Shr, vec![var(2, "x", 50, int8_me), num(3, -1)]);
    assert_eq!(checked(negative).unwrap_err(), TypeError::NegativeShift);
    let wide = builtin(1, BuiltinOp::BitAnd, vec![var(2, "x", 50, uint_me()), var(3, "y", 51, uint_all())]);
    assert_eq!(checked(wide).unwrap_err(), TypeError::PrivateBitwiseOn256Bit);
    let narrow = builtin(1, BuiltinOp::Shl, vec![var(2, "x", 50, uint8(PrivacyLabel::Me)), num(3, 2)]);
    let r = checked(narrow).unwrap();
    assert_eq!(type_of(&r).privacy_annotation, Some(PrivacyLabel::Me));
}

#[test]
fn private_wide_arithmetic_warns() {
    let mut v = TypeCheckVisitor::new(1000);
    let e = builtin(1, BuiltinOp::Mul, vec![var(2, "x", 50, uint_me()), var(3, "y", 51, uint_all())]);
    v.type_check_expr(e, None).unwrap();
    assert_eq!(v.warnings.len(), 1);
    assert_eq!(v.warnings[0].kind, zkay::type_checker::WarningKind::PossibleFieldPrimeOverflow);
    let mut w = TypeCheckVisitor::new(1000);
    let c = builtin(1, BuiltinOp::Lt, vec![var(2, "x", 50, uint_me()), var(3, "y", 51, uint_all())]);
    w.type_check_expr(c, None).unwrap();
    assert_eq!(w.warnings[0].kind, zkay::type_checker::WarningKind::PossiblePrivateComparisonFailure);
    let mut u = TypeCheckVisitor::new(1000);
    u.type_check_expr(builtin(1, BuiltinOp::Add, vec![var(2, "x", 50, uint_all()), num(3, 1)]), None).unwrap();
    assert!(u.warnings.is_empty());
}

fn function_type(params: Vec<AnnotatedTypeName>, rets: Vec<AnnotatedTypeName>) -> AnnotatedTypeName {
    annotated(
        TypeName::Function { parameters: AnnotatedTypeList::from_vec(params), return_parameters: AnnotatedTypeList::from_vec(rets) },
        PrivacyLabel::All,
    )
}

fn call(id: u64, callee: Expr, args: Vec<Expr>) -> Expr {
    expr(id, ExprKind::FunctionCall { func: Callee::Location(Box::new(callee)), args })
}

#[test]
fn function_calls() {
    let callee = || expr(2, ExprKind::Identifier { name: "g".to_string(), target: Some(target(80, DeclKind::Function(0), function_type(vec![uint_all()], vec![uint8(PrivacyLabel::All)]))) });
    let r = checked(call(1, callee(), vec![num(3, 4)])).unwrap();
    assert!(matches!(*type_of(&r).ty, TypeName::Uint(8)));
    match &r.kind {
        ExprKind::FunctionCall { args, .. } => assert!(matches!(*type_of(&args[0]).ty, TypeName::Uint(256))),
        _ => panic!("a call"),
    }
    assert_eq!(checked(call(1, callee(), Vec::new())).unwrap_err(), TypeError::WrongNumberOfArguments);
    assert_eq!(checked(call(1, var(2, "x", 50, uint_all()), Vec::new())).unwrap_err(), TypeError::NotAFunction);
}

#[test]
fn casts_to_enums_and_contracts() {
    let enum_t = annotated(TypeName::Enum(70), PrivacyLabel::All);
    let e = expr(2, ExprKind::Identifier { name: "E".to_string(), target: Some(target(70, DeclKind::Enum, enum_t)) });
    let r = checked(call(1, e, vec![num(3, 0)])).unwrap();
    assert!(matches!(*type_of(&r).ty, TypeName::Enum(70)));
    let c = || expr(2, ExprKind::Identifier { name: "D".to_string(), target: Some(target(71, DeclKind::Contract, uint_all())) });
    assert_eq!(checked(call(1, c(), vec![num(3, 0)])).unwrap_err(), TypeError::ContractTypeInExpression);
    let mut v = TypeCheckVisitor::new(1000);
    let mut arg = num(3, 0);
    arg.annotated_type = Some(annotated(TypeName::NumberLiteral(0), PrivacyLabel::All));
    assert_eq!(v.visitFunctionCallExpr(call(1, c(), vec![arg]), None).unwrap_err(), TypeError::UserCastNotEnum);
}

#[test]
fn member_access() {
    let member_t = target(90, DeclKind::StateVariable, uint_all());
    let on_public = expr(1, ExprKind::MemberAccess { expr: Box::new(expr(2, ExprKind::Me)), member: "balance".to_string(), target: Some(member_t) });
    let r = checked(on_public).unwrap();
    assert!(matches!(*type_of(&r).ty, TypeName::Uint(256)));
    let private_address = var(2, "a", 51, annotated(TypeName::Address, PrivacyLabel::Me));
    let member_t2 = target(90, DeclKind::StateVariable, uint_all());
    let on_private = expr(1, ExprKind::MemberAccess { expr: Box::new(private_address), member: "balance".to_string(), target: Some(member_t2) });
    assert_eq!(checked(on_private).unwrap_err(), TypeError::PrivateAddressMembers);
}

#[test]
fn untyped_targets_are_refused() {
    let t = DeclRef { id: 50, kind: DeclKind::LocalVariable, annotated_type: None, is_final: false, is_constant: false };
    let e = expr(1, ExprKind::Identifier { name: "x".to_string(), target: Some(t) });
    assert_eq!(checked(e).unwrap_err(), TypeError::UntypedTarget);
}

#[test]
fn labelled_mapping_needs_a_label_key() {
    let m = || expr(2, ExprKind::Identifier { name: "m".to_string(), target: Some(target(60, DeclKind::StateVariable, annotated(TypeName::Mapping { key_type: Box::new(TypeName::Address), key_label: Some(9), value_type: Box::new(annotated(TypeName::Uint(256), PrivacyLabel::Idf(9))) }, PrivacyLabel::All))) });
    let by_me = expr(1, ExprKind::Index { arr: Box::new(m()), key: Box::new(expr(3, ExprKind::Me)) });
    let r = checked(by_me).unwrap();
    assert_eq!(type_of(&r).privacy_annotation, Some(PrivacyLabel::Me));
    let computed = builtin(3, BuiltinOp::Ite, vec![expr(4, ExprKind::BooleanLiteral(true)), expr(5, ExprKind::Me), expr(6, ExprKind::Me)]);
    let by_value = expr(1, ExprKind::Index { arr: Box::new(m()), key: Box::new(computed) });
    assert_eq!(checked(by_value).unwrap_err(), TypeError::IndexNotPrivacyLabel);
}

#[test]
fn array_index_must_be_numeric() {
    let arr_t = annotated(TypeName::Array { value_type: Box::new(uint_all()), length: 3 }, PrivacyLabel::All);
    let e = expr(1, ExprKind::Index { arr: Box::new(var(2, "a", 52, arr_t)), key: Box::new(expr(3, ExprKind::BooleanLiteral(true))) });
    assert_eq!(checked(e).unwrap_err(), TypeError::ArrayIndexNotNumeric);
}

#[test]
fn external_return_values_must_be_me_or_all() {
    let mut f = function(10, Vec::new(), stmt(20, StmtKind::Block(Vec::new())));
    f.return_parameters.push(declaration(16, "r", annotated(TypeName::Uint(256), PrivacyLabel::Idf(3))));
    assert_eq!(type_check(program(vec![f], Vec::new()), 1000).unwrap_err(), TypeError::ReturnPrivacy);
    let mut g = function(10, Vec::new(), stmt(20, StmtKind::Block(Vec::new())));
    g.can_be_external = false;
    g.return_parameters.push(declaration(16, "r", annotated(TypeName::Uint(256), PrivacyLabel::Idf(3))));
    assert!(type_check(program(vec![g], Vec::new()), 1000).is_ok());
}

#[test]
fn state_initializers_cannot_be_private() {
    let v = StateVariableDeclaration { decl: declaration(40, "s", uint_all()), expr: Some(var(41, "y", 16, uint_me())) };
    assert_eq!(type_check(program(Vec::new(), vec![v]), 1000).unwrap_err(), TypeError::PrivateStateInitializer);
}

#[test]
fn private_condition_must_be_at_me() {
    let cond = var(21, "b", 30, annotated(TypeName::Bool, PrivacyLabel::Idf(77)));
    let s = stmt(20, StmtKind::If { condition: cond, then_branch: Box::new(stmt(22, StmtKind::Block(Vec::new()))), else_branch: None });
    let f = function(10, Vec::new(), s);
    assert_eq!(type_check(program(vec![f], Vec::new()), 1000).unwrap_err(), TypeError::PrivateConditionNotAtMe);
    let cond_me = var(21, "b", 30, annotated(TypeName::Bool, PrivacyLabel::Me));
    let ok = stmt(20, StmtKind::If { condition: cond_me, then_branch: Box::new(stmt(22, StmtKind::Block(Vec::new()))), else_branch: None });
    assert!(type_check(program(vec![function(10, Vec::new(), ok)], Vec::new()), 1000).is_ok());
}

#[test]
fn returns_are_fitted_to_the_return_types() {
    let mut f = function(10, Vec::new(), stmt(20, StmtKind::Return(Some(num(21, 7)))));
    f.return_parameters.push(declaration(16, "r", uint8(PrivacyLabel::All)));
    let su = type_check(program(vec![f], Vec::new()), 1000).unwrap();
    match &su.contracts[0].function_definitions[0].body.as_ref().unwrap().kind {
        StmtKind::Return(Some(e)) => match &e.kind {
            ExprKind::Tuple(es) => {
                assert_eq!(es.len(), 1);
                assert!(matches!(*type_of(&es[0]).ty, TypeName::Uint(8)));
            },
            _ => panic!("a tuple"),
        },
        _ => panic!("a return"),
    }
}

#[test]
fn variable_declarations_are_fitted() {
    let d = declaration(30, "z", uint8(PrivacyLabel::All));
    let s = stmt(20, StmtKind::VariableDeclaration { decl: d, expr: Some(num(21, 200)) });
    let su = type_check(program(vec![function(10, Vec::new(), s)], Vec::new()), 1000).unwrap();
    match &su.contracts[0].function_definitions[0].body.as_ref().unwrap().kind {
        StmtKind::VariableDeclaration { expr: Some(e), .. } => assert!(matches!(*type_of(e).ty, TypeName::Uint(8))),
        _ => panic!("a declaration"),
    }
    let d2 = declaration(30, "z", uint8(PrivacyLabel::All));
    let too_big = stmt(20, StmtKind::VariableDeclaration { decl: d2, expr: Some(num(21, 300)) });
    assert!(type_check(program(vec![function(10, Vec::new(), too_big)], Vec::new()), 1000).is_err());
}

fn additive_of(owner: u64) -> AnnotatedTypeName {
    AnnotatedTypeName { ty: Box::new(TypeName::Uint(32)), privacy_annotation: Some(PrivacyLabel::Idf(owner)), homomorphism: Homomorphism::Additive }
}

#[test]
fn foreign_values_are_added_homomorphically() {
    let r = checked(builtin(1, BuiltinOp::Add, vec![var(2, "x", 50, additive_of(77)), num(3, 1)])).unwrap();
    let t = type_of(&r);
    assert_eq!(t.privacy_annotation, Some(PrivacyLabel::Idf(77)));
    assert_eq!(t.homomorphism, Homomorphism::Additive);
    match &r.kind {
        ExprKind::FunctionCall { func: Callee::Builtin(b), .. } => {
            assert!(b.is_private);
            assert_eq!(b.homomorphism, Homomorphism::Additive);
        },
        _ => panic!("a call"),
    }
}

#[test]
fn foreign_values_cannot_be_multiplied() {
    let r = checked(builtin(1, BuiltinOp::Mul, vec![var(2, "x", 50, additive_of(77)), var(3, "y", 51, additive_of(77))]));
    assert_eq!(r.unwrap_err(), TypeError::HomomorphicArgsNotAccessible(BuiltinOp::Mul));
}

fn typed_var(id: u64, decl: u64, t: AnnotatedTypeName) -> Expr {
    let mut e = var(id, "v", decl, t.copy());
    e.annotated_type = Some(t);
    e
}

#[test]
fn rehom_errors() {
    let mut v = TypeCheckVisitor::new(1000);
    let public = typed_var(1, 50, uint_all());
    assert_eq!(v.try_rehom(public, &additive_of(77), None).unwrap_err(), TypeError::RehomPublicValue);
    let foreign = typed_var(1, 50, annotated(TypeName::Uint(32), PrivacyLabel::Idf(77)));
    assert_eq!(v.try_rehom(foreign, &additive_of(77), None).unwrap_err(), TypeError::CannotRehom);
    let mine = typed_var(1, 50, annotated(TypeName::Uint(32), PrivacyLabel::Me));
    let expected = AnnotatedTypeName { ty: Box::new(TypeName::Uint(32)), privacy_annotation: Some(PrivacyLabel::Me), homomorphism: Homomorphism::Additive };
    let r = v.try_rehom(mine, &expected, None).unwrap();
    assert_eq!(type_of(&r).homomorphism, Homomorphism::Additive);
    assert!(matches!(r.kind, ExprKind::Reclassify { is_rehom: true, .. }));
    assert_eq!(r.id, 1000);
}

#[test]
fn unhom_of_public_value_is_refused() {
    let e = expr(1, ExprKind::Reclassify {
        expr: Box::new(var(2, "x", 50, uint_all())),
        privacy: Some(PrivacyLabel::All),
        homomorphism: Some(Homomorphism::NonHomomorphic),
        is_rehom: true,
    });
    assert_eq!(checked(e).unwrap_err(), TypeError::UnhomPublicValue);
}

fn mapping_type() -> TypeName {
    TypeName::Mapping { key_type: Box::new(TypeName::Address), key_label: None, value_type: Box::new(uint_all()) }
}

#[test]
fn conversions_and_privacy_of_non_primitive_values() {
    let mut v = TypeCheckVisitor::new(1000);
    let m = typed_var(1, 60, annotated(mapping_type(), PrivacyLabel::All));
    assert_eq!(v.implicitly_converted_to(m, &TypeName::Uint(8)).unwrap_err(), TypeError::UnsupportedConversion);
    let m2 = typed_var(1, 60, annotated(mapping_type(), PrivacyLabel::All));
    assert_eq!(v.make_private(m2, PrivacyLabel::Me, Homomorphism::NonHomomorphic).unwrap_err(), TypeError::CannotBePrivate);
    let small = typed_var(1, 50, uint8(PrivacyLabel::All));
    let c = v.implicitly_converted_to(small, &TypeName::Uint(256)).unwrap();
    assert!(matches!(*type_of(&c).ty, TypeName::Uint(256)));
    assert!(matches!(c.kind, ExprKind::PrimitiveCast { is_implicit: true, .. }));
}

#[test]
fn statements_of_leaves_type_check() {
    let body = stmt(
        20,
        StmtKind::Block(vec![
            stmt(21, StmtKind::ExpressionStatement(num(22, 7))),
            stmt(23, StmtKind::Require(expr(24, ExprKind::BooleanLiteral(true)))),
            stmt(25, StmtKind::VariableDeclaration { decl: declaration(26, "z", uint_all()), expr: None }),
            stmt(28, StmtKind::While { condition: expr(29, ExprKind::BooleanLiteral(false)), body: Box::new(stmt(30, StmtKind::Break)) }),
            stmt(31, StmtKind::Return(None)),
        ]),
    );
    let f = function(10, Vec::new(), body);
    let su = type_check(program(vec![f], Vec::new()), 1000).unwrap();
    match &su.contracts[0].function_definitions[0].body.as_ref().unwrap().kind {
        StmtKind::Block(ss) => {
            assert_eq!(ss.len(), 5);
            match &ss[0].kind {
                StmtKind::ExpressionStatement(e) => assert!(matches!(*type_of(e).ty, TypeName::NumberLiteral(7))),
                _ => panic!("an expression statement"),
            }
        },
        _ => panic!("a block"),
    }
}

#[test]
fn function_without_body_comes_back_unchanged() {
    let mut f = function(10, vec![declaration(15, "x", uint_all())], stmt(20, StmtKind::Break));
    f.body = None;
    let mut v = TypeCheckVisitor::new(1000);
    let g = v.type_check_function(f).unwrap();
    assert!(g.body.is_none());
    assert_eq!(g.id, 10);
    assert_eq!(g.parameters.len(), 1);
    let mut h = function(10, vec![declaration(15, "x", uint_me())], stmt(20, StmtKind::Break));
    h.body = None;
    h.return_parameters = vec![declaration(16, "y", annotated(TypeName::Uint(256), PrivacyLabel::Idf(3)))];
    assert_eq!(v.type_check_function(h).unwrap_err(), TypeError::ReturnPrivacy);
}

#[test]
fn visiting_an_untyped_target_copies_the_absent_type() {
    let v = TypeCheckVisitor::new(1000);
    let t = DeclRef { id: 50, kind: DeclKind::LocalVariable, annotated_type: None, is_final: false, is_constant: false };
    let mut e = expr(1, ExprKind::Identifier { name: "x".to_string(), target: Some(t) });
    e.annotated_type = Some(uint_all());
    let r = v.visitIdentifierExpr(e).unwrap();
    assert!(r.annotated_type.is_none());
    let m = DeclRef { id: 51, kind: DeclKind::StateVariable, annotated_type: None, is_final: false, is_constant: false };
    let mut base = expr(2, ExprKind::Me);
    base.annotated_type = Some(annotated(TypeName::Address, PrivacyLabel::All));
    let ma = expr(3, ExprKind::MemberAccess { expr: Box::new(base), member: "balance".to_string(), target: Some(m) });
    let r2 = v.visitMemberAccessExpr(ma).unwrap();
    assert!(r2.annotated_type.is_none());
}

#[test]
fn fitting_a_value_that_already_fits_gives_it_back() {
    let mut v = TypeCheckVisitor::new(1000);
    let mut x = var(1, "x", 15, uint_all());
    x.annotated_type = Some(uint_all());
    let r = v.get_rhs(x, &uint_all(), None).unwrap();
    assert!(matches!(r.kind, ExprKind::Identifier { .. }));
    assert_eq!(r.id, 1);
    let mut y = var(2, "y", 16, uint_all());
    y.annotated_type = Some(uint_all());
    let private = v.get_rhs(y, &uint_me(), None).unwrap();
    assert!(matches!(private.kind, ExprKind::Reclassify { .. }));
    assert_eq!(private.annotated_type.as_ref().unwrap().privacy_annotation, Some(PrivacyLabel::Me));
    let again = v.get_rhs(private, &uint_me(), None).unwrap();
    assert!(matches!(again.kind, ExprKind::Reclassify { .. }));
}

#[test]
fn fitting_wraps_the_value_in_a_reveal_and_rehoming_wraps_it_in_a_rehom() {
    let mut v = TypeCheckVisitor::new(700);
    let mut y = var(2, "y", 16, uint_all());
    y.annotated_type = Some(uint_all());
    let private = v.get_rhs(y, &uint_me(), None).unwrap();
    assert_eq!(private.id, 700);
    match &private.kind {
        ExprKind::Reclassify { expr, privacy, is_rehom, .. } => {
            assert_eq!(expr.id, 2);
            assert_eq!(expr.parent, Some(700));
            assert_eq!(*privacy, Some(PrivacyLabel::Me));
            assert!(!*is_rehom);
        },
        _ => panic!("a reveal"),
    }
    let additive = AnnotatedTypeName {
        ty: Box::new(TypeName::Uint(32)),
        privacy_annotation: Some(PrivacyLabel::Me),
        homomorphism: Homomorphism::Additive,
    };
    let mut z = var(3, "z", 17, annotated(TypeName::Uint(32), PrivacyLabel::Me));
    z.annotated_type = Some(annotated(TypeName::Uint(32), PrivacyLabel::Me));
    let rehomed = v.try_rehom(z, &additive, None).unwrap();
    assert_eq!(rehomed.id, 701);
    match &rehomed.kind {
        ExprKind::Reclassify { expr, homomorphism, is_rehom, .. } => {
            assert_eq!(expr.id, 3);
            assert_eq!(*homomorphism, Some(Homomorphism::Additive));
            assert!(*is_rehom);
        },
        _ => panic!("a rehom"),
    }
}
