use zkay::ast::{
    BuiltinFunction, BuiltinOp, Callee, ConstructorOrFunctionDefinition, ContractDefinition, DeclKind, DeclRef, Declaration,
    Expr, ExprKind, Identifier, SourceUnit, Stmt, StmtKind,
};
use zkay::ast::ModifiedValue;
use zkay::circuit_compatibility::{
    check_for_nonstatic_function_calls_or_not_circuit_inlineable_in_private_exprs, CircuitComplianceChecker,
    IndirectCanBePrivateDetector,
};
use zkay::hybrid_function_detector::{
    detect_hybrid_functions, DirectHybridFunctionDetectionVisitor, IndirectHybridFunctionDetectionVisitor, NonInlineableCallDetector,
};
use zkay::type_checker::TypeError;
use zkay::deep_copy::{deep_copy, deep_copy_stmt, replace_expr};
use zkay::parent_setter::{set_parents, Enclosing, EnclosingKind, ExpressionToStatementVisitor};
use zkay::types::{AnnotatedTypeName, Homomorphism, PrivacyLabel, TypeName};
use zkay::visitor::{bases, get_visit_function, ASTType, AstTransformerVisitorBase, AstVisitorBase, FunctionVisitor, VisitStep};

fn annotated(t: TypeName, p: PrivacyLabel) -> AnnotatedTypeName {
    AnnotatedTypeName { ty: Box::new(t), privacy_annotation: Some(p), homomorphism: Homomorphism::NonHomomorphic }
}

fn expr(id: u64, kind: ExprKind) -> Expr {
    Expr {
        id,
        kind,
        annotated_type: None,
        evaluate_privately: false,
        line: 0,
        column: 0,
        parent: None,
        statement: None,
        namespace: None,
    }
}

fn stmt(id: u64, kind: StmtKind) -> Stmt {
    Stmt {
        id,
        kind,
        line: 0,
        column: 0,
        parent: None,
        function: None,
        namespace: None,
        before_analysis: None,
        modified_values: Vec::new(),
    }
}

fn idf(id: u64, name: &str) -> Identifier {
    Identifier { id, name: name.to_string(), parent: None, namespace: None }
}

fn declaration(id: u64, name: &str, t: AnnotatedTypeName) -> Declaration {
    Declaration { id, idf: idf(id + 1, name), annotated_type: t, is_final: false, is_constant: false, parent: None, namespace: None }
}

fn function(id: u64, name: &str, parameters: Vec<Declaration>, body: Option<Stmt>) -> ConstructorOrFunctionDefinition {
    ConstructorOrFunctionDefinition {
        id,
        idf: idf(id + 1, name),
        is_constructor: false,
        parameters,
        return_parameters: Vec::new(),
        body,
        can_be_external: true,
        can_be_private: true,
        requires_verification: false,
        requires_verification_when_external: false,
        has_static_body: true,
        has_side_effects: false,
        is_recursive: false,
        called_functions: Vec::new(),
        parent: None,
        namespace: None,
    }
}

fn contract(id: u64, name: &str, functions: Vec<ConstructorOrFunctionDefinition>) -> ContractDefinition {
    ContractDefinition {
        id,
        idf: idf(id + 1, name),
        state_variable_declarations: Vec::new(),
        constructor_definitions: Vec::new(),
        function_definitions: functions,
        enum_definitions: Vec::new(),
        parent: None,
        namespace: None,
    }
}

/// `contract C { function f(uint x) { x = x + 1; } }`
fn example() -> SourceUnit {
    let sum = expr(
        30,
        ExprKind::FunctionCall {
            func: Callee::Builtin(BuiltinFunction { op: BuiltinOp::Add, is_private: false, homomorphism: Homomorphism::NonHomomorphic }),
            args: vec![
                expr(31, ExprKind::Identifier { name: "x".to_string(), target: None }),
                expr(32, ExprKind::NumberLiteral(1)),
            ],
        },
    );
    let assign = stmt(
        20,
        StmtKind::Assignment { lhs: expr(21, ExprKind::Identifier { name: "x".to_string(), target: None }), rhs: sum },
    );
    let body = stmt(19, StmtKind::Block(vec![assign]));
    let param = declaration(15, "x", annotated(TypeName::Uint(256), PrivacyLabel::All));
    let f = function(10, "f", vec![param], Some(body));
    SourceUnit { id: 1, contracts: vec![contract(2, "C", vec![f])], namespace: None }
}

fn names(ns: &Option<Vec<String>>) -> Vec<String> {
    ns.clone().unwrap()
}

#[test]
fn test_root_children_have_parent() {
    let ast = set_parents(example());
    for c in ast.contracts.iter() {
        assert_eq!(c.parent, Some(ast.id));
    }
}

#[test]
fn test_contract_identifier() {
    let ast = set_parents(example());
    let contract = &ast.contracts[0];
    assert_eq!(contract.idf.parent, Some(contract.id));
}

fn check_expr_parents(e: &Expr) {
    assert!(e.parent.is_some());
    match &e.kind {
        ExprKind::FunctionCall { func, args } => {
            if let Callee::Location(l) = func {
                assert_eq!(l.parent, Some(e.id));
                check_expr_parents(l);
            }
            for a in args.iter() {
                assert_eq!(a.parent, Some(e.id));
                check_expr_parents(a);
            }
        },
        ExprKind::Index { arr, key } => {
            assert_eq!(arr.parent, Some(e.id));
            assert_eq!(key.parent, Some(e.id));
            check_expr_parents(arr);
            check_expr_parents(key);
        },
        _ => {},
    }
}

fn check_stmt_parents(s: &Stmt) {
    assert!(s.parent.is_some());
    match &s.kind {
        StmtKind::Block(ss) => {
            for c in ss.iter() {
                assert_eq!(c.parent, Some(s.id));
                check_stmt_parents(c);
            }
        },
        StmtKind::Assignment { lhs, rhs } => {
            assert_eq!(lhs.parent, Some(s.id));
            assert_eq!(rhs.parent, Some(s.id));
            check_expr_parents(lhs);
            check_expr_parents(rhs);
        },
        _ => {},
    }
}

#[test]
fn test_all_nodes_have_parent() {
    let ast = set_parents(example());
    for c in ast.contracts.iter() {
        assert!(c.parent.is_some());
        assert!(c.idf.parent.is_some());
        for f in c.function_definitions.iter() {
            assert_eq!(f.parent, Some(c.id));
            assert_eq!(f.idf.parent, Some(f.id));
            for p in f.parameters.iter() {
                assert_eq!(p.parent, Some(f.id));
                assert_eq!(p.idf.parent, Some(p.id));
            }
            let body = f.body.as_ref().unwrap();
            assert_eq!(body.parent, Some(f.id));
            check_stmt_parents(body);
        }
    }
}

#[test]
fn set_parents_sets_namespaces_and_links() {
    let ast = set_parents(example());
    assert_eq!(names(&ast.namespace).len(), 0);
    let c = &ast.contracts[0];
    assert_eq!(names(&c.namespace), vec!["C".to_string()]);
    let f = &c.function_definitions[0];
    assert_eq!(names(&f.namespace), vec!["C".to_string(), "f".to_string()]);
    let body = f.body.as_ref().unwrap();
    assert_eq!(body.function, Some(f.id));
    match &body.kind {
        StmtKind::Block(ss) => {
            let a = &ss[0];
            assert_eq!(a.function, Some(f.id));
            match &a.kind {
                StmtKind::Assignment { lhs, rhs } => {
                    assert_eq!(lhs.statement, Some(a.id));
                    assert_eq!(rhs.statement, Some(a.id));
                    assert_eq!(names(&rhs.namespace), vec!["C".to_string(), "f".to_string()]);
                },
                _ => panic!("an assignment"),
            }
        },
        _ => panic!("a block"),
    }
}

#[test]
fn deep_copy_keeps_types_only_when_asked() {
    let mut e = expr(5, ExprKind::Tuple(vec![expr(6, ExprKind::NumberLiteral(3))]));
    e.annotated_type = Some(annotated(TypeName::Bool, PrivacyLabel::All));
    let mut next_id = 100u64;
    let without = deep_copy(&e, false, false, &mut next_id);
    assert!(without.annotated_type.is_none());
    assert_eq!(without.id, 100);
    assert_eq!(next_id, 102);
    let with = deep_copy(&e, true, false, &mut next_id);
    assert_eq!(with.id, 102);
    assert_eq!(next_id, 104);
    assert!(with.annotated_type.is_some());
    match &with.kind {
        ExprKind::Tuple(es) => {
            assert_eq!(es.len(), 1);
            assert!(matches!(es[0].kind, ExprKind::NumberLiteral(3)));
        },
        _ => panic!("a tuple"),
    }
}

#[test]
fn deep_copy_links_children_below_the_parent() {
    let mut e = expr(5, ExprKind::Tuple(vec![expr(6, ExprKind::NumberLiteral(3))]));
    e.parent = Some(99);
    e.namespace = Some(vec!["C".to_string()]);
    let mut next_id = 200u64;
    let c = deep_copy(&e, false, false, &mut next_id);
    assert_eq!(c.parent, Some(99));
    assert_eq!(c.id, 200);
    match &c.kind {
        ExprKind::Tuple(es) => {
            assert_eq!(es[0].id, 201);
            assert_eq!(es[0].parent, Some(200));
        },
        _ => panic!("a tuple"),
    }
}

#[test]
fn replace_expr_takes_place_and_type() {
    let mut old = expr(5, ExprKind::NumberLiteral(1));
    old.line = 7;
    old.column = 3;
    old.annotated_type = Some(annotated(TypeName::Uint(8), PrivacyLabel::All));
    let new = expr(8, ExprKind::BooleanLiteral(true));
    let r = replace_expr(&old, new, true);
    assert_eq!(r.id, 8);
    assert_eq!(r.line, 7);
    assert_eq!(r.column, 3);
    assert!(matches!(*r.annotated_type.unwrap().ty, TypeName::Uint(8)));
    let r2 = replace_expr(&old, expr(9, ExprKind::Me), false);
    assert!(r2.annotated_type.is_none());
}

#[test]
fn base_classes_of_node_kinds() {
    assert_eq!(bases(ASTType::AST), None);
    assert_eq!(bases(ASTType::IdentifierExpr), Some(ASTType::LocationExpr));
    assert_eq!(bases(ASTType::Block), Some(ASTType::StatementList));
    assert_eq!(bases(ASTType::NewExpr), Some(ASTType::FunctionCallExpr));
}

#[test]
fn visit_function_is_nearest_handled_base() {
    let handled = vec![ASTType::Expression, ASTType::LocationExpr];
    assert_eq!(get_visit_function(&handled, ASTType::IndexExpr), Some(ASTType::LocationExpr));
    assert_eq!(get_visit_function(&handled, ASTType::FunctionCallExpr), Some(ASTType::Expression));
    assert_eq!(get_visit_function(&handled, ASTType::IfStatement), None);
    assert_eq!(get_visit_function(&handled, ASTType::Expression), Some(ASTType::Expression));
}

#[test]
fn visit_steps_follow_traversal_order() {
    let post = AstVisitorBase::new("", false);
    assert_eq!(post.traversal, "post");
    assert_eq!(post.visit_steps(true), vec![VisitStep::Children, VisitStep::Handler]);
    assert_eq!(post.visit_steps(false), vec![VisitStep::Children]);
    let pre = AstVisitorBase::new("pre", true);
    assert_eq!(pre.visit_steps(true), vec![VisitStep::Handler, VisitStep::Children]);
    let noc = AstVisitorBase::new("node-or-children", false);
    assert_eq!(noc.visit_steps(true), vec![VisitStep::Handler]);
    assert_eq!(noc.visit_steps(false), vec![VisitStep::Children]);
    let handled = vec![ASTType::Statement];
    assert_eq!(noc._visit_internal(&handled, ASTType::Block), vec![VisitStep::Handler]);
    assert_eq!(noc._visit_internal(&handled, ASTType::MeExpr), vec![VisitStep::Children]);
    assert_eq!(post._visit_internal(&handled, ASTType::MeExpr), vec![VisitStep::Children]);
}

#[test]
fn transformer_replaces_handled_nodes_and_visits_others() {
    let t = AstTransformerVisitorBase::new(false);
    let handled = vec![ASTType::ReclassifyExpr];
    assert_eq!(t._visit_internal(&handled, ASTType::RehomExpr), vec![VisitStep::Handler]);
    assert_eq!(t._visit_internal(&handled, ASTType::TupleExpr), vec![VisitStep::Children]);
    assert_eq!(t.visitAST(), vec![VisitStep::Children]);
    let kept = t.visit_list(vec![1u64, 2, 3, 4], |x: u64| if x % 2 == 1 { Some(x * 10) } else { None });
    assert_eq!(kept, vec![10u64, 30u64]);
    let handler = |k: ASTType, x: u64| if k == ASTType::ReclassifyExpr { Some(x + 1) } else { None };
    let children = |x: u64| Some(x + 100);
    assert_eq!(t.visit(&handled, ASTType::RehomExpr, 5u64, handler, children), Some(6));
    assert_eq!(t.visit(&handled, ASTType::TupleExpr, 5u64, handler, children), Some(105));
    let nested = t.visit_list(vec![1u64, 2, 3], |x: u64| {
        let kind = if x == 2 { ASTType::TupleExpr } else { ASTType::RehomExpr };
        t.visit(&handled, kind, x, handler, |_: u64| None)
    });
    assert_eq!(nested, vec![2u64, 4u64]);
}

#[test]
fn function_visitor_visits_functions_in_order() {
    let mut c = contract(2, "C", vec![function(10, "f", Vec::new(), None), function(20, "g", Vec::new(), None)]);
    let mut ctor = function(30, "constructor", Vec::new(), None);
    ctor.is_constructor = true;
    c.constructor_definitions.push(ctor);
    let c2 = contract(40, "D", vec![function(50, "h", Vec::new(), None)]);
    let su = SourceUnit { id: 1, contracts: vec![c, c2], namespace: None };
    let v = FunctionVisitor {};
    assert_eq!(v.visitSourceUnit(&su), vec![30, 10, 20, 50]);
}

fn function_target(idx: usize) -> DeclRef {
    let t = AnnotatedTypeName {
        ty: Box::new(TypeName::Function {
            parameters: zkay::types::AnnotatedTypeList::Nil,
            return_parameters: zkay::types::AnnotatedTypeList::Nil,
        }),
        privacy_annotation: Some(PrivacyLabel::All),
        homomorphism: Homomorphism::NonHomomorphic,
    };
    DeclRef { id: 500 + idx as u64, kind: DeclKind::Function(idx), annotated_type: Some(t), is_final: false, is_constant: false }
}

fn call_of(id: u64, idx: usize) -> Expr {
    let callee = expr(id + 1, ExprKind::Identifier { name: "g".to_string(), target: Some(function_target(idx)) });
    expr(id, ExprKind::FunctionCall { func: Callee::Location(Box::new(callee)), args: Vec::new() })
}

fn statement_of(id: u64, e: Expr) -> Stmt {
    stmt(id, StmtKind::ExpressionStatement(e))
}

#[test]
fn reveal_makes_a_function_need_verification() {
    let reveal = expr(30, ExprKind::Reclassify {
        expr: Box::new(expr(31, ExprKind::NumberLiteral(1))),
        privacy: Some(PrivacyLabel::All),
        homomorphism: None,
        is_rehom: false,
    });
    let f = function(10, "f", Vec::new(), Some(statement_of(20, reveal)));
    let mut g = function(40, "g", Vec::new(), Some(statement_of(50, call_of(51, 0))));
    g.called_functions = vec![0];
    let h = function(60, "h", Vec::new(), Some(stmt(70, StmtKind::Block(Vec::new()))));
    let mut su = SourceUnit { id: 1, contracts: vec![contract(2, "C", vec![f, g, h])], namespace: None };
    assert!(detect_hybrid_functions(&mut su).is_ok());
    let fs = &su.contracts[0].function_definitions;
    assert!(fs[0].requires_verification);
    assert!(fs[0].requires_verification_when_external);
    assert!(fs[1].requires_verification);
    assert!(fs[1].requires_verification_when_external);
    assert!(!fs[2].requires_verification);
}

#[test]
fn callers_of_verified_functions_are_marked_in_any_order() {
    let mut caller = function(10, "caller", Vec::new(), Some(statement_of(20, call_of(21, 1))));
    caller.called_functions = vec![1];
    let mut callee = function(40, "callee", Vec::new(), None);
    callee.requires_verification = true;
    let mut c = contract(2, "C", vec![caller, callee]);
    IndirectHybridFunctionDetectionVisitor::new().visitContractDefinition(&mut c);
    assert!(c.function_definitions[0].requires_verification);
}

#[test]
fn private_parameters_need_verification_when_external() {
    let p = declaration(15, "x", annotated(TypeName::Uint(256), PrivacyLabel::Me));
    let mut f = function(10, "f", vec![p], Some(stmt(20, StmtKind::Block(Vec::new()))));
    DirectHybridFunctionDetectionVisitor::new().visitConstructorOrFunctionDefinition(&mut f);
    assert!(!f.requires_verification);
    assert!(f.requires_verification_when_external);
}

#[test]
fn recursive_verified_calls_are_refused() {
    let reveal = expr(30, ExprKind::Reclassify {
        expr: Box::new(expr(31, ExprKind::NumberLiteral(1))),
        privacy: Some(PrivacyLabel::All),
        homomorphism: None,
        is_rehom: false,
    });
    let body = stmt(19, StmtKind::Block(vec![statement_of(20, reveal), statement_of(22, call_of(23, 0))]));
    let mut f = function(10, "f", Vec::new(), Some(body));
    f.is_recursive = true;
    f.called_functions = vec![0];
    let mut su = SourceUnit { id: 1, contracts: vec![contract(2, "C", vec![f])], namespace: None };
    assert_eq!(detect_hybrid_functions(&mut su).unwrap_err(), TypeError::NonInlineableRecursiveCall);
}

#[test]
fn detector_visit_functions() {
    assert!(DirectHybridFunctionDetectionVisitor::new().has_attr(ASTType::ReclassifyExpr));
    assert!(!DirectHybridFunctionDetectionVisitor::new().has_attr(ASTType::IfStatement));
    assert!(IndirectHybridFunctionDetectionVisitor::new().has_attr(ASTType::ConstructorOrFunctionDefinition));
    assert!(NonInlineableCallDetector::new().has_attr(ASTType::FunctionCallExpr));
    assert!(!NonInlineableCallDetector::new().has_attr(ASTType::Block));
}

#[test]
fn functions_calling_non_private_functions_cannot_be_private() {
    let mut f0 = function(10, "f0", Vec::new(), None);
    f0.called_functions = vec![1, 2];
    let mut f1 = function(20, "f1", Vec::new(), None);
    f1.called_functions = vec![2];
    let mut f2 = function(30, "f2", Vec::new(), None);
    f2.can_be_private = false;
    let mut c = contract(2, "C", vec![f0, f1, f2]);
    IndirectCanBePrivateDetector::new().visitContractDefinition(&mut c);
    assert!(!c.function_definitions[0].can_be_private);
    assert!(!c.function_definitions[1].can_be_private);
    assert!(!c.function_definitions[2].can_be_private);
}

fn typed(mut e: Expr, t: TypeName) -> Expr {
    e.annotated_type = Some(annotated(t, PrivacyLabel::Me));
    e
}

#[test]
fn private_calls_need_static_circuit_functions() {
    let mut f0 = function(10, "f0", Vec::new(), None);
    f0.has_static_body = false;
    let mut f1 = function(20, "f1", Vec::new(), None);
    f1.can_be_private = false;
    let f2 = function(30, "f2", Vec::new(), None);
    let fns = vec![f0, f1, f2];
    let private_call = |idx: usize| {
        let mut e = typed(call_of(40, idx), TypeName::Uint(256));
        e.evaluate_privately = true;
        if let ExprKind::FunctionCall { func: Callee::Location(l), .. } = &mut e.kind {
            l.annotated_type = Some(annotated(TypeName::Uint(256), PrivacyLabel::All));
        }
        e
    };
    assert_eq!(
        check_for_nonstatic_function_calls_or_not_circuit_inlineable_in_private_exprs(&private_call(0), &fns).unwrap_err(),
        TypeError::NonStaticCallInPrivateExpr
    );
    assert_eq!(
        check_for_nonstatic_function_calls_or_not_circuit_inlineable_in_private_exprs(&private_call(1), &fns).unwrap_err(),
        TypeError::NonCircuitCallInPrivateExpr
    );
    assert!(check_for_nonstatic_function_calls_or_not_circuit_inlineable_in_private_exprs(&private_call(2), &fns).is_ok());
    let mut public = private_call(0);
    public.evaluate_privately = false;
    assert!(check_for_nonstatic_function_calls_or_not_circuit_inlineable_in_private_exprs(&public, &fns).is_ok());
}

fn private_if(then_writes: Vec<ModifiedValue>, then_body: Vec<Stmt>) -> Stmt {
    let cond = typed(expr(21, ExprKind::BooleanLiteral(true)), TypeName::Bool);
    let mut then_branch = stmt(22, StmtKind::Block(then_body));
    then_branch.modified_values = then_writes;
    stmt(20, StmtKind::If { condition: cond, then_branch: Box::new(then_branch), else_branch: None })
}

fn write_of(t: TypeName, p: PrivacyLabel) -> ModifiedValue {
    ModifiedValue { target_type: annotated(t, p), in_scope: true }
}

#[test]
fn private_if_writes() {
    let mut checker = CircuitComplianceChecker::new(false);
    let ok = private_if(vec![write_of(TypeName::Uint(256), PrivacyLabel::Me)], Vec::new());
    assert!(checker.visitIfStatement(ok, &Vec::new()).is_ok());
    let foreign = private_if(vec![write_of(TypeName::Uint(256), PrivacyLabel::All)], Vec::new());
    assert_eq!(checker.visitIfStatement(foreign, &Vec::new()).unwrap_err(), TypeError::PrivateIfForeignWrite);
    let map_t = TypeName::Mapping {
        key_type: Box::new(TypeName::Address),
        key_label: None,
        value_type: Box::new(annotated(TypeName::Uint(256), PrivacyLabel::All)),
    };
    let non_primitive = private_if(vec![write_of(map_t, PrivacyLabel::Me), write_of(TypeName::Uint(8), PrivacyLabel::All)], Vec::new());
    assert_eq!(checker.visitIfStatement(non_primitive, &Vec::new()).unwrap_err(), TypeError::PrivateIfNonPrimitiveWrite);
    let out_of_scope = private_if(vec![ModifiedValue { target_type: annotated(TypeName::Uint(8), PrivacyLabel::All), in_scope: false }], Vec::new());
    assert!(checker.visitIfStatement(out_of_scope, &Vec::new()).is_ok());
}

#[test]
fn reveal_inside_private_if_is_refused() {
    let mut checker = CircuitComplianceChecker::new(false);
    let mut inner = typed(expr(31, ExprKind::NumberLiteral(1)), TypeName::Uint(8));
    inner.annotated_type = Some(annotated(TypeName::Uint(8), PrivacyLabel::Me));
    let mut reveal = expr(30, ExprKind::Reclassify {
        expr: Box::new(inner),
        privacy: Some(PrivacyLabel::All),
        homomorphism: None,
        is_rehom: false,
    });
    reveal.annotated_type = Some(annotated(TypeName::Uint(8), PrivacyLabel::All));
    let s = private_if(Vec::new(), vec![stmt(40, StmtKind::ExpressionStatement(reveal))]);
    assert_eq!(checker.visitIfStatement(s, &Vec::new()).unwrap_err(), TypeError::RevealInPrivateIf);
}

#[test]
fn private_if_evaluates_its_parts_privately() {
    let mut checker = CircuitComplianceChecker::new(false);
    let mut e = typed(expr(41, ExprKind::NumberLiteral(2)), TypeName::Uint(8));
    e.annotated_type = Some(annotated(TypeName::Uint(8), PrivacyLabel::All));
    let s = private_if(Vec::new(), vec![stmt(40, StmtKind::ExpressionStatement(e))]);
    let r = checker.visitIfStatement(s, &Vec::new()).unwrap();
    match &r.kind {
        StmtKind::If { condition, then_branch, .. } => {
            assert!(condition.evaluate_privately);
            match &then_branch.kind {
                StmtKind::Block(ss) => match &ss[0].kind {
                    StmtKind::ExpressionStatement(x) => assert!(x.evaluate_privately),
                    _ => panic!("an expression statement"),
                },
                _ => panic!("a block"),
            }
        },
        _ => panic!("an if"),
    }
}

#[test]
fn side_effects_inside_private_if_are_refused() {
    let mut checker = CircuitComplianceChecker::new(false);
    let mut call = typed(call_of(41, 0), TypeName::Uint(256));
    call.annotated_type = Some(annotated(TypeName::Uint(256), PrivacyLabel::All));
    if let ExprKind::FunctionCall { func: Callee::Location(l), .. } = &mut call.kind {
        l.annotated_type = Some(annotated(TypeName::Uint(256), PrivacyLabel::All));
    }
    let s = private_if(Vec::new(), vec![stmt(40, StmtKind::ExpressionStatement(call))]);
    assert_eq!(checker.visitIfStatement(s, &vec![true]).unwrap_err(), TypeError::SideEffectInPrivateExpr);
}

#[test]
fn the_first_violation_is_reported() {
    let mut checker = CircuitComplianceChecker::new(false);
    let mut call = typed(call_of(41, 0), TypeName::Uint(256));
    call.annotated_type = Some(annotated(TypeName::Uint(256), PrivacyLabel::All));
    if let ExprKind::FunctionCall { func: Callee::Location(l), .. } = &mut call.kind {
        l.annotated_type = Some(annotated(TypeName::Uint(256), PrivacyLabel::All));
    }
    let s = private_if(vec![write_of(TypeName::Uint(8), PrivacyLabel::All)], vec![stmt(40, StmtKind::ExpressionStatement(call))]);
    assert_eq!(checker.visitIfStatement(s, &vec![true]).unwrap_err(), TypeError::PrivateIfForeignWrite);

    let mut f0 = function(10, "f0", Vec::new(), None);
    f0.has_static_body = false;
    let mut f1 = function(20, "f1", Vec::new(), None);
    f1.can_be_private = false;
    let fns = vec![f0, f1];
    let private_call = |id: u64, idx: usize| {
        let mut e = typed(call_of(id, idx), TypeName::Uint(256));
        e.evaluate_privately = true;
        if let ExprKind::FunctionCall { func: Callee::Location(l), .. } = &mut e.kind {
            l.annotated_type = Some(annotated(TypeName::Uint(256), PrivacyLabel::All));
        }
        e
    };
    let mut tuple = expr(60, ExprKind::Tuple(vec![private_call(61, 1), private_call(63, 0)]));
    tuple.annotated_type = Some(annotated(TypeName::Bool, PrivacyLabel::All));
    assert_eq!(
        check_for_nonstatic_function_calls_or_not_circuit_inlineable_in_private_exprs(&tuple, &fns).unwrap_err(),
        TypeError::NonCircuitCallInPrivateExpr
    );
}

#[test]
fn deep_copy_links_children_of_a_root_without_parent() {
    let mut e = expr(5, ExprKind::Tuple(vec![expr(6, ExprKind::NumberLiteral(3))]));
    e.namespace = Some(vec!["C".to_string()]);
    let mut next_id = 300u64;
    let c = deep_copy(&e, false, false, &mut next_id);
    assert_eq!(c.parent, None);
    match &c.kind {
        ExprKind::Tuple(es) => {
            assert_eq!(es[0].parent, Some(300));
            assert_eq!(es[0].namespace, Some(vec!["C".to_string()]));
        },
        _ => panic!("a tuple"),
    }
}

#[test]
fn replace_expr_with_type_relinks_below_a_parent() {
    let mut old = expr(5, ExprKind::NumberLiteral(1));
    old.parent = Some(40);
    old.annotated_type = Some(annotated(TypeName::Uint(8), PrivacyLabel::All));
    let new = expr(8, ExprKind::Tuple(vec![expr(9, ExprKind::NumberLiteral(2))]));
    let r = replace_expr(&old, new, true);
    assert_eq!(r.parent, Some(40));
    assert!(matches!(*r.annotated_type.as_ref().unwrap().ty, TypeName::Uint(8)));
    match &r.kind {
        ExprKind::Tuple(es) => assert_eq!(es[0].parent, Some(8)),
        _ => panic!("a tuple"),
    }
}

#[test]
fn non_inlineable_call_inside_an_argument_is_found_at_the_outer_call() {
    let mut g = function(40, "g", Vec::new(), None);
    g.requires_verification = true;
    g.is_recursive = true;
    let h = function(60, "h", Vec::new(), None);
    let fns = vec![g, h];
    let mut outer = call_of(10, 1);
    if let ExprKind::FunctionCall { args, .. } = &mut outer.kind {
        args.push(call_of(20, 0));
    }
    let d = NonInlineableCallDetector::new();
    assert!(d.visitFunctionCallExpr(&outer, &fns));
    assert!(!d.visitFunctionCallExpr(&call_of(30, 1), &fns));
}

#[test]
fn function_namespace_step_changes_only_the_namespace() {
    let mut f = function(10, "f", Vec::new(), Some(stmt(20, StmtKind::Block(Vec::new()))));
    let parent_ns = vec!["C".to_string()];
    zkay::parent_setter::ParentSetterVisitor::new().visitConstructorOrFunctionDefinition(&mut f, Some(&parent_ns));
    assert_eq!(f.namespace, Some(vec!["C".to_string(), "f".to_string()]));
    assert_eq!(f.idf.parent, None);
    assert_eq!(f.parent, None);
    zkay::parent_setter::ParentSetterVisitor::new().visitConstructorOrFunctionDefinition(&mut f, None);
    assert_eq!(f.namespace, Some(vec!["f".to_string()]));
}

#[test]
fn public_call_with_a_violating_argument_is_refused_at_the_call() {
    let mut f0 = function(10, "f0", Vec::new(), None);
    f0.has_static_body = false;
    let f1 = function(20, "f1", Vec::new(), None);
    let fns = vec![f0, f1];
    let located = |id: u64, idx: usize, private: bool| {
        let mut e = typed(call_of(id, idx), TypeName::Uint(256));
        e.evaluate_privately = private;
        if let ExprKind::FunctionCall { func: Callee::Location(l), .. } = &mut e.kind {
            l.annotated_type = Some(annotated(TypeName::Uint(256), PrivacyLabel::All));
        }
        e
    };
    let mut outer = located(40, 1, false);
    if let ExprKind::FunctionCall { args, .. } = &mut outer.kind {
        args.push(located(50, 0, true));
    }
    let d = zkay::circuit_compatibility::NonstaticOrIncompatibilityDetector::new();
    assert_eq!(d.visitFunctionCallExpr(&outer, &fns).unwrap_err(), TypeError::NonStaticCallInPrivateExpr);
    assert!(d.visitFunctionCallExpr(&located(60, 1, false), &fns).is_ok());
}

#[test]
fn links_go_to_the_nearest_enclosing_statement_and_function() {
    let chain = vec![
        Enclosing { id: 10, kind: EnclosingKind::Function },
        Enclosing { id: 20, kind: EnclosingKind::Statement },
        Enclosing { id: 30, kind: EnclosingKind::Statement },
        Enclosing { id: 40, kind: EnclosingKind::Other },
    ];
    let mut e = expr(50, ExprKind::NumberLiteral(1));
    ExpressionToStatementVisitor.visitExpression(&mut e, &chain);
    assert_eq!(e.statement, Some(30));
    let mut s = stmt(60, StmtKind::Break);
    ExpressionToStatementVisitor.visitStatement(&mut s, &chain);
    assert_eq!(s.function, Some(10));
    let mut lone = expr(70, ExprKind::NumberLiteral(2));
    lone.statement = Some(5);
    ExpressionToStatementVisitor.visitExpression(&mut lone, &vec![Enclosing { id: 1, kind: EnclosingKind::Other }]);
    assert_eq!(lone.statement, Some(5));
}

#[test]
fn deep_copy_of_a_statement_keeps_the_analysis_only_when_asked() {
    let inner = stmt(21, StmtKind::ExpressionStatement(expr(22, ExprKind::NumberLiteral(4))));
    let mut s = stmt(20, StmtKind::Block(vec![inner]));
    s.parent = Some(9);
    s.function = Some(7);
    s.namespace = Some(vec!["C".to_string(), "f".to_string()]);
    s.before_analysis = Some(zkay::types::PartitionState { me_aliases: vec![3] });
    let mut next_id = 500u64;
    let with = deep_copy_stmt(&s, false, true, &mut next_id);
    assert_eq!(with.id, 500);
    assert_eq!(with.parent, Some(9));
    assert_eq!(with.before_analysis.as_ref().unwrap().me_aliases, vec![3]);
    match &with.kind {
        StmtKind::Block(ss) => {
            assert_eq!(ss[0].id, 501);
            assert_eq!(ss[0].parent, Some(500));
            assert_eq!(ss[0].function, Some(7));
            match &ss[0].kind {
                StmtKind::ExpressionStatement(e) => {
                    assert_eq!(e.id, 502);
                    assert!(matches!(e.kind, ExprKind::NumberLiteral(4)));
                },
                _ => panic!("an expression statement"),
            }
        },
        _ => panic!("a block"),
    }
    let without = deep_copy_stmt(&s, false, false, &mut next_id);
    assert_eq!(without.id, 503);
    assert!(without.before_analysis.is_none());
}
