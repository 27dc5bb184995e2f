//! Type-checks whole expressions, statements and programs: every node after
//! its children, by the visit function of its kind.
use vstd::prelude::*;
use crate::ast::{
    DeclKind, Callee, ConstructorOrFunctionDefinition, ContractDefinition, Expr, ExprKind, SourceUnit, Stmt, StmtKind,
};
use crate::circuit_compatibility::analysis_of;
use crate::statement_types::{
    all_me_or_all, declared_types, expr_contains_private, final_violation, if_condition_outcome, is_assignable, loop_condition_outcome,
    return_arity, same_stmt,
};
use crate::ast::{EnumDefinition, EnumValue, StateVariableDeclaration};
use crate::type_checker::{rhs_fits, TypeCheckVisitor, TypeError};
use crate::types::{AnnotatedTypeName, Homomorphism, PartitionState, PrivacyLabel, TypeName};

verus! {

/// Every expression of the statement is well-formed.
pub open spec fn stmt_well_formed(s: Stmt) -> bool
    decreases s,
{
    match s.kind {
        StmtKind::Block(ss) => forall|i: int| 0 <= i < ss.len() ==> stmt_well_formed(#[trigger] ss@[i]),
        StmtKind::StatementList(ss) => forall|i: int| 0 <= i < ss.len() ==> stmt_well_formed(#[trigger] ss@[i]),
        StmtKind::If { condition, then_branch, else_branch } => {
            &&& condition.spec_well_formed()
            &&& stmt_well_formed(*then_branch)
            &&& else_branch matches Some(e) ==> stmt_well_formed(*e)
        },
        StmtKind::While { condition, body } => condition.spec_well_formed() && stmt_well_formed(*body),
        StmtKind::For { init, condition, update, body } => {
            &&& init matches Some(x) ==> stmt_well_formed(*x)
            &&& condition.spec_well_formed()
            &&& update matches Some(x) ==> stmt_well_formed(*x)
            &&& stmt_well_formed(*body)
        },
        StmtKind::Assignment { lhs, rhs } => lhs.spec_well_formed() && rhs.spec_well_formed(),
        StmtKind::VariableDeclaration { expr, .. } => expr matches Some(e) ==> e.spec_well_formed(),
        StmtKind::Return(e) => e matches Some(x) ==> x.spec_well_formed(),
        StmtKind::Require(e) => e.spec_well_formed(),
        StmtKind::ExpressionStatement(e) => e.spec_well_formed(),
        _ => true,
    }
}

/// The public type with the given name.
pub open spec fn public_type(t: TypeName) -> AnnotatedTypeName {
    AnnotatedTypeName { ty: Box::new(t), privacy_annotation: Some(PrivacyLabel::All), homomorphism: Homomorphism::NonHomomorphic }
}

/// The expression is a leaf: a literal, `me`, `all` or an identifier.
pub open spec fn is_leaf_expr(e: Expr) -> bool {
    ||| e.kind is BooleanLiteral
    ||| e.kind is NumberLiteral
    ||| e.kind is Me
    ||| e.kind is All
    ||| e.kind is Identifier
}

/// What type-checking the leaf `e` gives: literals and `me` get their public
/// types, `all` keeps its own, an identifier takes the type of its target
/// (a mapping's key label keeps its own); an untyped result, an unresolved
/// identifier or one naming a contract is refused.
pub open spec fn leaf_outcome(e: Expr) -> Result<Expr, TypeError> {
    match e.kind {
        ExprKind::BooleanLiteral(b) => Ok(Expr { annotated_type: Some(public_type(TypeName::BooleanLiteral(b))), ..e }),
        ExprKind::NumberLiteral(v) => Ok(Expr { annotated_type: Some(public_type(TypeName::NumberLiteral(v))), ..e }),
        ExprKind::Me => Ok(Expr { annotated_type: Some(public_type(TypeName::Address)), ..e }),
        ExprKind::Identifier { target, .. } => match target {
            None => Err(TypeError::UnresolvedTarget),
            Some(t) => if t.kind == DeclKind::Contract {
                Err(TypeError::ContractTypeInExpression)
            } else if t.kind == DeclKind::Mapping {
                if e.annotated_type is None {
                    Err(TypeError::UntypedTarget)
                } else {
                    Ok(e)
                }
            } else if t.annotated_type is None {
                Err(TypeError::UntypedTarget)
            } else {
                Ok(Expr { annotated_type: t.annotated_type, ..e })
            },
        },
        _ => if e.annotated_type is None {
            Err(TypeError::UntypedTarget)
        } else {
            Ok(e)
        },
    }
}

/// `e` is a leaf that type-checks.
pub open spec fn leaf_succeeds(e: Expr) -> bool {
    is_leaf_expr(e) && leaf_outcome(e) is Ok
}

/// `e` is a leaf that is refused.
pub open spec fn leaf_fails(e: Expr) -> bool {
    is_leaf_expr(e) && leaf_outcome(e) is Err
}

/// The leaf `e`, type-checked.
pub open spec fn checked_leaf(e: Expr) -> Expr {
    leaf_outcome(e)->Ok_0
}

/// `x` is a typed, well-formed result for the expression `e`: the same node
/// at the same place.
pub open spec fn checked_expr(e: Expr, x: Expr) -> bool {
    &&& x.spec_typed()
    &&& x.spec_well_formed()
    &&& x.id == e.id
    &&& x.parent == e.parent
    &&& x.statement == e.statement
}

/// The statement rules hold at every statement of `x`, a statement of `fct`:
/// conditions of `if`s are booleans private at most to `me`, loop conditions
/// are public booleans, `require` conditions are public, assignments go to
/// locations and leave `final` variables alone, and `return`s stand in
/// functions and give back as many values as the function declares.
pub open spec fn stmt_rules_hold(x: Stmt, fct: ConstructorOrFunctionDefinition) -> bool
    decreases x,
{
    match x.kind {
        StmtKind::Block(ss) => forall|i: int| 0 <= i < ss.len() ==> stmt_rules_hold(#[trigger] ss@[i], fct),
        StmtKind::StatementList(ss) => forall|i: int| 0 <= i < ss.len() ==> stmt_rules_hold(#[trigger] ss@[i], fct),
        StmtKind::If { condition, then_branch, else_branch } => {
            &&& if_condition_outcome(condition, analysis_of(&x)) is Ok
            &&& stmt_rules_hold(*then_branch, fct)
            &&& else_branch matches Some(e) ==> stmt_rules_hold(*e, fct)
        },
        StmtKind::While { condition, body } => loop_condition_outcome(condition, analysis_of(&x)) is Ok && stmt_rules_hold(
            *body,
            fct,
        ),
        StmtKind::For { init, condition, update, body } => {
            &&& loop_condition_outcome(condition, analysis_of(&x)) is Ok
            &&& init matches Some(s) ==> stmt_rules_hold(*s, fct)
            &&& update matches Some(s) ==> stmt_rules_hold(*s, fct)
            &&& stmt_rules_hold(*body, fct)
        },
        StmtKind::Assignment { lhs, .. } => {
            &&& is_assignable(lhs)
            &&& (lhs.kind is Identifier || lhs.kind is Tuple) ==> !final_violation(fct.is_constructor, lhs)
        },
        StmtKind::Return(e) => !fct.is_constructor && return_arity(e) == fct.return_parameters.len(),
        StmtKind::Require(c) => c.ty().privacy_annotation == Some(PrivacyLabel::All),
        _ => true,
    }
}

/// `x` is the statement `s` type-checked inside `fct`: the same node, with
/// every expression typed and well-formed, and every rule holding.
pub open spec fn checked_stmt(s: Stmt, x: Stmt, fct: ConstructorOrFunctionDefinition) -> bool {
    &&& same_stmt(x, s)
    &&& x.spec_typed()
    &&& stmt_well_formed(x)
    &&& stmt_rules_hold(x, fct)
}

/// The typed `rhs` may be assigned to the typed `lhs` inside `fct`: the
/// target is a location, the value fits its type, and a `final` variable is
/// not assigned outside a constructor.
pub open spec fn assignment_allowed(
    lhs: Expr,
    rhs: Expr,
    fct: ConstructorOrFunctionDefinition,
    analysis: Option<&PartitionState>,
) -> bool {
    &&& is_assignable(lhs)
    &&& rhs_fits(rhs, lhs.ty(), analysis)
    &&& (lhs.kind is Identifier || lhs.kind is Tuple) ==> !final_violation(fct.is_constructor, lhs)
}

/// Type-checking `s` inside `fct` succeeds: every expression of the
/// statement is a leaf that type-checks, and each statement meets its rule on
/// the checked leaves (a condition, an initializer, an assigned or a returned
/// value that fits, a public `require`, a `return` in a function with as many
/// values as it declares).
pub open spec fn stmt_succeeds(s: Stmt, fct: ConstructorOrFunctionDefinition) -> bool
    decreases s,
{
    match s.kind {
        StmtKind::Block(ss) => forall|i: int| 0 <= i < ss.len() ==> stmt_succeeds(#[trigger] ss@[i], fct),
        StmtKind::StatementList(ss) => forall|i: int| 0 <= i < ss.len() ==> stmt_succeeds(#[trigger] ss@[i], fct),
        StmtKind::If { condition, then_branch, else_branch } => {
            &&& leaf_succeeds(condition)
            &&& if_condition_outcome(checked_leaf(condition), analysis_of(&s)) is Ok
            &&& stmt_succeeds(*then_branch, fct)
            &&& else_branch matches Some(e) ==> stmt_succeeds(*e, fct)
        },
        StmtKind::While { condition, body } => {
            &&& leaf_succeeds(condition)
            &&& loop_condition_outcome(checked_leaf(condition), analysis_of(&s)) is Ok
            &&& stmt_succeeds(*body, fct)
        },
        StmtKind::For { init, condition, update, body } => {
            &&& init matches Some(x) ==> stmt_succeeds(*x, fct)
            &&& leaf_succeeds(condition)
            &&& loop_condition_outcome(checked_leaf(condition), analysis_of(&s)) is Ok
            &&& update matches Some(x) ==> stmt_succeeds(*x, fct)
            &&& stmt_succeeds(*body, fct)
        },
        StmtKind::Assignment { lhs, rhs } => {
            &&& leaf_succeeds(lhs)
            &&& leaf_succeeds(rhs)
            &&& assignment_allowed(checked_leaf(lhs), checked_leaf(rhs), fct, analysis_of(&s))
        },
        StmtKind::VariableDeclaration { decl, expr } => expr matches Some(e) ==> leaf_succeeds(e) && rhs_fits(
            checked_leaf(e),
            decl.annotated_type,
            analysis_of(&s),
        ),
        StmtKind::Return(e) => {
            &&& !fct.is_constructor
            &&& return_arity(e) == fct.return_parameters.len()
            &&& e matches Some(x) ==> leaf_succeeds(x) && rhs_fits(
                checked_leaf(x),
                declared_types(fct.return_parameters@)[0],
                analysis_of(&s),
            )
        },
        StmtKind::Require(c) => leaf_succeeds(c) && checked_leaf(c).ty().privacy_annotation == Some(PrivacyLabel::All),
        StmtKind::ExpressionStatement(e) => leaf_succeeds(e),
        StmtKind::Break => true,
        StmtKind::Continue => true,
    }
}

/// Type-checking `s` inside `fct` is refused: some leaf of it is refused, or
/// some statement of it breaks its rule on leaves that type-check (see
/// `stmt_succeeds`), or it holds a `return` inside a constructor, or one that
/// gives no value where the function declares some.
pub open spec fn stmt_fails(s: Stmt, fct: ConstructorOrFunctionDefinition) -> bool
    decreases s,
{
    match s.kind {
        StmtKind::Block(ss) => exists|i: int| 0 <= i < ss.len() && stmt_fails(#[trigger] ss@[i], fct),
        StmtKind::StatementList(ss) => exists|i: int| 0 <= i < ss.len() && stmt_fails(#[trigger] ss@[i], fct),
        StmtKind::If { condition, then_branch, else_branch } => {
            ||| leaf_fails(condition)
            ||| leaf_succeeds(condition) && if_condition_outcome(checked_leaf(condition), analysis_of(&s)) is Err
            ||| stmt_fails(*then_branch, fct)
            ||| else_branch matches Some(e) && stmt_fails(*e, fct)
        },
        StmtKind::While { condition, body } => {
            ||| leaf_fails(condition)
            ||| leaf_succeeds(condition) && loop_condition_outcome(checked_leaf(condition), analysis_of(&s)) is Err
            ||| stmt_fails(*body, fct)
        },
        StmtKind::For { init, condition, update, body } => {
            ||| init matches Some(x) && stmt_fails(*x, fct)
            ||| leaf_fails(condition)
            ||| leaf_succeeds(condition) && loop_condition_outcome(checked_leaf(condition), analysis_of(&s)) is Err
            ||| update matches Some(x) && stmt_fails(*x, fct)
            ||| stmt_fails(*body, fct)
        },
        StmtKind::Assignment { lhs, rhs } => {
            ||| leaf_fails(lhs)
            ||| leaf_fails(rhs)
            ||| leaf_succeeds(lhs) && leaf_succeeds(rhs) && !assignment_allowed(
                checked_leaf(lhs),
                checked_leaf(rhs),
                fct,
                analysis_of(&s),
            )
        },
        StmtKind::VariableDeclaration { decl, expr } => expr matches Some(e) && (leaf_fails(e) || leaf_succeeds(e) && !rhs_fits(
            checked_leaf(e),
            decl.annotated_type,
            analysis_of(&s),
        )),
        StmtKind::Return(e) => {
            ||| fct.is_constructor
            ||| e is None && fct.return_parameters.len() != 0
            ||| e matches Some(x) && leaf_fails(x)
            ||| e matches Some(x) && leaf_succeeds(x) && fct.return_parameters.len() != 1
            ||| e matches Some(x) && leaf_succeeds(x) && !rhs_fits(
                checked_leaf(x),
                declared_types(fct.return_parameters@)[0],
                analysis_of(&s),
            )
        },
        StmtKind::Require(c) => leaf_fails(c) || leaf_succeeds(c) && checked_leaf(c).ty().privacy_annotation != Some(
            PrivacyLabel::All,
        ),
        StmtKind::ExpressionStatement(e) => leaf_fails(e),
        StmtKind::Break => false,
        StmtKind::Continue => false,
    }
}

/// `f` without its body: the function a statement of its body is checked in.
pub open spec fn without_body(f: ConstructorOrFunctionDefinition) -> ConstructorOrFunctionDefinition {
    ConstructorOrFunctionDefinition { body: None, ..f }
}

/// The body of `f` is well-formed.
pub open spec fn function_well_formed(f: ConstructorOrFunctionDefinition) -> bool {
    f.body matches Some(b) ==> stmt_well_formed(b)
}

/// `x` is the function `f` type-checked: only its body changed, checked in
/// `f`; its parameters, and the return values of a function callable from
/// outside, are labelled `me` or `all`.
pub open spec fn checked_function(f: ConstructorOrFunctionDefinition, x: ConstructorOrFunctionDefinition) -> bool {
    &&& without_body(x) == without_body(f)
    &&& (f.body is None <==> x.body is None)
    &&& f.body matches Some(b) ==> checked_stmt(b, x.body.unwrap(), without_body(f))
    &&& all_me_or_all(f.parameters@)
    &&& f.can_be_external ==> all_me_or_all(f.return_parameters@)
}

/// Type-checking the function `f` succeeds: its parameters, and the return
/// values of a function callable from outside, are labelled `me` or `all`,
/// and its body type-checks (see `stmt_succeeds`).
pub open spec fn function_succeeds(f: ConstructorOrFunctionDefinition) -> bool {
    &&& all_me_or_all(f.parameters@)
    &&& f.can_be_external ==> all_me_or_all(f.return_parameters@)
    &&& f.body matches Some(b) ==> stmt_succeeds(b, without_body(f))
}

/// Type-checking the function `f` is refused: a label of its parameters or
/// return values is wrong, or its body is refused (see `stmt_fails`).
pub open spec fn function_fails(f: ConstructorOrFunctionDefinition) -> bool {
    ||| !all_me_or_all(f.parameters@)
    ||| f.can_be_external && !all_me_or_all(f.return_parameters@)
    ||| f.body matches Some(b) && stmt_fails(b, without_body(f))
}

/// The public type of the values of the enum `enum_id`.
pub open spec fn enum_value_type(enum_id: u64) -> AnnotatedTypeName {
    AnnotatedTypeName {
        ty: Box::new(TypeName::EnumValue(enum_id)),
        privacy_annotation: Some(PrivacyLabel::All),
        homomorphism: Homomorphism::NonHomomorphic,
    }
}

/// `x` is the enum `e` type-checked: it and each of its values carry their
/// public types.
pub open spec fn checked_enum(e: EnumDefinition, x: EnumDefinition) -> bool {
    &&& x == EnumDefinition {
        values: x.values,
        annotated_type: Some(
            AnnotatedTypeName {
                ty: Box::new(TypeName::Enum(e.id)),
                privacy_annotation: Some(PrivacyLabel::All),
                homomorphism: Homomorphism::NonHomomorphic,
            },
        ),
        ..e
    }
    &&& x.values.len() == e.values.len()
    &&& forall|i: int|
        0 <= i < x.values.len() ==> #[trigger] x.values@[i] == (EnumValue {
            annotated_type: Some(enum_value_type(e.id)),
            ..e.values@[i]
        })
}

/// The initializer of the state variable is well-formed.
pub open spec fn state_variable_well_formed(v: StateVariableDeclaration) -> bool {
    v.expr matches Some(e) ==> e.spec_well_formed()
}

/// `x` is the state variable `v` type-checked: its initializer typed, with no
/// private part, and the variable not labelled `me`.
pub open spec fn checked_state_variable(v: StateVariableDeclaration, x: StateVariableDeclaration) -> bool {
    &&& x.decl == v.decl
    &&& (v.expr is None <==> x.expr is None)
    &&& v.expr matches Some(e) ==> checked_expr(e, x.expr.unwrap()) && !expr_contains_private(x.expr.unwrap())
    &&& v.decl.annotated_type.privacy_annotation != Some(PrivacyLabel::Me)
}

/// Type-checking the state variable `v` succeeds: it is not labelled `me`,
/// and its initializer, if any, is a leaf that type-checks, has no private
/// part and fits the variable's type.
pub open spec fn state_variable_succeeds(v: StateVariableDeclaration) -> bool {
    &&& v.decl.annotated_type.privacy_annotation != Some(PrivacyLabel::Me)
    &&& v.expr matches Some(e) ==> {
        &&& leaf_succeeds(e)
        &&& !expr_contains_private(checked_leaf(e))
        &&& rhs_fits(checked_leaf(e), v.decl.annotated_type, None)
    }
}

/// Type-checking the state variable `v` is refused: it is labelled `me`, or
/// its initializer is a leaf that is refused, or one that type-checks but has
/// a private part or does not fit the variable's type.
pub open spec fn state_variable_fails(v: StateVariableDeclaration) -> bool {
    ||| v.decl.annotated_type.privacy_annotation == Some(PrivacyLabel::Me)
    ||| v.expr matches Some(e) && leaf_fails(e)
    ||| v.expr matches Some(e) && leaf_succeeds(e) && (expr_contains_private(checked_leaf(e)) || !rhs_fits(
        checked_leaf(e),
        v.decl.annotated_type,
        None,
    ))
}

/// Type-checking the contract `c` succeeds: each of its state variables,
/// constructors and functions type-checks.
pub open spec fn contract_succeeds(c: ContractDefinition) -> bool {
    &&& forall|i: int|
        0 <= i < c.state_variable_declarations.len() ==> state_variable_succeeds(#[trigger] c.state_variable_declarations@[i])
    &&& forall|i: int| 0 <= i < c.constructor_definitions.len() ==> function_succeeds(#[trigger] c.constructor_definitions@[i])
    &&& forall|i: int| 0 <= i < c.function_definitions.len() ==> function_succeeds(#[trigger] c.function_definitions@[i])
}

/// Type-checking the contract `c` is refused: one of its state variables,
/// constructors or functions is refused.
pub open spec fn contract_fails(c: ContractDefinition) -> bool {
    ||| exists|i: int|
        0 <= i < c.state_variable_declarations.len() && state_variable_fails(#[trigger] c.state_variable_declarations@[i])
    ||| exists|i: int| 0 <= i < c.constructor_definitions.len() && function_fails(#[trigger] c.constructor_definitions@[i])
    ||| exists|i: int| 0 <= i < c.function_definitions.len() && function_fails(#[trigger] c.function_definitions@[i])
}

/// Every initializer and function body of the contract is well-formed.
pub open spec fn contract_well_formed(c: ContractDefinition) -> bool {
    &&& forall|i: int|
        0 <= i < c.state_variable_declarations.len() ==> state_variable_well_formed(
            #[trigger] c.state_variable_declarations@[i],
        )
    &&& forall|i: int| 0 <= i < c.constructor_definitions.len() ==> function_well_formed(#[trigger] c.constructor_definitions@[i])
    &&& forall|i: int| 0 <= i < c.function_definitions.len() ==> function_well_formed(#[trigger] c.function_definitions@[i])
}

/// Each function of `xs` is the function of `fs` at its index, type-checked.
pub open spec fn checked_functions(fs: Seq<ConstructorOrFunctionDefinition>, xs: Seq<ConstructorOrFunctionDefinition>) -> bool {
    &&& xs.len() == fs.len()
    &&& forall|i: int| 0 <= i < xs.len() ==> checked_function(fs[i], #[trigger] xs[i])
}

/// `x` is the contract `c` type-checked, part by part.
pub open spec fn checked_contract(c: ContractDefinition, x: ContractDefinition) -> bool {
    &&& x.id == c.id
    &&& x.idf == c.idf
    &&& x.parent == c.parent
    &&& x.namespace == c.namespace
    &&& x.enum_definitions.len() == c.enum_definitions.len()
    &&& forall|i: int| 0 <= i < x.enum_definitions.len() ==> checked_enum(c.enum_definitions@[i], #[trigger] x.enum_definitions@[i])
    &&& x.state_variable_declarations.len() == c.state_variable_declarations.len()
    &&& forall|i: int|
        0 <= i < x.state_variable_declarations.len() ==> checked_state_variable(
            c.state_variable_declarations@[i],
            #[trigger] x.state_variable_declarations@[i],
        )
    &&& checked_functions(c.constructor_definitions@, x.constructor_definitions@)
    &&& checked_functions(c.function_definitions@, x.function_definitions@)
}

impl TypeCheckVisitor {
    /// Type-checks an expression: its children first, then the node by the
    /// visit function of its kind; literals have their literal types. A node
    /// that ends up without a type (`all`, an identifier of a mapping's key
    /// label, an untyped `new`) is refused.
    pub fn type_check_expr(&mut self, e: Expr, analysis: Option<&PartitionState>) -> (r: Result<Expr, TypeError>)
        requires
            e.spec_well_formed(),
        ensures
            r matches Ok(x) ==> checked_expr(e, x),
            is_leaf_expr(e) ==> r == leaf_outcome(e),
            e.kind matches ExprKind::BooleanLiteral(b) ==> r == Ok::<Expr, TypeError>(
                Expr { annotated_type: Some(public_type(TypeName::BooleanLiteral(b))), ..e },
            ),
            e.kind matches ExprKind::NumberLiteral(v) ==> r == Ok::<Expr, TypeError>(
                Expr { annotated_type: Some(public_type(TypeName::NumberLiteral(v))), ..e },
            ),
            e.kind is Me ==> r == Ok::<Expr, TypeError>(Expr { annotated_type: Some(public_type(TypeName::Address)), ..e }),
            e.kind is All ==> r == if e.annotated_type is None {
                Err::<Expr, TypeError>(TypeError::UntypedTarget)
            } else {
                Ok::<Expr, TypeError>(e)
            },
            e.kind matches ExprKind::Identifier { target, .. } ==> r == match target {
                None => Err::<Expr, TypeError>(TypeError::UnresolvedTarget),
                Some(t) => if t.kind == DeclKind::Contract {
                    Err::<Expr, TypeError>(TypeError::ContractTypeInExpression)
                } else if t.kind == DeclKind::Mapping {
                    if e.annotated_type is None {
                        Err::<Expr, TypeError>(TypeError::UntypedTarget)
                    } else {
                        Ok::<Expr, TypeError>(e)
                    }
                } else if t.annotated_type is None {
                    Err::<Expr, TypeError>(TypeError::UntypedTarget)
                } else {
                    Ok::<Expr, TypeError>(Expr { annotated_type: t.annotated_type, ..e })
                },
            },
        decreases e, 1nat,
    {
        let ghost ge = e;
        let Expr { id, kind, annotated_type, evaluate_privately, line, column, parent, statement, namespace } = e;
        let new_kind = match kind {
            ExprKind::Index { arr, key } => {
                let a = self.type_check_expr(*arr, analysis)?;
                let k = self.type_check_expr(*key, analysis)?;
                ExprKind::Index { arr: Box::new(a), key: Box::new(k) }
            },
            ExprKind::MemberAccess { expr, member, target } => {
                let x = self.type_check_expr(*expr, analysis)?;
                ExprKind::MemberAccess { expr: Box::new(x), member, target }
            },
            ExprKind::FunctionCall { func, args } => {
                let new_func = match func {
                    Callee::Builtin(b) => Callee::Builtin(b),
                    Callee::Location(l) => Callee::Location(Box::new(self.type_check_expr(*l, analysis)?)),
                };
                proof {
                    assert(decreases_to!(ge => ge.kind));
                    assert(decreases_to!(ge.kind => ge.kind->FunctionCall_args));
                }
                let new_args = self.type_check_exprs(args, analysis, Ghost(ge))?;
                ExprKind::FunctionCall { func: new_func, args: new_args }
            },
            ExprKind::PrimitiveCast { elem_type, expr, is_implicit } => {
                let x = self.type_check_expr(*expr, analysis)?;
                ExprKind::PrimitiveCast { elem_type, expr: Box::new(x), is_implicit }
            },
            ExprKind::Reclassify { expr, privacy, homomorphism, is_rehom } => {
                let x = self.type_check_expr(*expr, analysis)?;
                ExprKind::Reclassify { expr: Box::new(x), privacy, homomorphism, is_rehom }
            },
            ExprKind::Tuple(elems) => {
                proof {
                    assert(decreases_to!(ge => ge.kind));
                    assert(decreases_to!(ge.kind => ge.kind->Tuple_0));
                }
                ExprKind::Tuple(self.type_check_exprs(elems, analysis, Ghost(ge))?)
            },
            ExprKind::New { ty, args } => {
                proof {
                    assert(decreases_to!(ge => ge.kind));
                    assert(decreases_to!(ge.kind => ge.kind->New_args));
                }
                ExprKind::New { ty, args: self.type_check_exprs(args, analysis, Ghost(ge))? }
            },
            other => other,
        };
        let node = Expr { id, kind: new_kind, annotated_type, evaluate_privately, line, column, parent, statement, namespace };
        let checked = match &node.kind {
            ExprKind::BooleanLiteral(b) => {
                let t = AnnotatedTypeName::new(TypeName::BooleanLiteral(*b), Some(PrivacyLabel::All), Homomorphism::NonHomomorphic);
                Expr { annotated_type: Some(t), ..node }
            },
            ExprKind::NumberLiteral(v) => {
                let t = AnnotatedTypeName::new(TypeName::NumberLiteral(*v), Some(PrivacyLabel::All), Homomorphism::NonHomomorphic);
                Expr { annotated_type: Some(t), ..node }
            },
            ExprKind::Me => self.visitMeExpr(node),
            ExprKind::All => node,
            ExprKind::Identifier { .. } => self.visitIdentifierExpr(node)?,
            ExprKind::Index { .. } => self.visitIndexExpr(node, analysis)?,
            ExprKind::MemberAccess { .. } => self.visitMemberAccessExpr(node)?,
            ExprKind::FunctionCall { .. } => self.visitFunctionCallExpr(node, analysis)?,
            ExprKind::PrimitiveCast { .. } => self.visitPrimitiveCastExpr(node, analysis)?,
            ExprKind::Reclassify { .. } => self.visitReclassifyExpr(node, analysis)?,
            ExprKind::Tuple(_) => self.visitTupleExpr(node),
            ExprKind::New { .. } => self.visitNewExpr(node),
        };
        if checked.annotated_type.is_none() {
            return Err(TypeError::UntypedTarget);
        }
        proof {
            crate::ast::lemma_typed_from_children(checked);
        }
        Ok(checked)
    }

    fn type_check_exprs(&mut self, es: Vec<Expr>, analysis: Option<&PartitionState>, Ghost(whole): Ghost<Expr>) -> (r: Result<
        Vec<Expr>,
        TypeError,
    >)
        requires
            decreases_to!(whole => es),
            forall|i: int| 0 <= i < es.len() ==> (#[trigger] es@[i]).spec_well_formed(),
        ensures
            r matches Ok(v) ==> v.len() == es.len() && forall|i: int| 0 <= i < v.len() ==> checked_expr(es@[i], #[trigger] v@[i]),
            (forall|i: int| 0 <= i < es.len() ==> leaf_succeeds(#[trigger] es@[i])) ==> (r matches Ok(v) && forall|i: int|
                0 <= i < v.len() ==> #[trigger] v@[i] == checked_leaf(es@[i])),
            (exists|i: int| 0 <= i < es.len() && leaf_fails(#[trigger] es@[i])) ==> r is Err,
        decreases whole, 0nat,
    {
        let ghost old_es = es;
        let mut rest = es;
        let mut out: Vec<Expr> = Vec::new();
        while rest.len() > 0
            invariant
                out.len() + rest.len() == old_es.len(),
                rest@ == old_es@.subrange(out.len() as int, old_es.len() as int),
                decreases_to!(whole => old_es),
                forall|i: int| 0 <= i < old_es.len() ==> (#[trigger] old_es@[i]).spec_well_formed(),
                forall|j: int| 0 <= j < out.len() ==> checked_expr(old_es@[j], #[trigger] out@[j]),
                old_es == es,
                forall|j: int| 0 <= j < out.len() ==> !leaf_fails(#[trigger] old_es@[j]),
                forall|j: int| 0 <= j < out.len() && leaf_succeeds(old_es@[j]) ==> #[trigger] out@[j] == checked_leaf(old_es@[j]),
            decreases rest.len(),
        {
            let k = rest.remove(0);
            let ghost i = out.len() as int;
            proof {
                assert(k == old_es@[i]);
                vstd::std_specs::vec::axiom_vec_index_decreases(old_es, i);
            }
            let nk = match self.type_check_expr(k, analysis) {
                Ok(x) => x,
                Err(err) => {
                    proof {
                        assert(!leaf_succeeds(old_es@[i]));
                    }
                    return Err(err);
                },
            };
            out.push(nk);
        }
        Ok(out)
    }
}

impl TypeCheckVisitor {
    /// Type-checks a statement of `fct`: its expressions and inner statements
    /// first, then the statement by the visit function of its kind, with the
    /// partition state before the statement.
    pub fn type_check_stmt(&mut self, s: Stmt, fct: &ConstructorOrFunctionDefinition) -> (r: Result<Stmt, TypeError>)
        requires
            stmt_well_formed(s),
        ensures
            r matches Ok(x) ==> checked_stmt(s, x, *fct),
            s.kind is Return && fct.is_constructor ==> r is Err,
            (s.kind is Break || s.kind is Continue) ==> r == Ok::<Stmt, TypeError>(s),
            stmt_succeeds(s, *fct) ==> r is Ok,
            stmt_fails(s, *fct) ==> r is Err,
        decreases s, 1nat,
    {
        let ghost gs = s;
        let Stmt { id, kind, line, column, parent, function, namespace, before_analysis, modified_values } = s;
        let an = before_analysis.as_ref();
        proof {
            assert(an == analysis_of(&gs));
        }
        match kind {
            StmtKind::Block(ss) => {
                proof {
                    assert(decreases_to!(gs => gs.kind));
                    assert(decreases_to!(gs.kind => gs.kind->Block_0));
                }
                let new_ss = self.type_check_stmts(ss, fct, Ghost(gs))?;
                Ok(Stmt { id, kind: StmtKind::Block(new_ss), line, column, parent, function, namespace, before_analysis, modified_values })
            },
            StmtKind::StatementList(ss) => {
                proof {
                    assert(decreases_to!(gs => gs.kind));
                    assert(decreases_to!(gs.kind => gs.kind->StatementList_0));
                }
                let new_ss = self.type_check_stmts(ss, fct, Ghost(gs))?;
                Ok(Stmt {
                    id,
                    kind: StmtKind::StatementList(new_ss),
                    line,
                    column,
                    parent,
                    function,
                    namespace,
                    before_analysis,
                    modified_values,
                })
            },
            StmtKind::If { condition, then_branch, else_branch } => {
                let c = self.type_check_expr(condition, an)?;
                let t = self.type_check_stmt(*then_branch, fct)?;
                let e = match else_branch {
                    Some(b) => Some(Box::new(self.type_check_stmt(*b, fct)?)),
                    None => None,
                };
                let x = Stmt {
                    id,
                    kind: StmtKind::If { condition: c, then_branch: Box::new(t), else_branch: e },
                    line,
                    column,
                    parent,
                    function,
                    namespace,
                    before_analysis: None,
                    modified_values,
                };
                self.visitIfStatement(&x, an)?;
                Ok(Stmt { before_analysis, ..x })
            },
            StmtKind::While { condition, body } => {
                let c = self.type_check_expr(condition, an)?;
                let b = self.type_check_stmt(*body, fct)?;
                let x = Stmt {
                    id,
                    kind: StmtKind::While { condition: c, body: Box::new(b) },
                    line,
                    column,
                    parent,
                    function,
                    namespace,
                    before_analysis: None,
                    modified_values,
                };
                self.visitWhileStatement(&x, an)?;
                Ok(Stmt { before_analysis, ..x })
            },
            StmtKind::For { init, condition, update, body } => {
                let i = match init {
                    Some(b) => Some(Box::new(self.type_check_stmt(*b, fct)?)),
                    None => None,
                };
                let c = self.type_check_expr(condition, an)?;
                let u = match update {
                    Some(b) => Some(Box::new(self.type_check_stmt(*b, fct)?)),
                    None => None,
                };
                let b = self.type_check_stmt(*body, fct)?;
                let x = Stmt {
                    id,
                    kind: StmtKind::For { init: i, condition: c, update: u, body: Box::new(b) },
                    line,
                    column,
                    parent,
                    function,
                    namespace,
                    before_analysis: None,
                    modified_values,
                };
                self.visitForStatement(&x, an)?;
                Ok(Stmt { before_analysis, ..x })
            },
            StmtKind::Assignment { lhs, rhs } => {
                let l = self.type_check_expr(lhs, an)?;
                let rr = self.type_check_expr(rhs, an)?;
                let x = Stmt {
                    id,
                    kind: StmtKind::Assignment { lhs: l, rhs: rr },
                    line,
                    column,
                    parent,
                    function,
                    namespace,
                    before_analysis: None,
                    modified_values,
                };
                let y = self.visitAssignmentStatement(x, fct, an)?;
                Ok(Stmt { before_analysis, ..y })
            },
            StmtKind::VariableDeclaration { decl, expr } => {
                let e = match expr {
                    Some(v) => Some(self.type_check_expr(v, an)?),
                    None => None,
                };
                let x = Stmt {
                    id,
                    kind: StmtKind::VariableDeclaration { decl, expr: e },
                    line,
                    column,
                    parent,
                    function,
                    namespace,
                    before_analysis: None,
                    modified_values,
                };
                let y = self.visitVariableDeclarationStatement(x, an)?;
                Ok(Stmt { before_analysis, ..y })
            },
            StmtKind::Return(e) => {
                if fct.is_constructor {
                    return Err(TypeError::ReturnOutsideFunction);
                }
                let v = match e {
                    Some(v) => Some(self.type_check_expr(v, an)?),
                    None => None,
                };
                let x = Stmt {
                    id,
                    kind: StmtKind::Return(v),
                    line,
                    column,
                    parent,
                    function,
                    namespace,
                    before_analysis: None,
                    modified_values,
                };
                let y = self.visitReturnStatement(x, fct, an)?;
                Ok(Stmt { before_analysis, ..y })
            },
            StmtKind::Require(c) => {
                let c2 = self.type_check_expr(c, an)?;
                let x = Stmt {
                    id,
                    kind: StmtKind::Require(c2),
                    line,
                    column,
                    parent,
                    function,
                    namespace,
                    before_analysis,
                    modified_values,
                };
                self.visitRequireStatement(&x)?;
                Ok(x)
            },
            StmtKind::ExpressionStatement(c) => {
                let c2 = self.type_check_expr(c, an)?;
                Ok(Stmt {
                    id,
                    kind: StmtKind::ExpressionStatement(c2),
                    line,
                    column,
                    parent,
                    function,
                    namespace,
                    before_analysis,
                    modified_values,
                })
            },
            StmtKind::Break => Ok(Stmt { id, kind: StmtKind::Break, line, column, parent, function, namespace, before_analysis, modified_values }),
            StmtKind::Continue => Ok(
                Stmt { id, kind: StmtKind::Continue, line, column, parent, function, namespace, before_analysis, modified_values },
            ),
        }
    }

    fn type_check_stmts(&mut self, ss: Vec<Stmt>, fct: &ConstructorOrFunctionDefinition, Ghost(whole): Ghost<Stmt>) -> (r: Result<
        Vec<Stmt>,
        TypeError,
    >)
        requires
            decreases_to!(whole => ss),
            forall|i: int| 0 <= i < ss.len() ==> stmt_well_formed(#[trigger] ss@[i]),
        ensures
            r matches Ok(v) ==> v.len() == ss.len() && forall|i: int| 0 <= i < v.len() ==> checked_stmt(ss@[i], #[trigger] v@[i], *fct),
            (forall|i: int| 0 <= i < ss.len() ==> stmt_succeeds(#[trigger] ss@[i], *fct)) ==> r is Ok,
            (exists|i: int| 0 <= i < ss.len() && stmt_fails(#[trigger] ss@[i], *fct)) ==> r is Err,
        decreases whole, 0nat,
    {
        let ghost old_ss = ss;
        let mut rest = ss;
        let mut out: Vec<Stmt> = Vec::new();
        while rest.len() > 0
            invariant
                out.len() + rest.len() == old_ss.len(),
                rest@ == old_ss@.subrange(out.len() as int, old_ss.len() as int),
                decreases_to!(whole => old_ss),
                forall|i: int| 0 <= i < old_ss.len() ==> stmt_well_formed(#[trigger] old_ss@[i]),
                forall|j: int| 0 <= j < out.len() ==> checked_stmt(old_ss@[j], #[trigger] out@[j], *fct),
                old_ss == ss,
                forall|j: int| 0 <= j < out.len() ==> !stmt_fails(#[trigger] old_ss@[j], *fct),
            decreases rest.len(),
        {
            let k = rest.remove(0);
            let ghost i = out.len() as int;
            proof {
                assert(k == old_ss@[i]);
                vstd::std_specs::vec::axiom_vec_index_decreases(old_ss, i);
            }
            let nk = match self.type_check_stmt(k, fct) {
                Ok(x) => x,
                Err(err) => {
                    proof {
                        assert(!stmt_succeeds(old_ss@[i], *fct));
                    }
                    return Err(err);
                },
            };
            out.push(nk);
        }
        Ok(out)
    }
}

impl TypeCheckVisitor {
    /// Type-checks a constructor or function: its body, then the labels of its
    /// parameters and return values.
    pub fn type_check_function(&mut self, f: ConstructorOrFunctionDefinition) -> (r: Result<
        ConstructorOrFunctionDefinition,
        TypeError,
    >)
        requires
            function_well_formed(f),
        ensures
            r matches Ok(x) ==> checked_function(f, x),
            !all_me_or_all(f.parameters@) ==> r is Err,
            f.can_be_external && !all_me_or_all(f.return_parameters@) ==> r is Err,
            function_succeeds(f) ==> r is Ok,
            function_fails(f) ==> r is Err,
            f.body is None && function_succeeds(f) ==> r == Ok::<ConstructorOrFunctionDefinition, TypeError>(f),
    {
        let ConstructorOrFunctionDefinition {
            id,
            idf,
            is_constructor,
            parameters,
            return_parameters,
            body,
            can_be_external,
            can_be_private,
            requires_verification,
            requires_verification_when_external,
            has_static_body,
            has_side_effects,
            is_recursive,
            called_functions,
            parent,
            namespace,
        } = f;
        let g = ConstructorOrFunctionDefinition {
            id,
            idf,
            is_constructor,
            parameters,
            return_parameters,
            body: None,
            can_be_external,
            can_be_private,
            requires_verification,
            requires_verification_when_external,
            has_static_body,
            has_side_effects,
            is_recursive,
            called_functions,
            parent,
            namespace,
        };
        let new_body = match body {
            Some(b) => Some(self.type_check_stmt(b, &g)?),
            None => None,
        };
        self.visitConstructorOrFunctionDefinition(&g)?;
        Ok(ConstructorOrFunctionDefinition { body: new_body, ..g })
    }
}

impl TypeCheckVisitor {
    /// Types an enum and its values.
    fn type_check_enum(&self, e: EnumDefinition) -> (r: EnumDefinition)
        ensures
            checked_enum(e, r),
    {
        let EnumDefinition { id, idf, values, annotated_type, parent, namespace } = e;
        let ghost old_values = values;
        let mut rest = values;
        let mut out: Vec<EnumValue> = Vec::new();
        while rest.len() > 0
            invariant
                out.len() + rest.len() == old_values.len(),
                rest@ == old_values@.subrange(out.len() as int, old_values.len() as int),
                forall|j: int|
                    0 <= j < out.len() ==> #[trigger] out@[j] == (EnumValue {
                        annotated_type: Some(enum_value_type(id)),
                        ..old_values@[j]
                    }),
            decreases rest.len(),
        {
            let v = rest.remove(0);
            proof {
                assert(v == old_values@[out.len() as int]);
            }
            out.push(self.visitEnumValue(v, id));
        }
        self.visitEnumDefinition(EnumDefinition { id, idf, values: out, annotated_type, parent, namespace })
    }

    /// Types the initializer of a state variable, then checks the variable.
    fn type_check_state_variable(&mut self, v: StateVariableDeclaration) -> (r: Result<StateVariableDeclaration, TypeError>)
        requires
            state_variable_well_formed(v),
        ensures
            r matches Ok(x) ==> checked_state_variable(v, x),
            v.decl.annotated_type.privacy_annotation == Some(PrivacyLabel::Me) ==> r is Err,
            state_variable_succeeds(v) ==> r is Ok,
            state_variable_fails(v) ==> r is Err,
    {
        let StateVariableDeclaration { decl, expr } = v;
        let e = match expr {
            Some(x) => Some(self.type_check_expr(x, None)?),
            None => None,
        };
        let x = StateVariableDeclaration { decl, expr: e };
        self.visitStateVariableDeclaration(&x)?;
        Ok(x)
    }

    fn type_check_functions(&mut self, fs: Vec<ConstructorOrFunctionDefinition>) -> (r: Result<
        Vec<ConstructorOrFunctionDefinition>,
        TypeError,
    >)
        requires
            forall|i: int| 0 <= i < fs.len() ==> function_well_formed(#[trigger] fs@[i]),
        ensures
            r matches Ok(v) ==> checked_functions(fs@, v@),
            (forall|i: int| 0 <= i < fs.len() ==> function_succeeds(#[trigger] fs@[i])) ==> r is Ok,
            (exists|i: int| 0 <= i < fs.len() && function_fails(#[trigger] fs@[i])) ==> r is Err,
    {
        let ghost old_fs = fs;
        let mut rest = fs;
        let mut out: Vec<ConstructorOrFunctionDefinition> = Vec::new();
        while rest.len() > 0
            invariant
                out.len() + rest.len() == old_fs.len(),
                rest@ == old_fs@.subrange(out.len() as int, old_fs.len() as int),
                forall|i: int| 0 <= i < old_fs.len() ==> function_well_formed(#[trigger] old_fs@[i]),
                forall|j: int| 0 <= j < out.len() ==> checked_function(old_fs@[j], #[trigger] out@[j]),
                old_fs == fs,
                forall|j: int| 0 <= j < out.len() ==> !function_fails(#[trigger] old_fs@[j]),
            decreases rest.len(),
        {
            let f = rest.remove(0);
            let ghost i = out.len() as int;
            proof {
                assert(f == old_fs@[i]);
            }
            let x = match self.type_check_function(f) {
                Ok(x) => x,
                Err(err) => {
                    proof {
                        assert(!function_succeeds(old_fs@[i]));
                    }
                    return Err(err);
                },
            };
            out.push(x);
        }
        Ok(out)
    }

    /// Type-checks a contract: its enums, its state variables, its
    /// constructors and its functions, in this order.
    pub fn type_check_contract(&mut self, c: ContractDefinition) -> (r: Result<ContractDefinition, TypeError>)
        requires
            contract_well_formed(c),
        ensures
            r matches Ok(x) ==> checked_contract(c, x),
            contract_succeeds(c) ==> r is Ok,
            contract_fails(c) ==> r is Err,
    {
        let ContractDefinition {
            id,
            idf,
            state_variable_declarations,
            constructor_definitions,
            function_definitions,
            enum_definitions,
            parent,
            namespace,
        } = c;
        let ghost old_enums = enum_definitions;
        let mut rest = enum_definitions;
        let mut enums: Vec<EnumDefinition> = Vec::new();
        while rest.len() > 0
            invariant
                enums.len() + rest.len() == old_enums.len(),
                rest@ == old_enums@.subrange(enums.len() as int, old_enums.len() as int),
                forall|j: int| 0 <= j < enums.len() ==> checked_enum(old_enums@[j], #[trigger] enums@[j]),
            decreases rest.len(),
        {
            let e = rest.remove(0);
            proof {
                assert(e == old_enums@[enums.len() as int]);
            }
            enums.push(self.type_check_enum(e));
        }
        let ghost old_vars = state_variable_declarations;
        let mut rest_vars = state_variable_declarations;
        let mut vars: Vec<StateVariableDeclaration> = Vec::new();
        while rest_vars.len() > 0
            invariant
                vars.len() + rest_vars.len() == old_vars.len(),
                rest_vars@ == old_vars@.subrange(vars.len() as int, old_vars.len() as int),
                forall|i: int| 0 <= i < old_vars.len() ==> state_variable_well_formed(#[trigger] old_vars@[i]),
                forall|j: int| 0 <= j < vars.len() ==> checked_state_variable(old_vars@[j], #[trigger] vars@[j]),
                old_vars == c.state_variable_declarations,
                forall|j: int| 0 <= j < vars.len() ==> !state_variable_fails(#[trigger] old_vars@[j]),
            decreases rest_vars.len(),
        {
            let v = rest_vars.remove(0);
            let ghost i = vars.len() as int;
            proof {
                assert(v == old_vars@[i]);
            }
            let x = match self.type_check_state_variable(v) {
                Ok(x) => x,
                Err(err) => {
                    proof {
                        assert(!state_variable_succeeds(old_vars@[i]));
                    }
                    return Err(err);
                },
            };
            vars.push(x);
        }
        let ctors = self.type_check_functions(constructor_definitions)?;
        let fns = self.type_check_functions(function_definitions)?;
        Ok(ContractDefinition {
            id,
            idf,
            state_variable_declarations: vars,
            constructor_definitions: ctors,
            function_definitions: fns,
            enum_definitions: enums,
            parent,
            namespace,
        })
    }
}

/// Every contract of the source unit is well-formed.
pub open spec fn source_unit_well_formed(su: SourceUnit) -> bool {
    forall|i: int| 0 <= i < su.contracts.len() ==> contract_well_formed(#[trigger] su.contracts@[i])
}

/// Type-checks a program, contract by contract; nodes the checker adds get
/// ids from `first_id` upwards. The program comes back typed, or the first
/// rule it breaks.
pub fn type_check(su: SourceUnit, first_id: u64) -> (r: Result<SourceUnit, TypeError>)
    requires
        source_unit_well_formed(su),
    ensures
        r matches Ok(x) ==> {
            &&& x.id == su.id
            &&& x.namespace == su.namespace
            &&& x.contracts.len() == su.contracts.len()
            &&& forall|i: int| 0 <= i < x.contracts.len() ==> checked_contract(su.contracts@[i], #[trigger] x.contracts@[i])
        },
        (forall|i: int| 0 <= i < su.contracts.len() ==> contract_succeeds(#[trigger] su.contracts@[i])) ==> r is Ok,
        (exists|i: int| 0 <= i < su.contracts.len() && contract_fails(#[trigger] su.contracts@[i])) ==> r is Err,
{
    let mut v = TypeCheckVisitor::new(first_id);
    let SourceUnit { id, contracts, namespace } = su;
    let ghost old_cs = contracts;
    let mut rest = contracts;
    let mut out: Vec<ContractDefinition> = Vec::new();
    while rest.len() > 0
        invariant
            out.len() + rest.len() == old_cs.len(),
            rest@ == old_cs@.subrange(out.len() as int, old_cs.len() as int),
            forall|i: int| 0 <= i < old_cs.len() ==> contract_well_formed(#[trigger] old_cs@[i]),
            forall|j: int| 0 <= j < out.len() ==> checked_contract(old_cs@[j], #[trigger] out@[j]),
            old_cs == su.contracts,
            forall|j: int| 0 <= j < out.len() ==> !contract_fails(#[trigger] old_cs@[j]),
        decreases rest.len(),
    {
        let c = rest.remove(0);
        let ghost i = out.len() as int;
        proof {
            assert(c == old_cs@[i]);
        }
        let x = match v.type_check_contract(c) {
            Ok(x) => x,
            Err(err) => {
                proof {
                    assert(!contract_succeeds(old_cs@[i]));
                }
                return Err(err);
            },
        };
        out.push(x);
    }
    Ok(SourceUnit { id, contracts: out, namespace })
}

} // verus!
