//! The type rules of statements, declarations and type annotations.
use vstd::prelude::*;
use crate::ast::{
    ConstructorOrFunctionDefinition, DeclKind, DeclRef, Declaration, EnumDefinition, EnumValue, Expr, ExprKind,
    StateVariableDeclaration, Stmt, StmtKind,
};
use crate::type_checker::{rhs_fits, rhs_result, TypeCheckVisitor, TypeError};
use crate::types::{
    convertible, instance_of, instance_of_exec, AnnotatedTypeName, Homomorphism, InstanceOf, PartitionState, PrivacyLabel,
    TypeName,
};

verus! {

/// Assigning to `e` in a function (a constructor where `in_constructor`)
/// modifies a `final` variable: an identifier of a final variable that is not
/// a state variable assigned in a constructor, or such an element of a tuple.
pub open spec fn final_violation(in_constructor: bool, e: Expr) -> bool
    decreases e,
{
    match e.kind {
        ExprKind::Identifier { target: Some(t), .. } => t.is_final && !(t.kind == DeclKind::StateVariable && in_constructor),
        ExprKind::Tuple(elems) => exists|i: int| 0 <= i < elems.len() && final_violation(in_constructor, #[trigger] elems@[i]),
        _ => false,
    }
}

/// The target of an assignment is a location or a tuple.
pub open spec fn is_assignable(e: Expr) -> bool {
    match e.kind {
        ExprKind::Identifier { .. } | ExprKind::Index { .. } | ExprKind::MemberAccess { .. } | ExprKind::Tuple(_) => true,
        _ => false,
    }
}

/// `x` is `rhs` fitted to a place of type `t` by `get_rhs` (see
/// `rhs_result`).
pub open spec fn fitted(x: Expr, rhs: Expr, t: AnnotatedTypeName, analysis: Option<&PartitionState>) -> bool {
    rhs_result(rhs, t, analysis, x)
}

/// The values a `return` gives back, as the elements of a tuple.
pub open spec fn returned_values(e: Expr) -> Seq<Expr> {
    if e.kind is Tuple {
        e.kind->Tuple_0@
    } else {
        seq![e]
    }
}

/// The public tuple of the declared return types of `fct`.
pub open spec fn return_tuple_type(fct: ConstructorOrFunctionDefinition) -> AnnotatedTypeName {
    AnnotatedTypeName {
        ty: Box::new(TypeName::Tuple(crate::types::list_of(declared_types(fct.return_parameters@)))),
        privacy_annotation: None,
        homomorphism: Homomorphism::NonHomomorphic,
    }
}

/// `x` is the statement `s` with another kind.
pub open spec fn same_stmt(x: Stmt, s: Stmt) -> bool {
    &&& x.id == s.id
    &&& x.line == s.line
    &&& x.column == s.column
    &&& x.parent == s.parent
    &&& x.function == s.function
    &&& x.before_analysis == s.before_analysis
}

/// Whether `e` or an expression inside it has a private type.
pub open spec fn expr_contains_private(e: Expr) -> bool
    decreases e,
{
    ||| (e.annotated_type matches Some(t) && t.spec_is_private())
    ||| match e.kind {
        ExprKind::Index { arr, key } => expr_contains_private(*arr) || expr_contains_private(*key),
        ExprKind::MemberAccess { expr, .. } => expr_contains_private(*expr),
        ExprKind::FunctionCall { func, args } => {
            ||| (func matches crate::ast::Callee::Location(f) && expr_contains_private(*f))
            ||| exists|i: int| 0 <= i < args.len() && expr_contains_private(#[trigger] args@[i])
        },
        ExprKind::PrimitiveCast { expr, .. } => expr_contains_private(*expr),
        ExprKind::Reclassify { expr, .. } => expr_contains_private(*expr),
        ExprKind::Tuple(elems) => exists|i: int| 0 <= i < elems.len() && expr_contains_private(#[trigger] elems@[i]),
        ExprKind::New { args, .. } => exists|i: int| 0 <= i < args.len() && expr_contains_private(#[trigger] args@[i]),
        _ => false,
    }
}

/// The label is `me` or `all`.
pub open spec fn is_me_or_all(p: Option<PrivacyLabel>) -> bool {
    p == Some(PrivacyLabel::Me) || p == Some(PrivacyLabel::All)
}

/// The checked type annotation: a user-defined type resolved to its enum
/// type; a private type must be able to be private, a homomorphic one must
/// be an unsigned number of at most 32 bits; a label expression must be a
/// final or constant public address.
pub open spec fn annotated_type_outcome(
    ast: AnnotatedTypeName,
    user_target: Option<DeclRef>,
    label_target: Option<DeclRef>,
) -> Result<AnnotatedTypeName, TypeError> {
    let resolved: Result<TypeName, TypeError> = match *ast.ty {
        TypeName::UserDefined(_) => match user_target {
            Some(t) => if t.kind != DeclKind::Enum {
                Err(TypeError::UnsupportedUserType)
            } else if t.annotated_type is None {
                Err(TypeError::UntypedTarget)
            } else {
                Ok(*t.annotated_type.unwrap().ty)
            },
            None => Err(TypeError::UnsupportedUserType),
        },
        _ => Ok(*ast.ty),
    };
    match resolved {
        Err(e) => Err(e),
        Ok(tn) => {
            let public = ast.privacy_annotation == Some(PrivacyLabel::All) || ast.privacy_annotation is None;
            if !public && !tn.spec_can_be_private() {
                Err(TypeError::UnsupportedPrivateType)
            } else if !public && ast.homomorphism != Homomorphism::NonHomomorphic && !tn.spec_is_numeric() {
                Err(TypeError::HomomorphicNotNumeric)
            } else if !public && ast.homomorphism != Homomorphism::NonHomomorphic && tn.spec_signed() {
                Err(TypeError::HomomorphicSigned)
            } else if !public && ast.homomorphism != Homomorphism::NonHomomorphic && tn.spec_elem_bitwidth() > 32 {
                Err(TypeError::HomomorphicTooWide)
            } else if ast.privacy_annotation matches Some(PrivacyLabel::Idf(_)) && label_target matches Some(t) && t.kind
                != DeclKind::Mapping && !t.is_final && !t.is_constant {
                Err(TypeError::PrivacyLabelNotFinal)
            } else if ast.privacy_annotation matches Some(PrivacyLabel::Idf(_)) && label_target matches Some(t) && t.kind
                != DeclKind::Mapping && !(t.annotated_type matches Some(a) && *a.ty == TypeName::Address
                && a.privacy_annotation == Some(PrivacyLabel::All) && a.homomorphism == Homomorphism::NonHomomorphic) {
                Err(TypeError::PrivacyLabelNotAddress)
            } else {
                Ok(AnnotatedTypeName { ty: Box::new(tn), ..ast })
            }
        },
    }
}

impl TypeCheckVisitor {
    /// Rejects an assignment to a `final` variable (see `final_violation`).
    pub fn check_final(&self, fct: &ConstructorOrFunctionDefinition, ast: &Expr) -> (r: Result<(), TypeError>)
        ensures
            r is Err <==> final_violation(fct.is_constructor, *ast),
            r is Err ==> r == Err::<(), TypeError>(TypeError::ModifyingFinal),
        decreases ast,
    {
        match &ast.kind {
            ExprKind::Identifier { target: Some(t), .. } => {
                if t.is_final && !(t.kind == DeclKind::StateVariable && fct.is_constructor) {
                    Err(TypeError::ModifyingFinal)
                } else {
                    Ok(())
                }
            },
            ExprKind::Tuple(elems) => {
                let mut i: usize = 0;
                while i < elems.len()
                    invariant
                        i <= elems.len(),
                        forall|j: int| 0 <= j < i ==> !final_violation(fct.is_constructor, #[trigger] elems@[j]),
                        decreases_to!(*ast => *elems),
                        ast.kind is Tuple && ast.kind->Tuple_0 == *elems,
                    decreases elems.len() - i,
                {
                    proof {
                        vstd::std_specs::vec::axiom_vec_index_decreases(*elems, i as int);
                    }
                    if self.check_final(fct, &elems[i]).is_err() {
                        proof {
                            assert(final_violation(fct.is_constructor, elems@[i as int]));
                        }
                        return Err(TypeError::ModifyingFinal);
                    }
                    i = i + 1;
                }
                Ok(())
            },
            _ => Ok(()),
        }
    }
}

/// The number of values a `return` gives back.
pub open spec fn return_arity(e: Option<Expr>) -> int {
    match e {
        None => 0,
        Some(x) => if x.kind is Tuple { x.kind->Tuple_0.len() as int } else { 1 },
    }
}

/// The declared types of a list of declarations.
pub open spec fn declared_types(ds: Seq<Declaration>) -> Seq<AnnotatedTypeName> {
    Seq::new(ds.len(), |i: int| ds[i].annotated_type)
}

/// The declared types of a list of declarations.
pub fn declared_types_exec(ds: &Vec<Declaration>) -> (r: Vec<AnnotatedTypeName>)
    ensures
        r@ == declared_types(ds@),
{
    let mut r: Vec<AnnotatedTypeName> = Vec::new();
    let mut i: usize = 0;
    while i < ds.len()
        invariant
            i <= ds.len(),
            r@ == declared_types(ds@).subrange(0, i as int),
        decreases ds.len() - i,
    {
        r.push(ds[i].annotated_type.copy());
        i = i + 1;
        proof {
            assert(r@ =~= declared_types(ds@).subrange(0, i as int));
        }
    }
    proof {
        assert(r@ =~= declared_types(ds@));
    }
    r
}

/// Whether `e` or an expression inside it has a private type.
pub fn contains_private(e: &Expr) -> (r: bool)
    ensures
        r == expr_contains_private(*e),
    decreases e,
{
    if let Some(t) = &e.annotated_type {
        if t.is_private() {
            return true;
        }
    }
    match &e.kind {
        ExprKind::Index { arr, key } => contains_private(arr) || contains_private(key),
        ExprKind::MemberAccess { expr, .. } => contains_private(expr),
        ExprKind::FunctionCall { func, args } => {
            if let crate::ast::Callee::Location(f) = func {
                if contains_private(f) {
                    return true;
                }
            }
            contains_private_any(args, Ghost(*e))
        },
        ExprKind::PrimitiveCast { expr, .. } => contains_private(expr),
        ExprKind::Reclassify { expr, .. } => contains_private(expr),
        ExprKind::Tuple(elems) => contains_private_any(elems, Ghost(*e)),
        ExprKind::New { args, .. } => contains_private_any(args, Ghost(*e)),
        _ => false,
    }
}

fn contains_private_any(es: &Vec<Expr>, Ghost(whole): Ghost<Expr>) -> (r: bool)
    requires
        decreases_to!(whole => *es),
    ensures
        r == exists|i: int| 0 <= i < es.len() && expr_contains_private(#[trigger] es@[i]),
    decreases whole, 0nat,
{
    let mut i: usize = 0;
    while i < es.len()
        invariant
            i <= es.len(),
            decreases_to!(whole => *es),
            forall|j: int| 0 <= j < i ==> !expr_contains_private(#[trigger] es@[j]),
        decreases es.len() - i,
    {
        proof {
            vstd::std_specs::vec::axiom_vec_index_decreases(*es, i as int);
        }
        if contains_private(&es[i]) {
            return true;
        }
        i = i + 1;
    }
    false
}

impl TypeCheckVisitor {
    /// An assignment: the target is a location or tuple, the right-hand side is
    /// fitted to the target's type, and no `final` variable is modified.
    pub fn visitAssignmentStatement(
        &mut self,
        ast: Stmt,
        fct: &ConstructorOrFunctionDefinition,
        analysis: Option<&PartitionState>,
    ) -> (r: Result<Stmt, TypeError>)
        requires
            ast.kind is Assignment,
            ast.kind->Assignment_lhs.spec_typed(),
            ast.kind->Assignment_rhs.spec_typed(),
            ast.kind->Assignment_rhs.spec_well_formed(),
        ensures
            ({
                let lhs = ast.kind->Assignment_lhs;
                let rhs = ast.kind->Assignment_rhs;
                let final_checked = lhs.kind is Identifier || lhs.kind is Tuple;
                &&& !is_assignable(lhs) ==> r == Err::<Stmt, TypeError>(TypeError::AssignmentTargetNotLocation)
                &&& final_checked && final_violation(fct.is_constructor, lhs) ==> r is Err
                &&& r is Ok <==> (is_assignable(lhs) && rhs_fits(rhs, lhs.ty(), analysis) && !(final_checked && final_violation(
                    fct.is_constructor,
                    lhs,
                )))
                &&& is_assignable(lhs) && rhs_fits(rhs, lhs.ty(), analysis) && final_checked && final_violation(
                    fct.is_constructor,
                    lhs,
                ) ==> r == Err::<Stmt, TypeError>(TypeError::ModifyingFinal)
                &&& r matches Ok(x) ==> {
                    &&& same_stmt(x, ast)
                    &&& x.kind is Assignment
                    &&& x.kind->Assignment_lhs == lhs
                    &&& fitted(x.kind->Assignment_rhs, rhs, lhs.ty(), analysis)
                    &&& is_assignable(lhs)
                }
            }),
    {
        let Stmt { id, kind, line, column, parent, function, namespace, before_analysis, modified_values } = ast;
        let (lhs, rhs) = match kind {
            StmtKind::Assignment { lhs, rhs } => (lhs, rhs),
            _ => {
                return Err(TypeError::AssignmentTargetNotLocation);
            },
        };
        let (assignable, final_checked) = match &lhs.kind {
            ExprKind::Identifier { .. } | ExprKind::Tuple(_) => (true, true),
            ExprKind::Index { .. } | ExprKind::MemberAccess { .. } => (true, false),
            _ => (false, false),
        };
        if !assignable {
            return Err(TypeError::AssignmentTargetNotLocation);
        }
        let expected = match &lhs.annotated_type {
            Some(a) => a.copy(),
            None => {
                return Err(TypeError::UntypedTarget);
            },
        };
        let new_rhs = self.get_rhs(rhs, &expected, analysis)?;
        if final_checked {
            self.check_final(fct, &lhs)?;
        }
        Ok(Stmt {
            id,
            kind: StmtKind::Assignment { lhs, rhs: new_rhs },
            line,
            column,
            parent,
            function,
            namespace,
            before_analysis,
            modified_values,
        })
    }

    /// A variable declaration: its initializer is fitted to the declared type.
    pub fn visitVariableDeclarationStatement(&mut self, ast: Stmt, analysis: Option<&PartitionState>) -> (r: Result<Stmt, TypeError>)
        requires
            ast.kind is VariableDeclaration,
            ast.kind->VariableDeclaration_expr matches Some(e) ==> e.spec_typed() && e.spec_well_formed(),
        ensures
            ast.kind->VariableDeclaration_expr is None ==> r == Ok::<Stmt, TypeError>(ast),
            ast.kind->VariableDeclaration_expr matches Some(e) ==> (r is Ok <==> rhs_fits(
                e,
                ast.kind->VariableDeclaration_decl.annotated_type,
                analysis,
            )),
            r matches Ok(x) ==> {
                &&& same_stmt(x, ast)
                &&& x.kind is VariableDeclaration
                &&& x.kind->VariableDeclaration_decl == ast.kind->VariableDeclaration_decl
                &&& x.kind->VariableDeclaration_expr is Some <==> ast.kind->VariableDeclaration_expr is Some
                &&& ast.kind->VariableDeclaration_expr matches Some(e) ==> fitted(
                    x.kind->VariableDeclaration_expr.unwrap(),
                    e,
                    ast.kind->VariableDeclaration_decl.annotated_type,
                    analysis,
                )
            },
    {
        let has_expr = match &ast.kind {
            StmtKind::VariableDeclaration { expr, .. } => expr.is_some(),
            _ => false,
        };
        if !has_expr {
            return Ok(ast);
        }
        let Stmt { id, kind, line, column, parent, function, namespace, before_analysis, modified_values } = ast;
        let (decl, expr) = match kind {
            StmtKind::VariableDeclaration { decl, expr: Some(e) } => (decl, e),
            _ => {
                return Err(TypeError::UntypedTarget);
            },
        };
        let new_expr = self.get_rhs(expr, &decl.annotated_type, analysis)?;
        Ok(Stmt {
            id,
            kind: StmtKind::VariableDeclaration { decl, expr: Some(new_expr) },
            line,
            column,
            parent,
            function,
            namespace,
            before_analysis,
            modified_values,
        })
    }

    /// A `return` in a function: its value, as a tuple, is fitted to the tuple
    /// of the return types.
    pub fn visitReturnStatement(
        &mut self,
        ast: Stmt,
        fct: &ConstructorOrFunctionDefinition,
        analysis: Option<&PartitionState>,
    ) -> (r: Result<Stmt, TypeError>)
        requires
            ast.kind is Return,
            ast.kind->Return_0 matches Some(e) ==> e.spec_typed() && e.spec_well_formed(),
        ensures
            fct.is_constructor ==> r == Err::<Stmt, TypeError>(TypeError::ReturnOutsideFunction),
            !fct.is_constructor && return_arity(ast.kind->Return_0) != fct.return_parameters.len() ==> r == Err::<
                Stmt,
                TypeError,
            >(TypeError::TypeMismatch),
            !fct.is_constructor && return_arity(ast.kind->Return_0) == fct.return_parameters.len() ==> (r is Ok <==> match ast.kind->Return_0 {
                None => true,
                Some(x) => if x.kind is Tuple {
                    forall|i: int| 0 <= i < x.kind->Tuple_0.len() ==> rhs_fits(
                        #[trigger] x.kind->Tuple_0@[i],
                        declared_types(fct.return_parameters@)[i],
                        analysis,
                    )
                } else {
                    rhs_fits(x, declared_types(fct.return_parameters@)[0], analysis)
                },
            }),
            r matches Ok(x) ==> {
                &&& same_stmt(x, ast)
                &&& x.kind is Return
                &&& ast.kind->Return_0 is None ==> x.kind == ast.kind
                &&& ast.kind->Return_0 is Some ==> (x.kind->Return_0 matches Some(y) && y.kind is Tuple
                    && y.kind->Tuple_0.len() == return_arity(ast.kind->Return_0) && y.spec_typed() && y.spec_well_formed())
                &&& ast.kind->Return_0 matches Some(e) ==> exists|w: Expr|
                    #![trigger rhs_result(w, return_tuple_type(*fct), analysis, x.kind->Return_0.unwrap())]
                    {
                        &&& w.kind is Tuple
                        &&& w.kind->Tuple_0@ == returned_values(e)
                        &&& rhs_result(w, return_tuple_type(*fct), analysis, x.kind->Return_0.unwrap())
                    }
            },
    {
        if fct.is_constructor {
            return Err(TypeError::ReturnOutsideFunction);
        }
        let rts = declared_types_exec(&fct.return_parameters);
        let rt = AnnotatedTypeName::new(
            TypeName::Tuple(crate::types::AnnotatedTypeList::from_vec(rts)),
            None,
            Homomorphism::NonHomomorphic,
        );
        let Stmt { id, kind, line, column, parent, function, namespace, before_analysis, modified_values } = ast;
        let e = match kind {
            StmtKind::Return(e) => e,
            _ => {
                return Err(TypeError::ReturnOutsideFunction);
            },
        };
        match e {
            None => {
                let tid = self.fresh_id();
                let empty = self.visitTupleExpr(Expr::new_node(tid, ExprKind::Tuple(Vec::new())));
                let _ = self.get_rhs(empty, &rt, analysis)?;
                Ok(Stmt {
                    id,
                    kind: StmtKind::Return(None),
                    line,
                    column,
                    parent,
                    function,
                    namespace,
                    before_analysis,
                    modified_values,
                })
            },
            Some(x) => {
                let ghost x0 = x;
                let is_tuple = match &x.kind {
                    ExprKind::Tuple(_) => true,
                    _ => false,
                };
                let wrapped = if is_tuple {
                    x
                } else {
                    let tid = self.fresh_id();
                    let mut elems: Vec<Expr> = Vec::new();
                    elems.push(x);
                    self.visitTupleExpr(Expr::new_node(tid, ExprKind::Tuple(elems)))
                };
                let ghost w = wrapped;
                let v = self.get_rhs(wrapped, &rt, analysis)?;
                proof {
                    crate::types::lemma_list_of_items((*rt.ty)->Tuple_0);
                    assert(rt == return_tuple_type(*fct));
                    assert(w.kind->Tuple_0@ =~= returned_values(x0));
                    assert(rhs_result(w, return_tuple_type(*fct), analysis, v));
                }
                Ok(Stmt {
                    id,
                    kind: StmtKind::Return(Some(v)),
                    line,
                    column,
                    parent,
                    function,
                    namespace,
                    before_analysis,
                    modified_values,
                })
            },
        }
    }
}

/// The type `bool` with the given label.
pub open spec fn bool_at(p: PrivacyLabel) -> AnnotatedTypeName {
    AnnotatedTypeName { ty: Box::new(TypeName::Bool), privacy_annotation: Some(p), homomorphism: Homomorphism::NonHomomorphic }
}

/// The condition of an `if` is a boolean, private only at `me`.
pub open spec fn if_condition_outcome(c: Expr, analysis: Option<&PartitionState>) -> Result<(), TypeError> {
    if !convertible(*c.ty().ty, TypeName::Bool) {
        Err(TypeError::NonBoolCondition)
    } else if c.ty().spec_is_private() && instance_of(c.ty(), analysis, bool_at(PrivacyLabel::Me)) == InstanceOf::No {
        Err(TypeError::PrivateConditionNotAtMe)
    } else {
        Ok(())
    }
}

/// The condition of a loop is a public boolean.
pub open spec fn loop_condition_outcome(c: Expr, analysis: Option<&PartitionState>) -> Result<(), TypeError> {
    if instance_of(c.ty(), analysis, bool_at(PrivacyLabel::All)) == InstanceOf::No {
        Err(TypeError::LoopConditionNotPublic)
    } else {
        Ok(())
    }
}

fn loop_condition_check(c: &Expr, analysis: Option<&PartitionState>) -> (r: Result<(), TypeError>)
    requires
        c.annotated_type is Some,
    ensures
        r == loop_condition_outcome(*c, analysis),
{
    let t = match &c.annotated_type {
        Some(a) => a,
        None => {
            return Err(TypeError::LoopConditionNotPublic);
        },
    };
    if instance_of_exec(t, analysis, &AnnotatedTypeName::bool_all()) == InstanceOf::No {
        Err(TypeError::LoopConditionNotPublic)
    } else {
        Ok(())
    }
}

/// Every declaration is labelled `me` or `all`.
pub open spec fn all_me_or_all(ds: Seq<Declaration>) -> bool {
    forall|i: int| 0 <= i < ds.len() ==> is_me_or_all((#[trigger] ds[i]).annotated_type.privacy_annotation)
}

fn all_me_or_all_exec(ds: &Vec<Declaration>) -> (r: bool)
    ensures
        r == all_me_or_all(ds@),
{
    let mut i: usize = 0;
    while i < ds.len()
        invariant
            i <= ds.len(),
            forall|j: int| 0 <= j < i ==> is_me_or_all((#[trigger] ds@[j]).annotated_type.privacy_annotation),
        decreases ds.len() - i,
    {
        let p = ds[i].annotated_type.privacy_annotation;
        if !(p == Some(PrivacyLabel::Me) || p == Some(PrivacyLabel::All)) {
            return false;
        }
        i = i + 1;
    }
    true
}

impl TypeCheckVisitor {
    /// The condition of an `if` (see `if_condition_outcome`).
    pub fn visitIfStatement(&self, ast: &Stmt, analysis: Option<&PartitionState>) -> (r: Result<(), TypeError>)
        requires
            ast.kind is If,
            ast.kind->If_condition.annotated_type is Some,
        ensures
            r == if_condition_outcome(ast.kind->If_condition, analysis),
    {
        let c = match &ast.kind {
            StmtKind::If { condition, .. } => condition,
            _ => {
                return Err(TypeError::NonBoolCondition);
            },
        };
        let t = match &c.annotated_type {
            Some(a) => a,
            None => {
                return Err(TypeError::NonBoolCondition);
            },
        };
        if !t.ty.implicitly_convertible_to(&TypeName::Bool) {
            return Err(TypeError::NonBoolCondition);
        }
        if t.is_private() {
            let expected = AnnotatedTypeName::new(TypeName::Bool, Some(PrivacyLabel::Me), Homomorphism::NonHomomorphic);
            if instance_of_exec(t, analysis, &expected) == InstanceOf::No {
                return Err(TypeError::PrivateConditionNotAtMe);
            }
        }
        Ok(())
    }

    /// The condition of a `while` is a public boolean.
    pub fn visitWhileStatement(&self, ast: &Stmt, analysis: Option<&PartitionState>) -> (r: Result<(), TypeError>)
        requires
            ast.kind is While,
            ast.kind->While_condition.annotated_type is Some,
        ensures
            r == loop_condition_outcome(ast.kind->While_condition, analysis),
    {
        match &ast.kind {
            StmtKind::While { condition, .. } => loop_condition_check(condition, analysis),
            _ => Err(TypeError::LoopConditionNotPublic),
        }
    }

    /// The condition of a `for` is a public boolean.
    pub fn visitForStatement(&self, ast: &Stmt, analysis: Option<&PartitionState>) -> (r: Result<(), TypeError>)
        requires
            ast.kind is For,
            ast.kind->For_condition.annotated_type is Some,
        ensures
            r == loop_condition_outcome(ast.kind->For_condition, analysis),
    {
        match &ast.kind {
            StmtKind::For { condition, .. } => loop_condition_check(condition, analysis),
            _ => Err(TypeError::LoopConditionNotPublic),
        }
    }

    /// The condition of a `require` is public.
    pub fn visitRequireStatement(&self, ast: &Stmt) -> (r: Result<(), TypeError>)
        requires
            ast.kind is Require,
            ast.kind->Require_0.annotated_type is Some,
        ensures
            r is Err <==> ast.kind->Require_0.ty().privacy_annotation != Some(PrivacyLabel::All),
            r is Err ==> r == Err::<(), TypeError>(TypeError::RequirePrivate),
    {
        match &ast.kind {
            StmtKind::Require(c) => match &c.annotated_type {
                Some(a) => if a.privacy_annotation == Some(PrivacyLabel::All) {
                    Ok(())
                } else {
                    Err(TypeError::RequirePrivate)
                },
                None => Err(TypeError::RequirePrivate),
            },
            _ => Err(TypeError::RequirePrivate),
        }
    }

    /// Parameters, and the return values of functions callable from outside,
    /// are labelled `me` or `all`.
    pub fn visitConstructorOrFunctionDefinition(&self, ast: &ConstructorOrFunctionDefinition) -> (r: Result<(), TypeError>)
        ensures
            r == if !all_me_or_all(ast.parameters@) {
                Err(TypeError::ParameterPrivacy)
            } else if ast.can_be_external && !all_me_or_all(ast.return_parameters@) {
                Err(TypeError::ReturnPrivacy)
            } else {
                Ok(())
            },
    {
        if !all_me_or_all_exec(&ast.parameters) {
            return Err(TypeError::ParameterPrivacy);
        }
        if ast.can_be_external && !all_me_or_all_exec(&ast.return_parameters) {
            return Err(TypeError::ReturnPrivacy);
        }
        Ok(())
    }

    /// An enum definition has the public type of the enum.
    pub fn visitEnumDefinition(&self, ast: EnumDefinition) -> (r: EnumDefinition)
        ensures
            r == (EnumDefinition {
                annotated_type: Some(AnnotatedTypeName {
                    ty: Box::new(TypeName::Enum(ast.id)),
                    privacy_annotation: Some(PrivacyLabel::All),
                    homomorphism: Homomorphism::NonHomomorphic,
                }),
                ..ast
            }),
    {
        let t = AnnotatedTypeName::new(TypeName::Enum(ast.id), Some(PrivacyLabel::All), Homomorphism::NonHomomorphic);
        EnumDefinition { annotated_type: Some(t), ..ast }
    }

    /// A value of the enum `enum_id` has the public type of its values.
    pub fn visitEnumValue(&self, ast: EnumValue, enum_id: u64) -> (r: EnumValue)
        ensures
            r == (EnumValue {
                annotated_type: Some(AnnotatedTypeName {
                    ty: Box::new(TypeName::EnumValue(enum_id)),
                    privacy_annotation: Some(PrivacyLabel::All),
                    homomorphism: Homomorphism::NonHomomorphic,
                }),
                ..ast
            }),
    {
        let t = AnnotatedTypeName::new(TypeName::EnumValue(enum_id), Some(PrivacyLabel::All), Homomorphism::NonHomomorphic);
        EnumValue { annotated_type: Some(t), ..ast }
    }

    /// A state variable is not labelled `me`, and its initializer has no
    /// private part and fits its type.
    pub fn visitStateVariableDeclaration(&mut self, ast: &StateVariableDeclaration) -> (r: Result<(), TypeError>)
        requires
            ast.expr matches Some(e) ==> e.spec_typed() && e.spec_well_formed(),
        ensures
            final(self).warnings == old(self).warnings,
            ast.expr matches Some(e) && expr_contains_private(e) ==> r == Err::<(), TypeError>(TypeError::PrivateStateInitializer),
            ast.decl.annotated_type.privacy_annotation == Some(PrivacyLabel::Me) ==> r is Err,
            ast.expr is None ==> r == if ast.decl.annotated_type.privacy_annotation == Some(PrivacyLabel::Me) {
                Err::<(), TypeError>(TypeError::StateVariableAtMe)
            } else {
                Ok(())
            },
            r is Ok <==> ast.decl.annotated_type.privacy_annotation != Some(PrivacyLabel::Me) && (ast.expr matches Some(e) ==> (
            !expr_contains_private(e) && rhs_fits(e, ast.decl.annotated_type, None))),
    {
        if let Some(e) = &ast.expr {
            if contains_private(e) {
                return Err(TypeError::PrivateStateInitializer);
            }
            let copied = crate::deep_copy::deep_copy(e, true, true, &mut self.next_id);
            proof {
                if e.parent is None {
                    let (c, p) = choose|c: Expr, p: u64|
                        crate::deep_copy::expr_copied(*e, c, true) && crate::parent_setter::expr_relinked(
                            c,
                            Expr { parent: Some(p), ..copied },
                            p,
                            copied.namespace.unwrap()@,
                            None,
                        );
                    let linked = Expr { parent: Some(p), ..copied };
                    crate::deep_copy::lemma_copy_keeps_typing(*e, c);
                    crate::parent_setter::lemma_relinked_keeps_typing(c, linked, p, copied.namespace.unwrap()@, None);
                    crate::deep_copy::lemma_copy_same_fit_shape(*e, c);
                    crate::deep_copy::lemma_relinked_same_fit_shape(c, linked, p, copied.namespace.unwrap()@, None);
                    assert(linked.spec_typed() == copied.spec_typed());
                    assert(linked.spec_well_formed() == copied.spec_well_formed());
                    assert(crate::type_checker::same_fit_shape(c, linked) == crate::type_checker::same_fit_shape(c, copied));
                    crate::type_checker::lemma_same_fit_shape(*e, c, ast.decl.annotated_type, None);
                    crate::type_checker::lemma_same_fit_shape(c, copied, ast.decl.annotated_type, None);
                } else {
                    let c = choose|c: Expr|
                        crate::deep_copy::expr_copied(*e, c, true) && crate::parent_setter::expr_relinked(
                            c,
                            copied,
                            e.parent.unwrap(),
                            copied.namespace.unwrap()@,
                            None,
                        );
                    crate::deep_copy::lemma_copy_keeps_typing(*e, c);
                    crate::parent_setter::lemma_relinked_keeps_typing(c, copied, e.parent.unwrap(), copied.namespace.unwrap()@, None);
                    crate::deep_copy::lemma_copy_same_fit_shape(*e, c);
                    crate::deep_copy::lemma_relinked_same_fit_shape(c, copied, e.parent.unwrap(), copied.namespace.unwrap()@, None);
                    crate::type_checker::lemma_same_fit_shape(*e, c, ast.decl.annotated_type, None);
                    crate::type_checker::lemma_same_fit_shape(c, copied, ast.decl.annotated_type, None);
                }
            }
            let _ = self.get_rhs(copied, &ast.decl.annotated_type, None)?;
        }
        if ast.decl.annotated_type.privacy_annotation == Some(PrivacyLabel::Me) {
            return Err(TypeError::StateVariableAtMe);
        }
        Ok(())
    }

    /// Only address keys can carry a label.
    pub fn visitMapping(&self, ast: &TypeName) -> (r: Result<(), TypeError>)
        requires
            *ast is Mapping,
        ensures
            r == if ast->Mapping_key_label is Some && *ast->Mapping_key_type != TypeName::Address {
                Err::<(), TypeError>(TypeError::OnlyAddressAnnotated)
            } else {
                Ok(())
            },
    {
        match ast {
            TypeName::Mapping { key_type, key_label, .. } => if key_label.is_some() && !key_type.equals(&TypeName::Address) {
                Err(TypeError::OnlyAddressAnnotated)
            } else {
                Ok(())
            },
            _ => Ok(()),
        }
    }

    /// Checks a type annotation (see `annotated_type_outcome`); `user_target`
    /// is what a user-defined type name refers to, `label_target` what an
    /// identifier used as the label refers to.
    pub fn visitAnnotatedTypeName(
        &self,
        ast: AnnotatedTypeName,
        user_target: Option<&DeclRef>,
        label_target: Option<&DeclRef>,
    ) -> (r: Result<AnnotatedTypeName, TypeError>)
        ensures
            r == annotated_type_outcome(
                ast,
                match user_target {
                    Some(t) => Some(*t),
                    None => None,
                },
                match label_target {
                    Some(t) => Some(*t),
                    None => None,
                },
            ),
    {
        let tn = match &*ast.ty {
            TypeName::UserDefined(_) => match user_target {
                Some(t) => {
                    if t.kind != DeclKind::Enum {
                        return Err(TypeError::UnsupportedUserType);
                    }
                    match &t.annotated_type {
                        Some(a) => a.ty.copy(),
                        None => {
                            return Err(TypeError::UntypedTarget);
                        },
                    }
                },
                None => {
                    return Err(TypeError::UnsupportedUserType);
                },
            },
            _ => ast.ty.copy(),
        };
        let public = ast.privacy_annotation == Some(PrivacyLabel::All) || ast.privacy_annotation.is_none();
        if !public {
            if !tn.can_be_private() {
                return Err(TypeError::UnsupportedPrivateType);
            }
            if ast.homomorphism != Homomorphism::NonHomomorphic {
                if !tn.is_numeric() {
                    return Err(TypeError::HomomorphicNotNumeric);
                }
                if tn.signed() {
                    return Err(TypeError::HomomorphicSigned);
                }
                if tn.elem_bitwidth() > 32 {
                    return Err(TypeError::HomomorphicTooWide);
                }
            }
        }
        if let Some(PrivacyLabel::Idf(_)) = ast.privacy_annotation {
            if let Some(t) = label_target {
                if t.kind != DeclKind::Mapping {
                    if !t.is_final && !t.is_constant {
                        return Err(TypeError::PrivacyLabelNotFinal);
                    }
                    let is_address_all = match &t.annotated_type {
                        Some(a) => a.ty.equals(&TypeName::Address) && a.privacy_annotation == Some(PrivacyLabel::All)
                            && a.homomorphism == Homomorphism::NonHomomorphic,
                        None => false,
                    };
                    if !is_address_all {
                        return Err(TypeError::PrivacyLabelNotAddress);
                    }
                }
            }
        }
        Ok(AnnotatedTypeName { ty: Box::new(tn), ..ast })
    }
}

} // verus!
