//! The zkay type checker: infers the type of every expression, inserts
//! implicit casts, reclassifications and changes of homomorphism, and rejects
//! ill-typed programs.
use vstd::prelude::*;
use crate::ast::{BuiltinOp, Callee, Expr, ExprKind};
use crate::types::{
    combined_privacy, convertible, instance_of, instance_of_exec, tuple_privacy_matches, AnnotatedTypeList, AnnotatedTypeName, Homomorphism, InstanceOf, PartitionState, PrivacyLabel,
    TypeName,
};

verus! {

/// Why a program does not type-check.
#[derive(PartialEq, Eq, Structural, Clone, Copy, Debug)]
pub enum TypeError {
    /// A value is not an instance of the type expected of it.
    TypeMismatch,
    /// Two types have no common type.
    IncompatibleTypes,
    /// A conversion between non-primitive types.
    UnsupportedConversion,
    /// A private value of a type that cannot be private.
    CannotBePrivate,
    ModifyingFinal,
    AssignmentTargetNotLocation,
    /// An argument of a built-in operation has the wrong type.
    BuiltinArgumentType,
    PrivateShiftNotLiteral,
    NegativeShift,
    PrivateBitwiseOn256Bit,
    /// The operation does not support private operands.
    NoPrivateOperands(BuiltinOp),
    /// A homomorphic operation needs all arguments accessible.
    HomomorphicArgsNotAccessible(BuiltinOp),
    /// Evaluating literals overflows or is not defined.
    LiteralOperation,
    RehomPublicValue,
    CannotRehom,
    UserCastNotEnum,
    NotAFunction,
    WrongNumberOfArguments,
    PrivateAddressMembers,
    UnresolvedTarget,
    RevealPrivacyNotLabel,
    RevealNotAccessible,
    UnhomPublicValue,
    RedundantReveal,
    NonBoolCondition,
    PrivateConditionNotAtMe,
    LoopConditionNotPublic,
    ContractTypeInExpression,
    UntypedTarget,
    PrivateContainer,
    IndexTypeMismatch,
    IndexNotPrivacyLabel,
    PrivateArrayIndex,
    ArrayIndexNotNumeric,
    IndexIntoNonMapping,
    ParameterPrivacy,
    ReturnPrivacy,
    PrivateStateInitializer,
    StateVariableAtMe,
    OnlyAddressAnnotated,
    RequirePrivate,
    UnsupportedUserType,
    UnsupportedPrivateType,
    HomomorphicNotNumeric,
    HomomorphicSigned,
    HomomorphicTooWide,
    PrivacyLabelNotFinal,
    PrivacyLabelNotAddress,
    ReturnOutsideFunction,
    /// A private expression calls a function whose body is not static.
    NonStaticCallInPrivateExpr,
    /// A private expression calls a function or operation that has no circuit.
    NonCircuitCallInPrivateExpr,
    /// A private expression calls a function with side effects.
    SideEffectInPrivateExpr,
    /// A private `if` reveals a value to someone else.
    RevealInPrivateIf,
    /// A private `if` writes a variable of a non-primitive type.
    PrivateIfNonPrimitiveWrite,
    /// A private `if` writes a variable not owned by `me`.
    PrivateIfForeignWrite,
    /// A call of a recursive function that needs verification cannot be inlined.
    NonInlineableRecursiveCall,
}

/// What a compiler warning is about.
#[derive(PartialEq, Eq, Structural, Clone, Copy, Debug)]
pub enum WarningKind {
    /// Private 256-bit arithmetic overflows at the field prime.
    PossibleFieldPrimeOverflow,
    /// Private 256-bit comparisons fail for values >= 2^252.
    PossiblePrivateComparisonFailure,
}

#[derive(PartialEq, Eq, Structural, Clone, Copy, Debug)]
pub struct CompilerWarning {
    pub kind: WarningKind,
    pub op: BuiltinOp,
}

/// The type checker. New nodes take their ids from `next_id`; warnings are
/// collected in `warnings`.
pub struct TypeCheckVisitor {
    pub next_id: u64,
    pub warnings: Vec<CompilerWarning>,
}

/// The homomorphism that combining `lhs` and `rhs` gives: theirs if equal,
/// else `rhs`'s if `lhs` can change its homomorphism, else `lhs`'s.
pub open spec fn combined_homomorphism(lhs: Expr, rhs: Expr, analysis: Option<&PartitionState>) -> Homomorphism {
    if lhs.ty().homomorphism == rhs.ty().homomorphism {
        lhs.ty().homomorphism
    } else if spec_can_rehom(lhs, analysis) {
        rhs.ty().homomorphism
    } else {
        lhs.ty().homomorphism
    }
}

/// Whether the homomorphism of `e` can be changed: it is accessible, a
/// reclassification, a cast of such a value, or a public-condition ternary
/// whose branches are such values.
pub open spec fn spec_can_rehom(e: Expr, analysis: Option<&PartitionState>) -> bool
    decreases e,
{
    if e.ty().spec_is_accessible(analysis) {
        true
    } else {
        match e.kind {
            ExprKind::Reclassify { .. } => true,
            ExprKind::PrimitiveCast { expr, .. } => spec_can_rehom(*expr, analysis),
            ExprKind::FunctionCall { func: Callee::Builtin(b), args } => {
                if b.op == BuiltinOp::Ite && args.len() == 3 && args@[0].ty().spec_is_public() {
                    spec_can_rehom(args@[1], analysis) && spec_can_rehom(args@[2], analysis)
                } else {
                    false
                }
            },
            _ => false,
        }
    }
}

/// Whether `ast` has a private type that cannot be private.
pub open spec fn has_invalid_private_type(ast: Expr) -> bool {
    match ast.annotated_type {
        Some(at) => at.spec_is_private() && !at.ty.spec_can_be_private(),
        None => false,
    }
}

impl TypeCheckVisitor {
    pub fn new(first_id: u64) -> (r: TypeCheckVisitor)
        ensures
            r.next_id == first_id,
            r.warnings@.len() == 0,
    {
        TypeCheckVisitor { next_id: first_id, warnings: Vec::new() }
    }

    pub(crate) fn fresh_id(&mut self) -> (r: u64)
        ensures
            r == old(self).next_id,
            final(self).next_id == r.wrapping_add(1),
            final(self).warnings == old(self).warnings,
    {
        let r = self.next_id;
        self.next_id = r.wrapping_add(1);
        r
    }

    /// Rejects a node whose type is private but cannot be private.
    pub fn check_for_invalid_private_type(ast: &Expr) -> (r: Result<(), TypeError>)
        ensures
            r == (if has_invalid_private_type(*ast) { Err(TypeError::CannotBePrivate) } else { Ok(()) }),
    {
        match &ast.annotated_type {
            Some(at) => if at.is_private() && !at.ty.can_be_private() {
                Err(TypeError::CannotBePrivate)
            } else {
                Ok(())
            },
            None => Ok(()),
        }
    }

    pub fn has_private_type(ast: &Expr) -> (r: bool)
        requires
            ast.annotated_type is Some,
        ensures
            r == ast.ty().spec_is_private(),
    {
        match &ast.annotated_type {
            Some(at) => at.is_private(),
            None => false,
        }
    }

    pub fn has_literal_type(ast: &Expr) -> (r: bool)
        requires
            ast.annotated_type is Some,
        ensures
            r == ast.ty().ty.spec_is_literal(),
    {
        match &ast.annotated_type {
            Some(at) => at.ty.is_literal(),
            None => false,
        }
    }

    /// Every value may be read by the invoker.
    pub fn is_accessible_by_invoker(_ast: &Expr) -> (r: bool)
        ensures
            r,
    {
        true
    }

    pub fn can_rehom(ast: &Expr, analysis: Option<&PartitionState>) -> (r: bool)
        requires
            ast.spec_typed(),
        ensures
            r == spec_can_rehom(*ast, analysis),
        decreases ast,
    {
        let at = match &ast.annotated_type {
            Some(t) => t,
            None => { return false; },
        };
        if at.is_accessible(analysis) {
            return true;
        }
        match &ast.kind {
            ExprKind::Reclassify { .. } => true,
            ExprKind::PrimitiveCast { expr, .. } => Self::can_rehom(expr, analysis),
            ExprKind::FunctionCall { func: Callee::Builtin(b), args } => {
                if b.op == BuiltinOp::Ite && args.len() == 3 {
                    proof {
                        assert(args@[0].spec_typed());
                    }
                    let c = match &args[0].annotated_type {
                        Some(t) => t.is_public(),
                        None => false,
                    };
                    if c {
                        proof {
                            vstd::std_specs::vec::axiom_vec_index_decreases(*args, 1);
                            vstd::std_specs::vec::axiom_vec_index_decreases(*args, 2);
                            assert(decreases_to!(*ast => ast.kind));
                            assert(decreases_to!(ast.kind => ast.kind->FunctionCall_args));
                            assert(args@[1].spec_typed());
                            assert(args@[2].spec_typed());
                        }
                        Self::can_rehom(&args[1], analysis) && Self::can_rehom(&args[2], analysis)
                    } else {
                        false
                    }
                } else {
                    false
                }
            },
            _ => false,
        }
    }

    pub fn combine_homomorphism(lhs: &Expr, rhs: &Expr, analysis: Option<&PartitionState>) -> (r: Homomorphism)
        requires
            lhs.spec_typed(),
            rhs.spec_typed(),
        ensures
            r == combined_homomorphism(*lhs, *rhs, analysis),
    {
        let lh = match &lhs.annotated_type {
            Some(t) => t.homomorphism,
            None => Homomorphism::NonHomomorphic,
        };
        let rh = match &rhs.annotated_type {
            Some(t) => t.homomorphism,
            None => Homomorphism::NonHomomorphic,
        };
        if lh == rh {
            lh
        } else if Self::can_rehom(lhs, analysis) {
            rh
        } else {
            lh
        }
    }

    /// `target` takes the statement, parent and position of `source`, and
    /// becomes the parent of `source`.
    pub fn assign_location(target: &mut Expr, source: &mut Expr)
        ensures
            *final(target) == (Expr {
                statement: old(source).statement,
                parent: old(source).parent,
                line: old(source).line,
                column: old(source).column,
                ..*old(target)
            }),
            *final(source) == (Expr { parent: Some(old(target).id), ..*old(source) }),
    {
        target.statement = source.statement;
        target.parent = source.parent;
        source.parent = Some(target.id);
        target.line = source.line;
        target.column = source.column;
    }
}


/// `x` is the node `id` that reclassifies `expr` (now its child) to `privacy`
/// with `hom`, at the place of `expr`, with type name of `expr`.
pub open spec fn wraps_in_reclassify(x: Expr, id: u64, expr: Expr, privacy: PrivacyLabel, hom: Homomorphism, is_rehom: bool) -> bool {
    &&& x.id == id
    &&& x.kind == ExprKind::Reclassify {
        expr: Box::new(Expr { parent: Some(id), ..expr }),
        privacy: Some(privacy),
        homomorphism: Some(hom),
        is_rehom,
    }
    &&& x.annotated_type == Some(AnnotatedTypeName { ty: expr.ty().ty, privacy_annotation: Some(privacy), homomorphism: hom })
    &&& !x.evaluate_privately
    &&& x.statement == expr.statement
    &&& x.parent == expr.parent
    &&& x.line == expr.line
    &&& x.column == expr.column
    &&& x.namespace is None
}

/// `x` is the node `id` that casts `expr` (now its child) implicitly to `t`,
/// keeping its privacy and homomorphism, at the place of `expr`.
pub open spec fn wraps_in_cast(x: Expr, id: u64, expr: Expr, t: TypeName) -> bool {
    &&& x.id == id
    &&& x.kind == ExprKind::PrimitiveCast { elem_type: t, expr: Box::new(Expr { parent: Some(id), ..expr }), is_implicit: true }
    &&& x.annotated_type == Some(AnnotatedTypeName {
        ty: Box::new(t),
        privacy_annotation: expr.ty().privacy_annotation,
        homomorphism: expr.ty().homomorphism,
    })
    &&& !x.evaluate_privately
    &&& x.statement == expr.statement
    &&& x.parent == expr.parent
    &&& x.line == expr.line
    &&& x.column == expr.column
    &&& x.namespace is None
}

/// The node `id` that reclassifies `expr` (see `wraps_in_reclassify`).
pub open spec fn reclassified(expr: Expr, id: u64, privacy: PrivacyLabel, hom: Homomorphism, is_rehom: bool) -> Expr {
    Expr {
        id,
        kind: ExprKind::Reclassify { expr: Box::new(Expr { parent: Some(id), ..expr }), privacy: Some(privacy), homomorphism: Some(hom), is_rehom },
        annotated_type: Some(AnnotatedTypeName { ty: expr.ty().ty, privacy_annotation: Some(privacy), homomorphism: hom }),
        evaluate_privately: false,
        line: expr.line,
        column: expr.column,
        parent: expr.parent,
        statement: expr.statement,
        namespace: None,
    }
}

/// The node `id` that casts `expr` implicitly to `t` (see `wraps_in_cast`).
pub open spec fn cast_to(expr: Expr, id: u64, t: TypeName) -> Expr {
    Expr {
        id,
        kind: ExprKind::PrimitiveCast { elem_type: t, expr: Box::new(Expr { parent: Some(id), ..expr }), is_implicit: true },
        annotated_type: Some(AnnotatedTypeName {
            ty: Box::new(t),
            privacy_annotation: expr.ty().privacy_annotation,
            homomorphism: expr.ty().homomorphism,
        }),
        evaluate_privately: false,
        line: expr.line,
        column: expr.column,
        parent: expr.parent,
        statement: expr.statement,
        namespace: None,
    }
}

/// `e` converted implicitly to the type name `t`, with the new cast node
/// `id`: a reclassification that is not a reveal to `all` keeps its place
/// and gets type name `t`, its operand converted; anything else is wrapped
/// in a cast.
pub open spec fn implicit_conversion(e: Expr, t: TypeName, id: u64) -> Expr
    decreases e,
{
    match e.kind {
        ExprKind::Reclassify { expr, privacy, homomorphism, is_rehom } => if privacy != Some(PrivacyLabel::All) {
            Expr {
                kind: ExprKind::Reclassify { expr: Box::new(implicit_conversion(*expr, t, id)), privacy, homomorphism, is_rehom },
                annotated_type: Some(AnnotatedTypeName {
                    ty: Box::new(t),
                    privacy_annotation: e.ty().privacy_annotation,
                    homomorphism: e.ty().homomorphism,
                }),
                ..e
            }
        } else {
            cast_to(e, id, t)
        },
        _ => cast_to(e, id, t),
    }
}

impl TypeCheckVisitor {
    /// Reclassifies `expr` to `privacy` with `homomorphism` (a public value made private).
    pub fn make_private(&mut self, expr: Expr, privacy: PrivacyLabel, homomorphism: Homomorphism) -> (r: Result<Expr, TypeError>)
        requires
            expr.spec_typed(),
            expr.spec_well_formed(),
        ensures
            final(self).warnings == old(self).warnings,
            r is Err <==> (privacy != PrivacyLabel::All && !expr.ty().ty.spec_can_be_private()),
            r is Err ==> r == Err::<Expr, TypeError>(TypeError::CannotBePrivate),
            r matches Ok(x) ==> wraps_in_reclassify(x, old(self).next_id, expr, privacy, homomorphism, false)
                && x.spec_typed() && x.spec_well_formed(),
            r matches Ok(x) ==> x == reclassified(expr, old(self).next_id, privacy, homomorphism, false),
            final(self).next_id == old(self).next_id.wrapping_add(1),
    {
        let id = self.fresh_id();
        let ghost old_expr = expr;
        let mut expr = expr;
        let ty = match &expr.annotated_type {
            Some(t) => t.ty.copy(),
            None => TypeName::Bool,
        };
        let mut r = Expr::new_node(id, ExprKind::All);
        r.annotated_type = Some(AnnotatedTypeName::new(ty, Some(privacy), homomorphism));
        Self::check_for_invalid_private_type(&r)?;
        Self::assign_location(&mut r, &mut expr);
        r.kind = ExprKind::Reclassify { expr: Box::new(expr), privacy: Some(privacy), homomorphism: Some(homomorphism), is_rehom: false };
        proof {
            crate::ast::lemma_same_kind_and_type(old_expr, *r.kind->Reclassify_expr);
        }
        Ok(r)
    }

    /// Changes the homomorphism of a value private at `me` to the expected one.
    pub fn make_rehom(&mut self, expr: Expr, expected_type: &AnnotatedTypeName, analysis: Option<&PartitionState>) -> (r: Result<Expr, TypeError>)
        requires
            expr.spec_typed(),
            expr.spec_well_formed(),
            expected_type.privacy_annotation is Some,
            expr.ty().spec_is_private_at_me(analysis),
            expected_type.spec_is_private_at_me(analysis),
        ensures
            final(self).warnings == old(self).warnings,
            r is Err <==> !expr.ty().ty.spec_can_be_private(),
            r is Err ==> r == Err::<Expr, TypeError>(TypeError::CannotBePrivate),
            r matches Ok(x) ==> wraps_in_reclassify(
                x,
                old(self).next_id,
                expr,
                expected_type.privacy_annotation.unwrap(),
                expected_type.homomorphism,
                true,
            ) && x.spec_typed() && x.spec_well_formed(),
            r matches Ok(x) ==> x == reclassified(
                expr,
                old(self).next_id,
                expected_type.privacy_annotation.unwrap(),
                expected_type.homomorphism,
                true,
            ),
            final(self).next_id == old(self).next_id.wrapping_add(1),
    {
        let id = self.fresh_id();
        let pl = match expected_type.privacy_annotation {
            Some(p) => p,
            None => PrivacyLabel::Me,
        };
        let ghost old_expr = expr;
        let mut expr = expr;
        let ty = match &expr.annotated_type {
            Some(t) => t.ty.copy(),
            None => TypeName::Bool,
        };
        let mut r = Expr::new_node(id, ExprKind::All);
        r.annotated_type = Some(AnnotatedTypeName::new(ty, Some(pl), expected_type.homomorphism));
        Self::check_for_invalid_private_type(&r)?;
        Self::assign_location(&mut r, &mut expr);
        r.kind = ExprKind::Reclassify { expr: Box::new(expr), privacy: Some(pl), homomorphism: Some(expected_type.homomorphism), is_rehom: true };
        proof {
            crate::ast::lemma_same_kind_and_type(old_expr, *r.kind->Reclassify_expr);
        }
        Ok(r)
    }
}


/// Converting `e` implicitly fails: it is (a non-public reclassification of)
/// a value of a non-primitive type.
pub open spec fn conversion_fails(e: Expr) -> bool
    decreases e,
{
    match e.kind {
        ExprKind::Reclassify { expr, privacy, .. } => if privacy != Some(PrivacyLabel::All) {
            conversion_fails(*expr)
        } else {
            !e.ty().ty.spec_is_primitive_type()
        },
        _ => !e.ty().ty.spec_is_primitive_type(),
    }
}

/// Changing the homomorphism of `e` to the expected one succeeds: `e` is not
/// public, and it is private at `me` (and so is the expected type), or a
/// reveal, or a cast or public-condition ternary of such values.
pub open spec fn rehom_succeeds(e: Expr, expected: AnnotatedTypeName, analysis: Option<&PartitionState>) -> bool
    decreases e,
{
    if e.ty().spec_is_public() {
        false
    } else if e.ty().spec_is_private_at_me(analysis) {
        expected.spec_is_private_at_me(analysis) && e.ty().ty.spec_can_be_private()
    } else {
        match e.kind {
            ExprKind::Reclassify { is_rehom, .. } => !is_rehom,
            ExprKind::PrimitiveCast { expr, .. } => rehom_succeeds(*expr, expected, analysis),
            ExprKind::FunctionCall { func: Callee::Builtin(b), args } => {
                if b.op == BuiltinOp::Ite && args.len() == 3 && args@[0].ty().spec_is_public() {
                    rehom_succeeds(args@[1], expected, analysis) && rehom_succeeds(args@[2], expected, analysis)
                } else {
                    false
                }
            },
            _ => false,
        }
    }
}

/// Changing the homomorphism of `e`, once converted to the expected type
/// name, to the expected one succeeds (see `rehom_succeeds`).
pub open spec fn converted_rehom_succeeds(e: Expr, expected: AnnotatedTypeName, analysis: Option<&PartitionState>) -> bool {
    if e.ty().spec_is_public() {
        false
    } else if e.ty().spec_is_private_at_me(analysis) {
        expected.spec_is_private_at_me(analysis) && expected.ty.spec_can_be_private()
    } else {
        rehom_succeeds(e, expected, analysis)
    }
}

/// Converting `rhs` to the expected type name (by a cast, or inside a
/// reclassification) leaves it as fit for a change of homomorphism as
/// `converted_rehom_succeeds` says.
proof fn lemma_converted_rehom(rhs: Expr, x: Expr, expected: AnnotatedTypeName, analysis: Option<&PartitionState>, id: u64)
    requires
        rhs.annotated_type is Some,
        x.annotated_type is Some,
        *x.ty().ty == *expected.ty,
        x.ty().privacy_annotation == rhs.ty().privacy_annotation,
        x == rhs || if rhs.kind is Reclassify && rhs.kind->Reclassify_privacy != Some(PrivacyLabel::All) {
            x.kind is Reclassify && x.kind->Reclassify_is_rehom == rhs.kind->Reclassify_is_rehom
        } else {
            wraps_in_cast(x, id, rhs, *expected.ty)
        },
    ensures
        rehom_succeeds(x, expected, analysis) == converted_rehom_succeeds(rhs, expected, analysis),
{
    if x != rhs && !(rhs.kind is Reclassify && rhs.kind->Reclassify_privacy != Some(PrivacyLabel::All)) {
        let inner = Expr { parent: Some(id), ..rhs };
        assert(x.kind->PrimitiveCast_expr == Box::new(inner));
        assert(rehom_succeeds(inner, expected, analysis) == rehom_succeeds(rhs, expected, analysis));
    }
}

/// The type of `e` after changing its homomorphism to the expected one.
pub open spec fn rehomed_type(e: Expr, expected: AnnotatedTypeName, analysis: Option<&PartitionState>) -> AnnotatedTypeName {
    if e.ty().spec_is_private_at_me(analysis) {
        AnnotatedTypeName { ty: e.ty().ty, privacy_annotation: expected.privacy_annotation, homomorphism: expected.homomorphism }
    } else {
        e.ty().spec_with_homomorphism(expected.homomorphism)
    }
}

impl TypeCheckVisitor {
    /// `expr` converted to type name `t`: a cast around it, or, for a
    /// reclassification that is not a reveal to `all`, a conversion of its argument.
    pub fn implicitly_converted_to(&mut self, expr: Expr, t: &TypeName) -> (r: Result<Expr, TypeError>)
        requires
            expr.spec_typed(),
            expr.spec_well_formed(),
        ensures
            final(self).warnings == old(self).warnings,
            r is Err <==> conversion_fails(expr),
            r is Err ==> r == Err::<Expr, TypeError>(TypeError::UnsupportedConversion),
            r matches Ok(x) ==> {
                &&& x.spec_typed()
                &&& x.spec_well_formed()
                &&& *x.ty().ty == *t
                &&& x.ty().privacy_annotation == expr.ty().privacy_annotation
                &&& x.ty().homomorphism == expr.ty().homomorphism
                &&& x.parent == expr.parent
                &&& x.statement == expr.statement
                &&& x.line == expr.line
                &&& x.column == expr.column
            },
            r matches Ok(x) ==> if expr.kind is Reclassify && expr.kind->Reclassify_privacy != Some(PrivacyLabel::All) {
                x.kind is Reclassify && x.kind->Reclassify_is_rehom == expr.kind->Reclassify_is_rehom
            } else {
                wraps_in_cast(x, old(self).next_id, expr, *t)
            },
            r matches Ok(x) ==> x == implicit_conversion(expr, *t, old(self).next_id),
            r is Ok ==> final(self).next_id == old(self).next_id.wrapping_add(1),
        decreases expr,
    {
        let is_non_public_reclassify = match &expr.kind {
            ExprKind::Reclassify { privacy, .. } => *privacy != Some(PrivacyLabel::All),
            _ => false,
        };
        if is_non_public_reclassify {
            let ghost ge = expr;
            let Expr { id, kind, annotated_type, evaluate_privately, line, column, parent, statement, namespace } = expr;
            match kind {
                ExprKind::Reclassify { expr: inner, privacy, homomorphism, is_rehom } => {
                    let new_inner = self.implicitly_converted_to(*inner, t)?;
                    let at = match annotated_type {
                        Some(a) => AnnotatedTypeName { ty: Box::new(t.copy()), privacy_annotation: a.privacy_annotation, homomorphism: a.homomorphism },
                        None => AnnotatedTypeName::new(t.copy(), None, Homomorphism::NonHomomorphic),
                    };
                    let r = Expr {
                        id,
                        kind: ExprKind::Reclassify { expr: Box::new(new_inner), privacy, homomorphism, is_rehom },
                        annotated_type: Some(at),
                        evaluate_privately,
                        line,
                        column,
                        parent,
                        statement,
                        namespace,
                    };
                    return Ok(r);
                },
                _ => {
                    return Err(TypeError::UnsupportedConversion);
                },
            }
        }
        let primitive = match &expr.annotated_type {
            Some(a) => a.ty.is_primitive_type(),
            None => false,
        };
        if !primitive {
            return Err(TypeError::UnsupportedConversion);
        }
        let id = self.fresh_id();
        let ghost old_expr = expr;
        let mut expr = expr;
        let (p, h) = match &expr.annotated_type {
            Some(a) => (a.privacy_annotation, a.homomorphism),
            None => (None, Homomorphism::NonHomomorphic),
        };
        let mut cast = Expr::new_node(id, ExprKind::All);
        cast.parent = expr.parent;
        cast.statement = expr.statement;
        cast.line = expr.line;
        cast.column = expr.column;
        expr.parent = Some(id);
        cast.annotated_type = Some(AnnotatedTypeName::new(t.copy(), p, h));
        cast.kind = ExprKind::PrimitiveCast { elem_type: t.copy(), expr: Box::new(expr), is_implicit: true };
        proof {
            crate::ast::lemma_same_kind_and_type(old_expr, *cast.kind->PrimitiveCast_expr);
        }
        Ok(cast)
    }
}


/// The id counter after changing the homomorphism of `e` from `id_in` on:
/// one fresh id for each value private at `me` that gets wrapped in a rehom.
pub open spec fn rehom_next(e: Expr, expected: AnnotatedTypeName, analysis: Option<&PartitionState>, id_in: u64) -> u64
    decreases e,
{
    if e.ty().spec_is_private_at_me(analysis) {
        id_in.wrapping_add(1)
    } else {
        match e.kind {
            ExprKind::PrimitiveCast { expr, .. } => rehom_next(*expr, expected, analysis, id_in),
            ExprKind::FunctionCall { args, .. } => if args.len() == 3 {
                rehom_next(args@[2], expected, analysis, rehom_next(args@[1], expected, analysis, id_in))
            } else {
                id_in
            },
            _ => id_in,
        }
    }
}

/// `x` is `e` with the homomorphism of `expected`, fresh ids taken from
/// `id_in` on (see `rehom_next`): a value private at `me` is wrapped in a
/// rehom to the expected owner and homomorphism; a reveal takes the
/// expected homomorphism; a cast has its operand rehomed; a ternary with a
/// public condition has both branches rehomed, one after the other. Each
/// node that stays takes the expected homomorphism in its type.
pub open spec fn rehom_rel(e: Expr, expected: AnnotatedTypeName, analysis: Option<&PartitionState>, id_in: u64, x: Expr) -> bool
    decreases e,
{
    let at = Some(e.ty().spec_with_homomorphism(expected.homomorphism));
    if e.ty().spec_is_private_at_me(analysis) {
        x == reclassified(e, id_in, expected.privacy_annotation.unwrap(), expected.homomorphism, true)
    } else {
        match e.kind {
            ExprKind::Reclassify { expr, privacy, is_rehom, .. } => x == Expr {
                kind: ExprKind::Reclassify { expr, privacy, homomorphism: Some(expected.homomorphism), is_rehom },
                annotated_type: at,
                ..e
            },
            ExprKind::PrimitiveCast { elem_type, expr, is_implicit } => {
                &&& x == Expr { kind: x.kind, annotated_type: at, ..e }
                &&& x.kind is PrimitiveCast
                &&& x.kind->PrimitiveCast_elem_type == elem_type
                &&& x.kind->PrimitiveCast_is_implicit == is_implicit
                &&& rehom_rel(*expr, expected, analysis, id_in, *x.kind->PrimitiveCast_expr)
            },
            ExprKind::FunctionCall { func, args } => {
                &&& x == Expr { kind: x.kind, annotated_type: at, ..e }
                &&& x.kind is FunctionCall
                &&& x.kind->FunctionCall_func == func
                &&& args.len() == 3
                &&& x.kind->FunctionCall_args.len() == 3
                &&& x.kind->FunctionCall_args@[0] == args@[0]
                &&& rehom_rel(args@[1], expected, analysis, id_in, x.kind->FunctionCall_args@[1])
                &&& rehom_rel(
                    args@[2],
                    expected,
                    analysis,
                    rehom_next(args@[1], expected, analysis, id_in),
                    x.kind->FunctionCall_args@[2],
                )
            },
            _ => false,
        }
    }
}

impl TypeCheckVisitor {
    /// `rhs` with the homomorphism of `expected_type` (see `rehom_succeeds`).
    pub fn try_rehom(&mut self, rhs: Expr, expected_type: &AnnotatedTypeName, analysis: Option<&PartitionState>) -> (r: Result<Expr, TypeError>)
        requires
            rhs.spec_typed(),
            rhs.spec_well_formed(),
        ensures
            final(self).warnings == old(self).warnings,
            r is Ok <==> rehom_succeeds(rhs, *expected_type, analysis),
            r matches Ok(x) ==> rehom_rel(rhs, *expected_type, analysis, old(self).next_id, x),
            r is Ok ==> final(self).next_id == rehom_next(rhs, *expected_type, analysis, old(self).next_id),
            rhs.ty().spec_is_public() ==> r == Err::<Expr, TypeError>(TypeError::RehomPublicValue),
            r matches Ok(x) ==> {
                &&& x.spec_typed()
                &&& x.spec_well_formed()
                &&& x.ty() == rehomed_type(rhs, *expected_type, analysis)
                &&& x.parent == rhs.parent
                &&& x.statement == rhs.statement
                &&& x.kind is Tuple ==> rhs.kind is Tuple
            },
        decreases rhs,
    {
        let (is_public, at_me) = match &rhs.annotated_type {
            Some(a) => (a.is_public(), a.is_private_at_me(analysis)),
            None => (false, false),
        };
        if is_public {
            return Err(TypeError::RehomPublicValue);
        }
        if at_me {
            if !expected_type.is_private_at_me(analysis) {
                return Err(TypeError::CannotRehom);
            }
            return self.make_rehom(rhs, expected_type, analysis);
        }
        let ghost ge = rhs;
        let Expr { id, kind, annotated_type, evaluate_privately, line, column, parent, statement, namespace } = rhs;
        let new_kind = match kind {
            ExprKind::Reclassify { expr, privacy, homomorphism: _, is_rehom } => {
                if is_rehom {
                    return Err(TypeError::CannotRehom);
                }
                ExprKind::Reclassify { expr, privacy, homomorphism: Some(expected_type.homomorphism), is_rehom }
            },
            ExprKind::PrimitiveCast { elem_type, expr, is_implicit } => {
                let e = self.try_rehom(*expr, expected_type, analysis)?;
                ExprKind::PrimitiveCast { elem_type, expr: Box::new(e), is_implicit }
            },
            ExprKind::FunctionCall { func: Callee::Builtin(b), args } => {
                if !(b.op == BuiltinOp::Ite && args.len() == 3) {
                    return Err(TypeError::CannotRehom);
                }
                proof {
                    assert(args@[0].spec_typed());
                }
                let cond_public = match &args[0].annotated_type {
                    Some(a) => a.is_public(),
                    None => false,
                };
                if !cond_public {
                    return Err(TypeError::CannotRehom);
                }
                let ghost old_args = args;
                let mut args = args;
                let a2 = args.pop().unwrap();
                let a1 = args.pop().unwrap();
                proof {
                    assert(a1 == old_args@[1]);
                    assert(a2 == old_args@[2]);
                    assert(decreases_to!(ge => ge.kind));
                    assert(decreases_to!(ge.kind => ge.kind->FunctionCall_args));
                    vstd::std_specs::vec::axiom_vec_index_decreases(old_args, 1);
                    vstd::std_specs::vec::axiom_vec_index_decreases(old_args, 2);
                    assert(a1.spec_typed() && a1.spec_well_formed());
                    assert(a2.spec_typed() && a2.spec_well_formed());
                }
                let n1 = self.try_rehom(a1, expected_type, analysis)?;
                let n2 = self.try_rehom(a2, expected_type, analysis)?;

                args.push(n1);
                args.push(n2);
                proof {
                    assert(args@[1] == n1);
                    assert(args@[2] == n2);
                    assert(args@[0] == old_args@[0]);
                    assert forall|i: int| 0 <= i < args.len() implies (#[trigger] args@[i]).spec_typed() && args@[i].spec_well_formed() by {
                        if i == 0 {
                            assert(old_args@[0].spec_typed() && old_args@[0].spec_well_formed());
                        }
                    }
                }
                ExprKind::FunctionCall { func: Callee::Builtin(b), args }
            },
            _ => {
                return Err(TypeError::CannotRehom);
            },
        };
        let at = match annotated_type {
            Some(a) => a.with_homomorphism(expected_type.homomorphism),
            None => AnnotatedTypeName::new(TypeName::Bool, None, expected_type.homomorphism),
        };
        let res = Expr {
            id,
            kind: new_kind,
            annotated_type: Some(at),
            evaluate_privately,
            line,
            column,
            parent,
            statement,
            namespace,
        };
        Ok(res)
    }
}


/// The instance check of `get_rhs` with the expected homomorphism.
pub open spec fn rhs_instance(rhs: Expr, expected: AnnotatedTypeName, analysis: Option<&PartitionState>) -> InstanceOf {
    instance_of(rhs.ty(), analysis, expected)
}

/// The instance check of `get_rhs` with the homomorphism of `rhs`.
pub open spec fn rhs_instance_rehom(rhs: Expr, expected: AnnotatedTypeName, analysis: Option<&PartitionState>) -> InstanceOf {
    instance_of(rhs.ty(), analysis, expected.spec_with_homomorphism(rhs.ty().homomorphism))
}

/// Converting `rhs` to the expected type name succeeds.
pub open spec fn converts_to(rhs: Expr, expected: AnnotatedTypeName) -> bool {
    *rhs.ty().ty == *expected.ty || !conversion_fails(rhs)
}

/// `rhs` can be made fit for a place of type `expected` (see `get_rhs`): a
/// tuple element by element; another value where it is an instance of the
/// expected type, or of it with its own homomorphism, and the conversion, the
/// making private or the change of homomorphism that this takes succeeds.
pub open spec fn rhs_fits(rhs: Expr, expected: AnnotatedTypeName, analysis: Option<&PartitionState>) -> bool
    decreases rhs,
{
    match rhs.kind {
        ExprKind::Tuple(elems) => match *expected.ty {
            TypeName::Tuple(ts) => ts.spec_items().len() == elems.len() && forall|i: int|
                0 <= i < elems.len() ==> rhs_fits(#[trigger] elems@[i], ts.spec_items()[i], analysis),
            _ => false,
        },
        _ => {
            let i1 = rhs_instance(rhs, expected, analysis);
            let i2 = rhs_instance_rehom(rhs, expected, analysis);
            let private_ok = expected.privacy_annotation == Some(PrivacyLabel::All) || expected.ty.spec_can_be_private();
            if i1 == InstanceOf::Yes {
                converts_to(rhs, expected)
            } else if i1 == InstanceOf::MakePrivate || (i1 == InstanceOf::No && i2 == InstanceOf::MakePrivate) {
                converts_to(rhs, expected) && private_ok
            } else if i2 == InstanceOf::Yes {
                converts_to(rhs, expected) && converted_rehom_succeeds(rhs, expected, analysis)
            } else {
                false
            }
        },
    }
}


/// `t` is the type that `get_rhs` gives `rhs` for a place of type
/// `expected`: a tuple gets the public tuple of its elements' types; another
/// value gets the expected type name, and keeps its labels where it is an
/// instance of the expected type, is made private to the expected owner, or
/// takes the expected homomorphism, as its instance check asks.
pub open spec fn rhs_type_result(rhs: Expr, expected: AnnotatedTypeName, analysis: Option<&PartitionState>, t: AnnotatedTypeName) -> bool
    decreases rhs,
{
    match rhs.kind {
        ExprKind::Tuple(elems) => match (*expected.ty, *t.ty) {
            (TypeName::Tuple(es), TypeName::Tuple(ts)) => {
                &&& t.privacy_annotation is None
                &&& t.homomorphism == Homomorphism::NonHomomorphic
                &&& es.spec_items().len() == elems.len()
                &&& ts.spec_items().len() == elems.len()
                &&& forall|i: int|
                    0 <= i < elems.len() ==> rhs_type_result(#[trigger] elems@[i], es.spec_items()[i], analysis, ts.spec_items()[i])
            },
            _ => false,
        },
        _ => {
            let i1 = rhs_instance(rhs, expected, analysis);
            let i2 = rhs_instance_rehom(rhs, expected, analysis);
            &&& *t.ty == *expected.ty
            &&& i1 == InstanceOf::Yes ==> t.privacy_annotation == rhs.ty().privacy_annotation && t.homomorphism
                == rhs.ty().homomorphism
            &&& i1 == InstanceOf::MakePrivate ==> t.privacy_annotation == expected.privacy_annotation && t.homomorphism
                == expected.homomorphism
            &&& (i1 == InstanceOf::No && i2 != InstanceOf::No) ==> t.homomorphism == expected.homomorphism
            &&& (i1 == InstanceOf::No && i2 == InstanceOf::MakePrivate) ==> t.privacy_annotation == expected.privacy_annotation
            &&& (i1 == InstanceOf::No && i2 == InstanceOf::Yes) ==> t.privacy_annotation == if rhs.ty().spec_is_private_at_me(
                analysis,
            ) {
                expected.privacy_annotation
            } else {
                rhs.ty().privacy_annotation
            }
        },
    }
}

/// The label a value is made private to for a place of type `expected`:
/// its label, `all` where it has none.
pub open spec fn label_or_all(p: Option<PrivacyLabel>) -> PrivacyLabel {
    match p {
        Some(l) => l,
        None => PrivacyLabel::All,
    }
}

/// `rhs`, not a tuple, converted to the expected type name where its own
/// differs (see `implicit_conversion`, the cast taking the id `id_in`).
pub open spec fn converted_for(rhs: Expr, expected: AnnotatedTypeName, id_in: u64) -> Expr {
    if *rhs.ty().ty == *expected.ty {
        rhs
    } else {
        implicit_conversion(rhs, *expected.ty, id_in)
    }
}

/// The id counter after `converted_for`.
pub open spec fn converted_next(rhs: Expr, expected: AnnotatedTypeName, id_in: u64) -> u64 {
    if *rhs.ty().ty == *expected.ty {
        id_in
    } else {
        id_in.wrapping_add(1)
    }
}

/// `x` is what `get_rhs` builds for `rhs`, not a tuple, and a place of type
/// `expected`, with fresh ids from `id_in` on: `rhs` converted to the
/// expected type name (see `converted_for`), then, as its instance check
/// asks, left as it is, wrapped in a reveal to the expected owner with the
/// expected homomorphism, or given the expected homomorphism (see
/// `rehom_rel`).
pub open spec fn fitted_value(rhs: Expr, expected: AnnotatedTypeName, analysis: Option<&PartitionState>, id_in: u64, x: Expr) -> bool {
    let c = converted_for(rhs, expected, id_in);
    let id1 = converted_next(rhs, expected, id_in);
    let i1 = rhs_instance(rhs, expected, analysis);
    let i2 = rhs_instance_rehom(rhs, expected, analysis);
    if i1 == InstanceOf::Yes {
        x == c
    } else if i1 == InstanceOf::MakePrivate || i2 == InstanceOf::MakePrivate {
        x == reclassified(c, id1, label_or_all(expected.privacy_annotation), expected.homomorphism, false)
    } else {
        rehom_rel(c, expected, analysis, id1, x)
    }
}

/// The id counter after `fitted_value`.
pub open spec fn fitted_next(rhs: Expr, expected: AnnotatedTypeName, analysis: Option<&PartitionState>, id_in: u64) -> u64 {
    let c = converted_for(rhs, expected, id_in);
    let id1 = converted_next(rhs, expected, id_in);
    let i1 = rhs_instance(rhs, expected, analysis);
    let i2 = rhs_instance_rehom(rhs, expected, analysis);
    if i1 == InstanceOf::Yes {
        id1
    } else if i1 == InstanceOf::MakePrivate || i2 == InstanceOf::MakePrivate {
        id1.wrapping_add(1)
    } else {
        rehom_next(c, expected, analysis, id1)
    }
}

/// `x` is what `get_rhs` gives for `rhs` and a place of type `expected`: a
/// typed, well-formed expression at the place of `rhs`, of the type
/// `rhs_type_result` gives; a tuple stays a tuple of as many elements, and a
/// value that is already an instance of the expected type, of the expected
/// type name, is given back unchanged.
pub open spec fn rhs_result(rhs: Expr, expected: AnnotatedTypeName, analysis: Option<&PartitionState>, x: Expr) -> bool {
    &&& x.spec_typed()
    &&& x.spec_well_formed()
    &&& x.parent == rhs.parent
    &&& rhs_type_result(rhs, expected, analysis, x.ty())
    &&& rhs.kind is Tuple ==> x.kind is Tuple && x.kind->Tuple_0.len() == rhs.kind->Tuple_0.len()
    &&& !(rhs.kind is Tuple) ==> x.statement == rhs.statement && !(x.kind is Tuple)
    &&& !(rhs.kind is Tuple) ==> exists|id_in: u64| fitted_value(rhs, expected, analysis, id_in, x)
    &&& !(rhs.kind is Tuple) && rhs_instance(rhs, expected, analysis) == InstanceOf::Yes && *rhs.ty().ty == *expected.ty
        ==> x == rhs
}

/// A value that is not a tuple expression, once fitted to a place, is an
/// instance of the place's type and fits it, and fitting it there again
/// gives it back unchanged (a tuple expression is rebuilt as a new node each
/// time it is fitted).
pub proof fn law_fitting_twice_changes_nothing(
    rhs: Expr,
    expected: AnnotatedTypeName,
    analysis: Option<&PartitionState>,
    x: Expr,
)
    requires
        !(rhs.kind is Tuple),
        rhs_fits(rhs, expected, analysis),
        rhs_result(rhs, expected, analysis, x),
    ensures
        rhs_instance(x, expected, analysis) == InstanceOf::Yes,
        rhs_fits(x, expected, analysis),
        forall|y: Expr| #[trigger] rhs_result(x, expected, analysis, y) ==> y == x,
{
    let i1 = rhs_instance(rhs, expected, analysis);
    let i2 = rhs_instance_rehom(rhs, expected, analysis);
    assert(convertible(*x.ty().ty, *expected.ty));
    if let TypeName::Tuple(ys) = *expected.ty {
        if let TypeName::Tuple(xs) = *rhs.ty().ty {
            if tuple_privacy_matches(xs, analysis, ys) {
                crate::types::lemma_matched_tuple_is_labelled(xs, analysis, ys);
                crate::types::lemma_tuple_privacy_matches_itself(ys, analysis);
            }
        }
    }
    if i1 == InstanceOf::MakePrivate || (i1 == InstanceOf::No && i2 == InstanceOf::MakePrivate) {
        assert(x.ty() == expected);
        if *expected.ty is Tuple {
            assert(false);
        } else {
            assert(expected.privacy_annotation is Some);
            assert(combined_privacy(expected, analysis, expected) == expected.privacy_annotation);
        }
    } else if i1 == InstanceOf::Yes {
        assert(x.ty().spec_is_public() == rhs.ty().spec_is_public());
        assert(combined_privacy(x.ty(), analysis, expected) == combined_privacy(rhs.ty(), analysis, expected));
    } else {
        assert(i1 == InstanceOf::No && i2 == InstanceOf::Yes);
        if !(*expected.ty is Tuple) {
            let e2 = expected.spec_with_homomorphism(rhs.ty().homomorphism);
            assert(x.ty().homomorphism == expected.homomorphism);
            if rhs.ty().spec_is_private_at_me(analysis) {
                assert(x.ty().privacy_annotation == expected.privacy_annotation);
                assert(combined_privacy(x.ty(), analysis, expected) == x.ty().privacy_annotation);
            } else {
                assert(x.ty().privacy_annotation == rhs.ty().privacy_annotation);
                assert(combined_privacy(rhs.ty(), analysis, e2) == rhs.ty().privacy_annotation);
                assert(combined_privacy(x.ty(), analysis, expected) == x.ty().privacy_annotation);
            }
        }
    }
    assert(rhs_instance(x, expected, analysis) == InstanceOf::Yes);
}

/// `a` and `b` agree in all that decides whether they fit a place: their
/// types, and their reclassifications, casts, calls of built-ins and tuples
/// all the way down.
pub open spec fn same_fit_shape(a: Expr, b: Expr) -> bool
    decreases a,
{
    &&& a.annotated_type == b.annotated_type
    &&& match (a.kind, b.kind) {
        (
            ExprKind::Reclassify { expr: e1, privacy: p1, is_rehom: r1, .. },
            ExprKind::Reclassify { expr: e2, privacy: p2, is_rehom: r2, .. },
        ) => p1 == p2 && r1 == r2 && same_fit_shape(*e1, *e2),
        (ExprKind::PrimitiveCast { expr: e1, .. }, ExprKind::PrimitiveCast { expr: e2, .. }) => same_fit_shape(*e1, *e2),
        (
            ExprKind::FunctionCall { func: Callee::Builtin(b1), args: a1 },
            ExprKind::FunctionCall { func: Callee::Builtin(b2), args: a2 },
        ) => {
            &&& b1.op == b2.op
            &&& a1.len() == a2.len()
            &&& forall|i: int| 0 <= i < a1.len() ==> same_fit_shape(#[trigger] a1@[i], a2@[i])
        },
        (ExprKind::FunctionCall { func: Callee::Location(_), .. }, ExprKind::FunctionCall { func: Callee::Location(_), .. }) => true,
        (ExprKind::Tuple(a1), ExprKind::Tuple(a2)) => {
            &&& a1.len() == a2.len()
            &&& forall|i: int| 0 <= i < a1.len() ==> same_fit_shape(#[trigger] a1@[i], a2@[i])
        },
        (ExprKind::Reclassify { .. }, _) | (ExprKind::PrimitiveCast { .. }, _) | (ExprKind::FunctionCall { .. }, _) | (
            ExprKind::Tuple(_),
            _,
        ) => false,
        (_, ExprKind::Reclassify { .. }) | (_, ExprKind::PrimitiveCast { .. }) | (_, ExprKind::FunctionCall { .. }) | (
            _,
            ExprKind::Tuple(_),
        ) => false,
        _ => true,
    }
}

/// Expressions of the same fit shape convert, change their homomorphism and
/// fit a place alike.
pub proof fn lemma_same_fit_shape(a: Expr, b: Expr, t: AnnotatedTypeName, analysis: Option<&PartitionState>)
    requires
        same_fit_shape(a, b),
    ensures
        conversion_fails(a) == conversion_fails(b),
        rehom_succeeds(a, t, analysis) == rehom_succeeds(b, t, analysis),
        rhs_fits(a, t, analysis) == rhs_fits(b, t, analysis),
    decreases a,
{
    match (a.kind, b.kind) {
        (ExprKind::Reclassify { expr: e1, .. }, ExprKind::Reclassify { expr: e2, .. }) => {
            lemma_same_fit_shape(*e1, *e2, t, analysis);
        },
        (ExprKind::PrimitiveCast { expr: e1, .. }, ExprKind::PrimitiveCast { expr: e2, .. }) => {
            lemma_same_fit_shape(*e1, *e2, t, analysis);
        },
        (ExprKind::FunctionCall { func: Callee::Builtin(_), args: a1 }, ExprKind::FunctionCall { func: Callee::Builtin(_), args: a2 }) => {
            if a1.len() == 3 {
                assert(same_fit_shape(a1@[0], a2@[0]));
                lemma_same_fit_shape(a1@[1], a2@[1], t, analysis);
                lemma_same_fit_shape(a1@[2], a2@[2], t, analysis);
            }
        },
        (ExprKind::Tuple(a1), ExprKind::Tuple(a2)) => {
            match *t.ty {
                TypeName::Tuple(ts) => {
                    assert forall|i: int| #![trigger a1@[i]] #![trigger a2@[i]] 0 <= i < a1.len() && i < ts.spec_items().len()
                        implies rhs_fits(a1@[i], ts.spec_items()[i], analysis) == rhs_fits(a2@[i], ts.spec_items()[i], analysis) by {
                        lemma_same_fit_shape(a1@[i], a2@[i], ts.spec_items()[i], analysis);
                    }
                },
                _ => {},
            }
        },
        _ => {},
    }
}

impl TypeCheckVisitor {
    fn get_rhs_list(
        &mut self,
        elems: Vec<Expr>,
        types: &Vec<AnnotatedTypeName>,
        analysis: Option<&PartitionState>,
        Ghost(whole): Ghost<Expr>,
    ) -> (r: Result<Vec<Expr>, TypeError>)
        requires
            decreases_to!(whole => elems),
            elems.len() == types.len(),
            forall|i: int| 0 <= i < elems.len() ==> (#[trigger] elems@[i]).spec_typed() && elems@[i].spec_well_formed(),
        ensures
            final(self).warnings == old(self).warnings,
            r is Ok <==> forall|i: int| 0 <= i < elems.len() ==> rhs_fits(#[trigger] elems@[i], types@[i], analysis),
            r matches Ok(v) ==> {
                &&& v.len() == elems.len()
                &&& forall|i: int| 0 <= i < v.len() ==> rhs_result(elems@[i], types@[i], analysis, #[trigger] v@[i])
            },
        decreases whole, 0nat,
    {
        let ghost old_elems = elems;
        let mut rest = elems;
        let mut out: Vec<Expr> = Vec::new();
        while rest.len() > 0
            invariant
                out.len() + rest.len() == old_elems.len(),
                old_elems.len() == types.len(),
                rest@ == old_elems@.subrange(out.len() as int, old_elems.len() as int),
                decreases_to!(whole => old_elems),
                forall|i: int| 0 <= i < old_elems.len() ==> (#[trigger] old_elems@[i]).spec_typed() && old_elems@[i].spec_well_formed(),
                forall|i: int| 0 <= i < out.len() ==> rhs_result(old_elems@[i], types@[i], analysis, #[trigger] out@[i]),
                forall|i: int| 0 <= i < out.len() ==> rhs_fits(#[trigger] old_elems@[i], types@[i], analysis),
                old_elems == elems,
                self.warnings == old(self).warnings,
            decreases rest.len(),
        {
            let k = rest.remove(0);
            let i = out.len();
            proof {
                assert(k == old_elems@[i as int]);
                vstd::std_specs::vec::axiom_vec_index_decreases(old_elems, i as int);
            }
            let nk = match self.get_rhs(k, &types[i], analysis) {
                Ok(x) => x,
                Err(e) => {
                    proof {
                        assert(!rhs_fits(old_elems@[i as int], types@[i as int], analysis));
                    }
                    return Err(e);
                },
            };
            out.push(nk);
        }
        Ok(out)
    }

    /// `rhs` made fit for a place of type `expected_type`: tuples element by
    /// element; other values converted to the expected type name, then made
    /// private or given the expected homomorphism where their type asks for it.
    pub fn get_rhs(&mut self, rhs: Expr, expected_type: &AnnotatedTypeName, analysis: Option<&PartitionState>) -> (r: Result<Expr, TypeError>)
        requires
            rhs.spec_typed(),
            rhs.spec_well_formed(),
        ensures
            final(self).warnings == old(self).warnings,
            r is Ok <==> rhs_fits(rhs, *expected_type, analysis),
            r matches Ok(x) ==> rhs_result(rhs, *expected_type, analysis, x),
            !(rhs.kind is Tuple) ==> (r matches Ok(x) ==> fitted_value(rhs, *expected_type, analysis, old(self).next_id, x)
                && final(self).next_id == fitted_next(rhs, *expected_type, analysis, old(self).next_id)),
            rhs.kind is Tuple && !(*expected_type.ty matches TypeName::Tuple(ts) && ts.spec_items().len()
                == rhs.kind->Tuple_0.len()) ==> r == Err::<Expr, TypeError>(TypeError::TypeMismatch),
            !(rhs.kind is Tuple) && rhs_instance(rhs, *expected_type, analysis) == InstanceOf::No && rhs_instance_rehom(
                rhs,
                *expected_type,
                analysis,
            ) == InstanceOf::No ==> r == Err::<Expr, TypeError>(TypeError::TypeMismatch),
        decreases rhs, 1nat,
    {
        if let ExprKind::Tuple(_) = &rhs.kind {
            let types = match &*expected_type.ty {
                TypeName::Tuple(ts) => ts.to_vec(),
                _ => { return Err(TypeError::TypeMismatch); },
            };
            let ghost ge = rhs;
            let shell_ns = match &rhs.namespace {
                Some(n) => Some(crate::parent_setter::copy_names(n)),
                None => None,
            };
            let mut shell = Expr::new_node(rhs.id, ExprKind::All);
            shell.parent = rhs.parent;
            shell.line = rhs.line;
            shell.column = rhs.column;
            shell.namespace = shell_ns;
            let elems = match rhs.kind {
                ExprKind::Tuple(e) => e,
                _ => Vec::new(),
            };
            if elems.len() != types.len() {
                return Err(TypeError::TypeMismatch);
            }
            proof {
                assert(decreases_to!(ge => ge.kind));
                assert(decreases_to!(ge.kind => ge.kind->Tuple_0));
                assert forall|i: int| 0 <= i < elems.len() implies (#[trigger] elems@[i]).spec_typed() && elems@[i].spec_well_formed() by {
                    assert(ge.kind->Tuple_0@[i] == elems@[i]);
                }
            }
            let exprs = self.get_rhs_list(elems, &types, analysis, Ghost(ge))?;
            let mut elem_types: Vec<AnnotatedTypeName> = Vec::new();
            let mut i: usize = 0;
            while i < exprs.len()
                invariant
                    i <= exprs.len(),
                    elem_types.len() == i,
                    forall|j: int| 0 <= j < i ==> #[trigger] elem_types@[j] == exprs@[j].ty(),
                    forall|j: int| 0 <= j < exprs.len() ==> (#[trigger] exprs@[j]).spec_typed(),
                decreases exprs.len() - i,
            {
                let t = match &exprs[i].annotated_type {
                    Some(a) => a.copy(),
                    None => AnnotatedTypeName::bool_all(),
                };
                elem_types.push(t);
                i = i + 1;
            }
            let n = exprs.len();
            let id = self.fresh_id();
            let mut tuple = Expr::new_node(id, ExprKind::Tuple(exprs));
            tuple.annotated_type = Some(AnnotatedTypeName::new(
                TypeName::Tuple(AnnotatedTypeList::from_vec(elem_types)),
                None,
                Homomorphism::NonHomomorphic,
            ));
            let ghost t0 = tuple;
            let r = crate::deep_copy::replace_expr(&shell, tuple, false);
            proof {
                let t1 = Expr { line: shell.line, column: shell.column, ..t0 };
                crate::ast::lemma_same_kind_and_type(t0, t1);
                if shell.parent is Some {
                    crate::parent_setter::lemma_relinked_keeps_typing(t1, r, shell.parent.unwrap(), r.namespace.unwrap()@, None);
                }
            }
            return Ok(r);
        }
        let at = match &rhs.annotated_type {
            Some(a) => a.copy(),
            None => AnnotatedTypeName::bool_all(),
        };
        let mut require_rehom = false;
        let mut instance = instance_of_exec(&at, analysis, expected_type);
        if instance == InstanceOf::No {
            require_rehom = true;
            let expected_matching_hom = expected_type.with_homomorphism(at.homomorphism);
            instance = instance_of_exec(&at, analysis, &expected_matching_hom);
        }
        if instance == InstanceOf::No {
            return Err(TypeError::TypeMismatch);
        }
        let ghost rhs0 = rhs;
        let ghost nid = self.next_id;
        let mut rhs = rhs;
        if !at.ty.equals(&expected_type.ty) {
            rhs = self.implicitly_converted_to(rhs, &expected_type.ty)?;
        }
        proof {
            if require_rehom && instance == InstanceOf::Yes {
                lemma_converted_rehom(rhs0, rhs, *expected_type, analysis, nid);
            }
        }
        let res = if instance == InstanceOf::MakePrivate {
            let p = match expected_type.privacy_annotation {
                Some(p) => p,
                None => PrivacyLabel::All,
            };
            self.make_private(rhs, p, expected_type.homomorphism)
        } else if require_rehom {
            if expected_type.privacy_annotation.is_none() {
                return Err(TypeError::CannotRehom);
            }
            self.try_rehom(rhs, expected_type, analysis)
        } else {
            Ok(rhs)
        };
        proof {
            if res is Ok {
                assert(fitted_value(rhs0, *expected_type, analysis, old(self).next_id, res->Ok_0));
            }
        }
        res
    }
}

} // verus!
