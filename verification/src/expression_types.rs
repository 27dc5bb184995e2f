//! The type rules of expressions other than calls of built-ins: casts,
//! calls of functions, reclassifications, member and index accesses,
//! identifiers, tuples and `me`.
use vstd::prelude::*;
use crate::ast::{Callee, DeclKind, DeclRef, Expr, ExprKind};
use crate::builtin_calls::{builtin_call_result, call_args, type_name_of};
use crate::type_checker::{rhs_fits, rhs_result, TypeCheckVisitor, TypeError};
use crate::types::{
    convertible, instance_of, instance_of_exec, AnnotatedTypeList, AnnotatedTypeName, Homomorphism, InstanceOf, PartitionState,
    PrivacyLabel, TypeName,
};

verus! {

/// The type of casting `e` to type name `t`: private at `me` for a private
/// value (which must be an instance of its type at `me`), public otherwise.
pub open spec fn cast_type(e: Expr, t: TypeName, analysis: Option<&PartitionState>) -> Result<AnnotatedTypeName, TypeError> {
    if e.ty().spec_is_private() {
        let expected = AnnotatedTypeName {
            ty: e.ty().ty,
            privacy_annotation: Some(PrivacyLabel::Me),
            homomorphism: Homomorphism::NonHomomorphic,
        };
        if instance_of(e.ty(), analysis, expected) == InstanceOf::No {
            Err(TypeError::TypeMismatch)
        } else {
            Ok(AnnotatedTypeName { ty: Box::new(t), privacy_annotation: Some(PrivacyLabel::Me), homomorphism: Homomorphism::NonHomomorphic })
        }
    } else {
        Ok(AnnotatedTypeName { ty: Box::new(t), privacy_annotation: Some(PrivacyLabel::All), homomorphism: Homomorphism::NonHomomorphic })
    }
}

/// The declaration a location expression refers to.
pub open spec fn location_target(f: Expr) -> Option<DeclRef> {
    match f.kind {
        ExprKind::Identifier { target, .. } => target,
        ExprKind::MemberAccess { target, .. } => target,
        _ => None,
    }
}

/// The callee names a type (an enum or a contract): the call is a cast.
pub open spec fn is_cast_callee(f: Expr) -> bool {
    location_target(f) matches Some(t) && (t.kind == DeclKind::Enum || t.kind == DeclKind::Contract)
}

/// The type of a call of a function with the given return parameters: the
/// single return type, or the tuple of them.
pub open spec fn function_return_type(rets: AnnotatedTypeList) -> AnnotatedTypeName {
    if rets.spec_items().len() == 1 {
        rets.spec_items()[0]
    } else {
        AnnotatedTypeName { ty: Box::new(TypeName::Tuple(rets)), privacy_annotation: None, homomorphism: Homomorphism::NonHomomorphic }
    }
}

/// `x` is `ast` with another type and kind: same id, links and position.
pub open spec fn same_node(x: Expr, ast: Expr) -> bool {
    &&& x.id == ast.id
    &&& x.parent == ast.parent
    &&& x.statement == ast.statement
    &&& x.line == ast.line
    &&& x.column == ast.column
    &&& x.evaluate_privately == ast.evaluate_privately
}

/// The callee of a call through a location.
pub open spec fn callee_expr(ast: Expr) -> Expr {
    *ast.kind->FunctionCall_func->Location_0
}

impl TypeCheckVisitor {
    /// The type of casting `expr` to `t` (see `cast_type`).
    pub fn handle_cast(&self, expr: &Expr, t: &TypeName, analysis: Option<&PartitionState>) -> (r: Result<AnnotatedTypeName, TypeError>)
        requires
            expr.annotated_type is Some,
        ensures
            r == cast_type(*expr, *t, analysis),
    {
        let at = match &expr.annotated_type {
            Some(a) => a,
            None => {
                return Err(TypeError::UntypedTarget);
            },
        };
        if at.is_private() {
            let expected = AnnotatedTypeName::new(at.ty.copy(), Some(PrivacyLabel::Me), Homomorphism::NonHomomorphic);
            if instance_of_exec(at, analysis, &expected) == InstanceOf::No {
                return Err(TypeError::TypeMismatch);
            }
            Ok(AnnotatedTypeName::new(t.copy(), Some(PrivacyLabel::Me), Homomorphism::NonHomomorphic))
        } else {
            Ok(AnnotatedTypeName::new(t.copy(), Some(PrivacyLabel::All), Homomorphism::NonHomomorphic))
        }
    }

    /// A cast takes the type that `handle_cast` gives.
    pub fn visitPrimitiveCastExpr(&self, ast: Expr, analysis: Option<&PartitionState>) -> (r: Result<Expr, TypeError>)
        requires
            ast.kind is PrimitiveCast,
            ast.spec_children_typed(),
        ensures
            match cast_type(*ast.kind->PrimitiveCast_expr, ast.kind->PrimitiveCast_elem_type, analysis) {
                Ok(t) => r == Ok::<Expr, TypeError>(Expr { annotated_type: Some(t), ..ast }),
                Err(e) => r == Err::<Expr, TypeError>(e),
            },
    {
        let t = match &ast.kind {
            ExprKind::PrimitiveCast { elem_type, expr, .. } => self.handle_cast(expr, elem_type, analysis)?,
            _ => {
                return Err(TypeError::TypeMismatch);
            },
        };
        Ok(Expr { annotated_type: Some(t), ..ast })
    }
}

/// What `visitFunctionCallExpr` gives for a call through a location: a cast
/// to an enum, or a call of a function whose arguments are converted to its
/// parameter types and whose type is its return type.
pub open spec fn location_call_result(ast: Expr, analysis: Option<&PartitionState>, r: Result<Expr, TypeError>) -> bool {
    let f = callee_expr(ast);
    if is_cast_callee(f) {
        let t = location_target(f).unwrap();
        if t.kind != DeclKind::Enum {
            r == Err::<Expr, TypeError>(TypeError::UserCastNotEnum)
        } else if t.annotated_type is None {
            r == Err::<Expr, TypeError>(TypeError::UntypedTarget)
        } else if call_args(ast).len() == 0 {
            r == Err::<Expr, TypeError>(TypeError::WrongNumberOfArguments)
        } else {
            match cast_type(call_args(ast)[0], *t.annotated_type.unwrap().ty, analysis) {
                Ok(ct) => r == Ok::<Expr, TypeError>(Expr { annotated_type: Some(ct), ..ast }),
                Err(e) => r == Err::<Expr, TypeError>(e),
            }
        }
    } else {
        match *f.ty().ty {
            TypeName::Function { parameters, return_parameters } => if parameters.spec_items().len() != call_args(ast).len() {
                r == Err::<Expr, TypeError>(TypeError::WrongNumberOfArguments)
            } else {
                &&& (r is Ok <==> forall|i: int|
                    0 <= i < call_args(ast).len() ==> rhs_fits(#[trigger] call_args(ast)[i], parameters.spec_items()[i], analysis))
                &&& r matches Ok(x) ==> {
                    &&& same_node(x, ast)
                    &&& x.annotated_type == Some(function_return_type(return_parameters))
                    &&& x.kind is FunctionCall
                    &&& x.kind->FunctionCall_func == ast.kind->FunctionCall_func
                    &&& call_args(x).len() == call_args(ast).len()
                    &&& forall|i: int|
                        0 <= i < call_args(x).len() ==> rhs_result(
                            call_args(ast)[i],
                            parameters.spec_items()[i],
                            analysis,
                            #[trigger] call_args(x)[i],
                        )
                    &&& x.spec_typed()
                    &&& x.spec_well_formed()
                }
            },
            _ => r == Err::<Expr, TypeError>(TypeError::NotAFunction),
        }
    }
}

impl TypeCheckVisitor {
    /// Type-checks a call: of a built-in (see `handle_builtin_function_call`),
    /// a cast to an enum, or a call of a function.
    pub fn visitFunctionCallExpr(&mut self, ast: Expr, analysis: Option<&PartitionState>) -> (r: Result<Expr, TypeError>)
        requires
            ast.kind is FunctionCall,
            ast.spec_children_typed(),
            ast.spec_well_formed(),
        ensures
            ast.kind->FunctionCall_func is Builtin ==> builtin_call_result(ast, analysis, r, old(self).warnings@, final(self).warnings@),
            ast.kind->FunctionCall_func is Location ==> final(self).warnings == old(self).warnings
                && location_call_result(ast, analysis, r),
    {
        let is_builtin = match &ast.kind {
            ExprKind::FunctionCall { func: Callee::Builtin(_), .. } => true,
            _ => false,
        };
        if is_builtin {
            proof {
                assert(crate::builtin_calls::all_typed(call_args(ast)));
            }
            return self.handle_builtin_function_call(ast, analysis);
        }
        let ghost g = ast;
        let Expr { id, kind, annotated_type, evaluate_privately, line, column, parent, statement, namespace } = ast;
        let (f, args) = match kind {
            ExprKind::FunctionCall { func: Callee::Location(f), args } => (f, args),
            _ => {
                return Err(TypeError::NotAFunction);
            },
        };
        let target = match &f.kind {
            ExprKind::Identifier { target, .. } => target,
            ExprKind::MemberAccess { target, .. } => target,
            _ => &None,
        };
        let cast_target = match target {
            Some(t) => t.kind == DeclKind::Enum || t.kind == DeclKind::Contract,
            None => false,
        };
        if cast_target {
            let t = match target {
                Some(t) => t,
                None => {
                    return Err(TypeError::UnresolvedTarget);
                },
            };
            if t.kind != DeclKind::Enum {
                return Err(TypeError::UserCastNotEnum);
            }
            let tt = match &t.annotated_type {
                Some(a) => a.ty.copy(),
                None => {
                    return Err(TypeError::UntypedTarget);
                },
            };
            if args.len() == 0 {
                return Err(TypeError::WrongNumberOfArguments);
            }
            let ct = self.handle_cast(&args[0], &tt, analysis)?;
            return Ok(Expr {
                id,
                kind: ExprKind::FunctionCall { func: Callee::Location(f), args },
                annotated_type: Some(ct),
                evaluate_privately,
                line,
                column,
                parent,
                statement,
                namespace,
            });
        }
        let (params, rets) = match &f.annotated_type {
            Some(a) => match &*a.ty {
                TypeName::Function { parameters, return_parameters } => (parameters.to_vec(), return_parameters),
                _ => {
                    return Err(TypeError::NotAFunction);
                },
            },
            None => {
                return Err(TypeError::NotAFunction);
            },
        };
        if params.len() != args.len() {
            return Err(TypeError::WrongNumberOfArguments);
        }
        let single = match rets {
            AnnotatedTypeList::Cons(x, rest) => match &**rest {
                AnnotatedTypeList::Nil => Some(x.copy()),
                _ => None,
            },
            AnnotatedTypeList::Nil => None,
        };
        proof {
            if rets is Cons {
                let rest = *rets->Cons_1;
                if rest.spec_items().len() == 0 {
                    assert(rest is Nil);
                }
            }
        }
        let rt = match single {
            Some(x) => x,
            None => AnnotatedTypeName::new(TypeName::Tuple(rets.copy()), None, Homomorphism::NonHomomorphic),
        };
        let ghost old_args = args@;
        let mut rest = args;
        let mut out: Vec<Expr> = Vec::new();
        while rest.len() > 0
            invariant
                out.len() + rest.len() == old_args.len(),
                old_args.len() == params.len(),
                g == ast,
                g.kind->FunctionCall_func is Location,
                call_args(g) == old_args,
                !is_cast_callee(callee_expr(g)),
                *callee_expr(g).ty().ty is Function,
                (*callee_expr(g).ty().ty)->Function_parameters.spec_items() == params@,
                rest@ == old_args.subrange(out.len() as int, old_args.len() as int),
                forall|i: int| 0 <= i < old_args.len() ==> (#[trigger] old_args[i]).spec_typed() && old_args[i].spec_well_formed(),
                forall|i: int| 0 <= i < out.len() ==> (#[trigger] out@[i]).spec_typed() && out@[i].spec_well_formed(),
                forall|i: int| 0 <= i < out.len() ==> rhs_result(old_args[i], params@[i], analysis, #[trigger] out@[i]),
                forall|i: int| 0 <= i < out.len() ==> rhs_fits(#[trigger] old_args[i], params@[i], analysis),
                self.warnings == old(self).warnings,
            decreases rest.len(),
        {
            let k = rest.remove(0);
            let i = out.len();
            proof {
                assert(k == old_args[i as int]);
            }
            let nk = match self.get_rhs(k, &params[i], analysis) {
                Ok(x) => x,
                Err(e) => {
                    proof {
                        assert(!rhs_fits(old_args[i as int], params@[i as int], analysis));
                        assert(call_args(g)[i as int] == old_args[i as int]);
                    }
                    return Err(e);
                },
            };
            out.push(nk);
        }
        Ok(Expr {
            id,
            kind: ExprKind::FunctionCall { func: Callee::Location(f), args: out },
            annotated_type: Some(rt),
            evaluate_privately,
            line,
            column,
            parent,
            statement,
            namespace,
        })
    }
}

/// What type-checking the reclassification `ast` decides: its new
/// homomorphism field and its type, or why it is refused.
pub open spec fn reclassify_outcome(ast: Expr, analysis: Option<&PartitionState>) -> Result<
    (Option<Homomorphism>, AnnotatedTypeName),
    TypeError,
> {
    let e = *ast.kind->Reclassify_expr;
    let h = ast.kind->Reclassify_homomorphism;
    match ast.kind->Reclassify_privacy {
        None => Err(TypeError::RevealPrivacyNotLabel),
        Some(p) => {
            let hom0 = if h is Some { h.unwrap() } else { e.ty().homomorphism };
            let to_public = p == PrivacyLabel::All && hom0 != Homomorphism::NonHomomorphic;
            let field = if to_public { Some(Homomorphism::NonHomomorphic) } else { h };
            let hom = if to_public { Homomorphism::NonHomomorphic } else { hom0 };
            let at_all = e.ty().spec_is_public();
            let at_me = e.ty().spec_is_private_at_me(analysis);
            let t = AnnotatedTypeName { ty: e.ty().ty, privacy_annotation: Some(p), homomorphism: hom };
            if !at_all && !at_me {
                Err(TypeError::RevealNotAccessible)
            } else if at_all && ast.kind->Reclassify_is_rehom && field == Some(Homomorphism::NonHomomorphic) {
                Err(TypeError::UnhomPublicValue)
            } else if instance_of(e.ty(), analysis, t) == InstanceOf::Yes {
                Err(TypeError::RedundantReveal)
            } else if t.spec_is_private() && !t.ty.spec_can_be_private() {
                Err(TypeError::CannotBePrivate)
            } else {
                Ok((field, t))
            }
        },
    }
}

/// The type of the value in a mapping of type `map_t` at key `key`: the value
/// type, whose label is the key's label where it names the mapping's key label.
pub open spec fn mapping_value_type(value_type: AnnotatedTypeName, key_label: Option<u64>, key: Expr) -> AnnotatedTypeName {
    match key_label {
        Some(k) => if value_type.privacy_annotation == Some(PrivacyLabel::Idf(k)) {
            AnnotatedTypeName { privacy_annotation: key.spec_privacy_annotation_label(), ..value_type }
        } else {
            value_type
        },
        None => value_type,
    }
}

/// The type of an index access `arr[key]`, or why it is refused.
pub open spec fn index_outcome(arr: Expr, key: Expr, analysis: Option<&PartitionState>) -> Result<AnnotatedTypeName, TypeError> {
    if arr.ty().privacy_annotation != Some(PrivacyLabel::All) {
        Err(TypeError::PrivateContainer)
    } else {
        match *arr.ty().ty {
            TypeName::Mapping { key_type, key_label, value_type } => {
                let expected = AnnotatedTypeName { ty: key_type, privacy_annotation: Some(PrivacyLabel::All), homomorphism: Homomorphism::NonHomomorphic };
                if instance_of(key.ty(), analysis, expected) == InstanceOf::No {
                    Err(TypeError::IndexTypeMismatch)
                } else if key_label is Some && key.spec_privacy_annotation_label() is None {
                    Err(TypeError::IndexNotPrivacyLabel)
                } else {
                    Ok(mapping_value_type(*value_type, key_label, key))
                }
            },
            TypeName::Array { value_type, .. } => if key.ty().spec_is_private() {
                Err(TypeError::PrivateArrayIndex)
            } else if !convertible(*key.ty().ty, TypeName::Uint(256)) {
                Err(TypeError::ArrayIndexNotNumeric)
            } else {
                Ok(*value_type)
            },
            _ => Err(TypeError::IndexIntoNonMapping),
        }
    }
}

/// The elements' types.
pub open spec fn element_types(elems: Seq<Expr>) -> Seq<AnnotatedTypeName> {
    Seq::new(elems.len(), |i: int| elems[i].ty())
}

impl TypeCheckVisitor {
    /// Checks `reveal`/`rehom`: the privacy is a label, the argument is public
    /// or private at `me`, a public value is not un-homomorphised, the
    /// reclassification is not redundant, and its type can be private.
    pub fn visitReclassifyExpr(&self, ast: Expr, analysis: Option<&PartitionState>) -> (r: Result<Expr, TypeError>)
        requires
            ast.kind is Reclassify,
            ast.spec_children_typed(),
        ensures
            match reclassify_outcome(ast, analysis) {
                Err(e) => r == Err::<Expr, TypeError>(e),
                Ok((field, t)) => r == Ok::<Expr, TypeError>(Expr {
                    kind: ExprKind::Reclassify {
                        expr: ast.kind->Reclassify_expr,
                        privacy: ast.kind->Reclassify_privacy,
                        homomorphism: field,
                        is_rehom: ast.kind->Reclassify_is_rehom,
                    },
                    annotated_type: Some(t),
                    ..ast
                }),
            },
    {
        let Expr { id, kind, annotated_type: _, evaluate_privately, line, column, parent, statement, namespace } = ast;
        let (expr, privacy, homomorphism, is_rehom) = match kind {
            ExprKind::Reclassify { expr, privacy, homomorphism, is_rehom } => (expr, privacy, homomorphism, is_rehom),
            _ => {
                return Err(TypeError::RevealPrivacyNotLabel);
            },
        };
        let p = match privacy {
            Some(p) => p,
            None => {
                return Err(TypeError::RevealPrivacyNotLabel);
            },
        };
        let et = match &expr.annotated_type {
            Some(a) => a.copy(),
            None => {
                return Err(TypeError::UntypedTarget);
            },
        };
        let hom0 = match homomorphism {
            Some(h) => h,
            None => et.homomorphism,
        };
        let to_public = p == PrivacyLabel::All && hom0 != Homomorphism::NonHomomorphic;
        let field = if to_public { Some(Homomorphism::NonHomomorphic) } else { homomorphism };
        let hom = if to_public { Homomorphism::NonHomomorphic } else { hom0 };
        let at_all = et.is_public();
        let at_me = et.is_private_at_me(analysis);
        if !at_all && !at_me {
            return Err(TypeError::RevealNotAccessible);
        }
        if at_all && is_rehom && field == Some(Homomorphism::NonHomomorphic) {
            return Err(TypeError::UnhomPublicValue);
        }
        let t = AnnotatedTypeName::new(et.ty.copy(), Some(p), hom);
        if instance_of_exec(&et, analysis, &t) == InstanceOf::Yes {
            return Err(TypeError::RedundantReveal);
        }
        if t.is_private() && !t.ty.can_be_private() {
            return Err(TypeError::CannotBePrivate);
        }
        Ok(Expr {
            id,
            kind: ExprKind::Reclassify { expr, privacy, homomorphism: field, is_rehom },
            annotated_type: Some(t),
            evaluate_privately,
            line,
            column,
            parent,
            statement,
            namespace,
        })
    }

    /// A member access takes the type of its target; members of private
    /// addresses cannot be accessed.
    pub fn visitMemberAccessExpr(&self, ast: Expr) -> (r: Result<Expr, TypeError>)
        requires
            ast.kind is MemberAccess,
            ast.spec_children_typed(),
        ensures
            ({
                let e = *ast.kind->MemberAccess_expr;
                match ast.kind->MemberAccess_target {
                    None => r == Err::<Expr, TypeError>(TypeError::UnresolvedTarget),
                    Some(t) => if e.ty().ty.spec_is_address() && e.ty().spec_is_private() {
                        r == Err::<Expr, TypeError>(TypeError::PrivateAddressMembers)
                    } else {
                        r == Ok::<Expr, TypeError>(Expr { annotated_type: t.annotated_type, ..ast })
                    },
                }
            }),
    {
        let t = match &ast.kind {
            ExprKind::MemberAccess { expr, target, .. } => {
                let target = match target {
                    Some(t) => t,
                    None => {
                        return Err(TypeError::UnresolvedTarget);
                    },
                };
                let (addr, private) = match &expr.annotated_type {
                    Some(a) => (a.ty.is_address(), a.is_private()),
                    None => (false, false),
                };
                if addr && private {
                    return Err(TypeError::PrivateAddressMembers);
                }
                match &target.annotated_type {
                    Some(a) => Some(a.copy()),
                    None => None,
                }
            },
            _ => {
                return Err(TypeError::UnresolvedTarget);
            },
        };
        Ok(Expr { annotated_type: t, ..ast })
    }

    /// An identifier takes the type of its target; a mapping is left as it is
    /// and a contract cannot be used as a value.
    pub fn visitIdentifierExpr(&self, ast: Expr) -> (r: Result<Expr, TypeError>)
        requires
            ast.kind is Identifier,
        ensures
            match ast.kind->Identifier_target {
                None => r == Err::<Expr, TypeError>(TypeError::UnresolvedTarget),
                Some(t) => if t.kind == DeclKind::Mapping {
                    r == Ok::<Expr, TypeError>(ast)
                } else if t.kind == DeclKind::Contract {
                    r == Err::<Expr, TypeError>(TypeError::ContractTypeInExpression)
                } else {
                    r == Ok::<Expr, TypeError>(Expr { annotated_type: t.annotated_type, ..ast })
                },
            },
    {
        let t = match &ast.kind {
            ExprKind::Identifier { target, .. } => {
                let target = match target {
                    Some(t) => t,
                    None => {
                        return Err(TypeError::UnresolvedTarget);
                    },
                };
                if target.kind == DeclKind::Mapping {
                    None
                } else if target.kind == DeclKind::Contract {
                    return Err(TypeError::ContractTypeInExpression);
                } else {
                    Some(
                        match &target.annotated_type {
                            Some(a) => Some(a.copy()),
                            None => None,
                        },
                    )
                }
            },
            _ => {
                return Err(TypeError::UnresolvedTarget);
            },
        };
        match t {
            None => Ok(ast),
            Some(t) => Ok(Expr { annotated_type: t, ..ast }),
        }
    }

    /// An index access into a public mapping or array (see `index_outcome`).
    pub fn visitIndexExpr(&self, ast: Expr, analysis: Option<&PartitionState>) -> (r: Result<Expr, TypeError>)
        requires
            ast.kind is Index,
            ast.spec_children_typed(),
        ensures
            match index_outcome(*ast.kind->Index_arr, *ast.kind->Index_key, analysis) {
                Err(e) => r == Err::<Expr, TypeError>(e),
                Ok(t) => r == Ok::<Expr, TypeError>(Expr { annotated_type: Some(t), ..ast }),
            },
    {
        let t = match &ast.kind {
            ExprKind::Index { arr, key } => {
                let map_t = match &arr.annotated_type {
                    Some(a) => a,
                    None => {
                        return Err(TypeError::UntypedTarget);
                    },
                };
                let kt = match &key.annotated_type {
                    Some(a) => a,
                    None => {
                        return Err(TypeError::UntypedTarget);
                    },
                };
                if map_t.privacy_annotation != Some(PrivacyLabel::All) {
                    return Err(TypeError::PrivateContainer);
                }
                match &*map_t.ty {
                    TypeName::Mapping { key_type, key_label, value_type } => {
                        let expected = AnnotatedTypeName::new(key_type.copy(), Some(PrivacyLabel::All), Homomorphism::NonHomomorphic);
                        if instance_of_exec(kt, analysis, &expected) == InstanceOf::No {
                            return Err(TypeError::IndexTypeMismatch);
                        }
                        let label = key.privacy_annotation_label();
                        if key_label.is_some() && label.is_none() {
                            return Err(TypeError::IndexNotPrivacyLabel);
                        }
                        let vt = value_type.copy();
                        match key_label {
                            Some(k) => if vt.privacy_annotation == Some(PrivacyLabel::Idf(*k)) {
                                AnnotatedTypeName { privacy_annotation: label, ..vt }
                            } else {
                                vt
                            },
                            None => vt,
                        }
                    },
                    TypeName::Array { value_type, .. } => {
                        if kt.is_private() {
                            return Err(TypeError::PrivateArrayIndex);
                        }
                        if !kt.ty.implicitly_convertible_to(&TypeName::Uint(256)) {
                            return Err(TypeError::ArrayIndexNotNumeric);
                        }
                        value_type.copy()
                    },
                    _ => {
                        return Err(TypeError::IndexIntoNonMapping);
                    },
                }
            },
            _ => {
                return Err(TypeError::IndexIntoNonMapping);
            },
        };
        Ok(Expr { annotated_type: Some(t), ..ast })
    }

    /// A tuple has the tuple type of its elements' types.
    pub fn visitTupleExpr(&self, ast: Expr) -> (r: Expr)
        requires
            ast.kind is Tuple,
            ast.spec_children_typed(),
        ensures
            r == (Expr {
                annotated_type: Some(AnnotatedTypeName {
                    ty: Box::new(TypeName::Tuple(crate::types::list_of(element_types(ast.kind->Tuple_0@)))),
                    privacy_annotation: None,
                    homomorphism: Homomorphism::NonHomomorphic,
                }),
                ..ast
            }),
            r.spec_typed(),
    {
        let mut types: Vec<AnnotatedTypeName> = Vec::new();
        match &ast.kind {
            ExprKind::Tuple(elems) => {
                let mut i: usize = 0;
                while i < elems.len()
                    invariant
                        i <= elems.len(),
                        types@ == element_types(elems@).subrange(0, i as int),
                        forall|j: int| 0 <= j < elems.len() ==> (#[trigger] elems@[j]).spec_typed(),
                    decreases elems.len() - i,
                {
                    let t = match &elems[i].annotated_type {
                        Some(a) => a.copy(),
                        None => AnnotatedTypeName::bool_all(),
                    };
                    proof {
                        assert(elems@[i as int].spec_typed());
                    }
                    types.push(t);
                    i = i + 1;
                    proof {
                        assert(types@ =~= element_types(elems@).subrange(0, i as int));
                    }
                }
                proof {
                    assert(types@ =~= element_types(elems@));
                }
            },
            _ => {},
        }
        let list = AnnotatedTypeList::from_vec(types);
        proof {
            crate::types::lemma_list_of_items(list);
        }
        Expr {
            annotated_type: Some(AnnotatedTypeName::new(TypeName::Tuple(list), None, Homomorphism::NonHomomorphic)),
            ..ast
        }
    }

    /// `me` is a public address.
    pub fn visitMeExpr(&self, ast: Expr) -> (r: Expr)
        ensures
            r == (Expr {
                annotated_type: Some(AnnotatedTypeName {
                    ty: Box::new(TypeName::Address),
                    privacy_annotation: Some(PrivacyLabel::All),
                    homomorphism: Homomorphism::NonHomomorphic,
                }),
                ..ast
            }),
    {
        Expr { annotated_type: Some(AnnotatedTypeName::address_all()), ..ast }
    }

    /// A `new` expression already has its type.
    pub fn visitNewExpr(&self, ast: Expr) -> (r: Expr)
        ensures
            r == ast,
    {
        ast
    }
}

} // verus!
