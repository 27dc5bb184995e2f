//! Type checking of calls of built-in operators: the argument signature,
//! constant folding of literal operands, private and homomorphic evaluation.
use vstd::prelude::*;
use crate::ast::{meets_param_type, meets_param_type_exec, BuiltinFunction, BuiltinOp, Callee, Expr, ExprKind, OutputKind};
use crate::type_checker::{rhs_fits, rhs_result, CompilerWarning, TypeCheckVisitor, TypeError, WarningKind};
use crate::types::{combined, AnnotatedTypeName, CombinedType, Homomorphism, PartitionState, PrivacyLabel, TypeName};

verus! {

/// The literal type that applying `op` to literal operands gives: `first` is
/// the type of the first operand, `a` and `b` the operands' values (`true` is
/// 1). `None` where the result overflows 64 bits or is undefined.
pub open spec fn literal_op_result(op: BuiltinOp, first: TypeName, a: i64, b: i64) -> Option<TypeName> {
    match op {
        BuiltinOp::Parenthesis => Some(first),
        BuiltinOp::Ite => None,
        BuiltinOp::Not => Some(TypeName::BooleanLiteral(a == 0)),
        BuiltinOp::Neg => number_result(0i64.checked_sub(a)),
        BuiltinOp::BitNot => Some(TypeName::NumberLiteral(!a)),
        BuiltinOp::Add => number_result(a.checked_add(b)),
        BuiltinOp::Sub => number_result(a.checked_sub(b)),
        BuiltinOp::Mul => number_result(a.checked_mul(b)),
        BuiltinOp::Div => number_result(a.checked_div(b)),
        BuiltinOp::Mod => number_result(a.checked_rem(b)),
        BuiltinOp::BitAnd => Some(TypeName::NumberLiteral(a & b)),
        BuiltinOp::BitOr => Some(TypeName::NumberLiteral(a | b)),
        BuiltinOp::BitXor => Some(TypeName::NumberLiteral(a ^ b)),
        BuiltinOp::Shl => if 0 <= b < 64 && a.wrapping_shl(b as u32).wrapping_shr(b as u32) == a {
            Some(TypeName::NumberLiteral(a.wrapping_shl(b as u32)))
        } else {
            None
        },
        BuiltinOp::Shr => if 0 <= b < 64 {
            Some(TypeName::NumberLiteral(a.wrapping_shr(b as u32)))
        } else {
            None
        },
        BuiltinOp::Eq => Some(TypeName::BooleanLiteral(a == b)),
        BuiltinOp::Ne => Some(TypeName::BooleanLiteral(a != b)),
        BuiltinOp::Lt => Some(TypeName::BooleanLiteral(a < b)),
        BuiltinOp::Gt => Some(TypeName::BooleanLiteral(a > b)),
        BuiltinOp::Le => Some(TypeName::BooleanLiteral(a <= b)),
        BuiltinOp::Ge => Some(TypeName::BooleanLiteral(a >= b)),
        BuiltinOp::And => Some(TypeName::BooleanLiteral(a != 0 && b != 0)),
        BuiltinOp::Or => Some(TypeName::BooleanLiteral(a != 0 || b != 0)),
    }
}

pub open spec fn number_result(v: Option<i64>) -> Option<TypeName> {
    match v {
        Some(x) => Some(TypeName::NumberLiteral(x)),
        None => None,
    }
}

fn number_result_exec(v: Option<i64>) -> (r: Option<TypeName>)
    ensures
        r == number_result(v),
{
    match v {
        Some(x) => Some(TypeName::NumberLiteral(x)),
        None => None,
    }
}

/// Folds `op` over literal operands (see `literal_op_result`).
pub fn eval_literal_op(op: BuiltinOp, first: &TypeName, a: i64, b: i64) -> (r: Option<TypeName>)
    ensures
        r == literal_op_result(op, *first, a, b),
{
    match op {
        BuiltinOp::Parenthesis => Some(first.copy()),
        BuiltinOp::Ite => None,
        BuiltinOp::Not => Some(TypeName::BooleanLiteral(a == 0)),
        BuiltinOp::Neg => number_result_exec(0i64.checked_sub(a)),
        BuiltinOp::BitNot => Some(TypeName::NumberLiteral(!a)),
        BuiltinOp::Add => number_result_exec(a.checked_add(b)),
        BuiltinOp::Sub => number_result_exec(a.checked_sub(b)),
        BuiltinOp::Mul => number_result_exec(a.checked_mul(b)),
        BuiltinOp::Div => number_result_exec(a.checked_div(b)),
        BuiltinOp::Mod => number_result_exec(a.checked_rem(b)),
        BuiltinOp::BitAnd => Some(TypeName::NumberLiteral(a & b)),
        BuiltinOp::BitOr => Some(TypeName::NumberLiteral(a | b)),
        BuiltinOp::BitXor => Some(TypeName::NumberLiteral(a ^ b)),
        BuiltinOp::Shl => if 0 <= b && b < 64 && a.wrapping_shl(b as u32).wrapping_shr(b as u32) == a {
            Some(TypeName::NumberLiteral(a.wrapping_shl(b as u32)))
        } else {
            None
        },
        BuiltinOp::Shr => if 0 <= b && b < 64 {
            Some(TypeName::NumberLiteral(a.wrapping_shr(b as u32)))
        } else {
            None
        },
        BuiltinOp::Eq => Some(TypeName::BooleanLiteral(a == b)),
        BuiltinOp::Ne => Some(TypeName::BooleanLiteral(a != b)),
        BuiltinOp::Lt => Some(TypeName::BooleanLiteral(a < b)),
        BuiltinOp::Gt => Some(TypeName::BooleanLiteral(a > b)),
        BuiltinOp::Le => Some(TypeName::BooleanLiteral(a <= b)),
        BuiltinOp::Ge => Some(TypeName::BooleanLiteral(a >= b)),
        BuiltinOp::And => Some(TypeName::BooleanLiteral(a != 0 && b != 0)),
        BuiltinOp::Or => Some(TypeName::BooleanLiteral(a != 0 || b != 0)),
    }
}

/// Folding literal operands computes the operator on their values: sums,
/// differences, products and negations that fit in 64 bits (nothing where
/// they do not), comparisons, and the connectives on values read as truth
/// values (nonzero is true); parentheses keep the operand's type.
pub proof fn law_literal_folding_computes(first: TypeName, a: i64, b: i64)
    ensures
        i64::MIN <= a + b <= i64::MAX ==> literal_op_result(BuiltinOp::Add, first, a, b) == Some(
            TypeName::NumberLiteral((a + b) as i64),
        ),
        !(i64::MIN <= a + b <= i64::MAX) ==> literal_op_result(BuiltinOp::Add, first, a, b) is None,
        i64::MIN <= a - b <= i64::MAX ==> literal_op_result(BuiltinOp::Sub, first, a, b) == Some(
            TypeName::NumberLiteral((a - b) as i64),
        ),
        !(i64::MIN <= a - b <= i64::MAX) ==> literal_op_result(BuiltinOp::Sub, first, a, b) is None,
        i64::MIN <= a * b <= i64::MAX ==> literal_op_result(BuiltinOp::Mul, first, a, b) == Some(
            TypeName::NumberLiteral((a * b) as i64),
        ),
        !(i64::MIN <= a * b <= i64::MAX) ==> literal_op_result(BuiltinOp::Mul, first, a, b) is None,
        a != i64::MIN ==> literal_op_result(BuiltinOp::Neg, first, a, b) == Some(TypeName::NumberLiteral((-a) as i64)),
        a == i64::MIN ==> literal_op_result(BuiltinOp::Neg, first, a, b) is None,
        b == 0 ==> literal_op_result(BuiltinOp::Div, first, a, b) is None,
        b == 0 ==> literal_op_result(BuiltinOp::Mod, first, a, b) is None,
        literal_op_result(BuiltinOp::Eq, first, a, b) == Some(TypeName::BooleanLiteral(a == b)),
        literal_op_result(BuiltinOp::Ne, first, a, b) == Some(TypeName::BooleanLiteral(a != b)),
        literal_op_result(BuiltinOp::Lt, first, a, b) == Some(TypeName::BooleanLiteral(a < b)),
        literal_op_result(BuiltinOp::Gt, first, a, b) == Some(TypeName::BooleanLiteral(a > b)),
        literal_op_result(BuiltinOp::Le, first, a, b) == Some(TypeName::BooleanLiteral(a <= b)),
        literal_op_result(BuiltinOp::Ge, first, a, b) == Some(TypeName::BooleanLiteral(a >= b)),
        literal_op_result(BuiltinOp::Not, first, a, b) == Some(TypeName::BooleanLiteral(a == 0)),
        literal_op_result(BuiltinOp::And, first, a, b) == Some(TypeName::BooleanLiteral(a != 0 && b != 0)),
        literal_op_result(BuiltinOp::Or, first, a, b) == Some(TypeName::BooleanLiteral(a != 0 || b != 0)),
        literal_op_result(BuiltinOp::Parenthesis, first, a, b) == Some(first),
{
}

/// Division and remainder of number literals truncate toward zero: the folded
/// quotient `q` and remainder `r` of `a` by `b` satisfy `q * b + r == a`, the
/// remainder is smaller than the divisor in absolute value, and it is zero or
/// has the sign of the dividend.
pub proof fn law_literal_division_truncates(first: TypeName, a: i64, b: i64)
    requires
        b != 0,
        !(a == i64::MIN && b == -1),
    ensures
        literal_op_result(BuiltinOp::Div, first, a, b) matches Some(TypeName::NumberLiteral(q))
            && literal_op_result(BuiltinOp::Mod, first, a, b) matches Some(TypeName::NumberLiteral(r))
            && q * b + r == a
            && (if r < 0 { -r } else { r as int }) < (if b < 0 { -b } else { b as int })
            && (r == 0 || (r < 0) == (a < 0)),
{
    let x = a as int;
    let d = b as int;
    let ax: int = if x < 0 { -x } else { x };
    let ad: int = if d < 0 { -d } else { d };
    vstd::arithmetic::div_mod::lemma_fundamental_div_mod(ax, ad);
    vstd::arithmetic::div_mod::lemma_mod_bound(ax, ad);
    vstd::arithmetic::div_mod::lemma_div_nonincreasing(ax, ad);
    vstd::arithmetic::div_mod::lemma_div_pos_is_pos(ax, ad);
    let qq = ax / ad;
    let mm = ax % ad;
    if ad > 1 && ax > 0 {
        vstd::arithmetic::div_mod::lemma_div_decreases(ax, ad);
    }
    let (qv, rv): (int, int) = if x == 0 {
        (0, 0)
    } else if x > 0 && d > 0 {
        (qq, mm)
    } else if x < 0 && d < 0 {
        (qq, -mm)
    } else if x < 0 {
        (-qq, -mm)
    } else {
        (-qq, mm)
    };
    if x == 0 {
        assert(ax == 0);
    } else if x > 0 && d > 0 {
        assert(x / d == qq && x % d == mm);
    } else if x < 0 && d < 0 {
        assert((x * -1) / (d * -1) == qq && (x * -1) % (d * -1) == mm);
        assert(qq <= 0x7fff_ffff_ffff_ffff);
    } else if x < 0 {
        assert((x * -1) / d == qq && (x * -1) % d == mm);
    } else {
        assert(x / (d * -1) == qq && x % (d * -1) == mm);
    }
    assert(qv * d + rv == x) by (nonlinear_arith)
        requires
            ax == ad * qq + mm,
            ax == (if x < 0 { -x } else { x }),
            ad == (if d < 0 { -d } else { d }),
            x == 0 ==> qv == 0 && rv == 0,
            x > 0 && d > 0 ==> qv == qq && rv == mm,
            x < 0 && d < 0 ==> qv == qq && rv == -mm,
            x < 0 && d > 0 ==> qv == -qq && rv == -mm,
            x > 0 && d < 0 ==> qv == -qq && rv == mm,
            d != 0;
    assert(literal_op_result(BuiltinOp::Div, first, a, b) == Some(TypeName::NumberLiteral(qv as i64)));
    assert(literal_op_result(BuiltinOp::Mod, first, a, b) == Some(TypeName::NumberLiteral(rv as i64)));
    assert((qv as i64) as int == qv && (rv as i64) as int == rv);
}

/// The argument types meet the operator's signature (comparisons for
/// equality take any types).
pub open spec fn args_meet_signature(op: BuiltinOp, args: Seq<Expr>) -> bool {
    op.spec_is_eq() || forall|i: int|
        0 <= i < args.len() ==> meets_param_type(*(#[trigger] args[i]).ty().ty, op.spec_input_type(i))
}

pub open spec fn some_private_arg(args: Seq<Expr>) -> bool {
    exists|i: int| 0 <= i < args.len() && (#[trigger] args[i]).ty().spec_is_private()
}

pub open spec fn some_256_bit_arg(args: Seq<Expr>) -> bool {
    exists|i: int| 0 <= i < args.len() && (#[trigger] args[i]).ty().ty.spec_elem_bitwidth() == 256
}

/// The type of the operands of a call with one or two operands: `Lit` for a
/// literal operand or two literals, else the combined type.
pub open spec fn unhom_arg_type(op: BuiltinOp, args: Seq<Expr>) -> Option<CombinedType> {
    if args.len() == 1 {
        if args[0].ty().ty.spec_is_literal() {
            Some(CombinedType::Lit)
        } else {
            Some(CombinedType::Type(*args[0].ty().ty))
        }
    } else {
        combined(*args[0].ty().ty, *args[1].ty().ty, op.spec_is_eq() && *args[0].ty().ty is Tuple)
    }
}

/// The folded literal of a call with literal operands.
pub open spec fn folded_literal(op: BuiltinOp, args: Seq<Expr>) -> Option<TypeName> {
    literal_op_result(
        op,
        *args[0].ty().ty,
        args[0].ty().ty.spec_value(),
        if args.len() > 1 { args[1].ty().ty.spec_value() } else { 0 },
    )
}

/// The checks on private operands: where an operand is private, the
/// operation must support private operands, shift by a non-negative literal,
/// and (bitwise and shift operations) have no 256-bit operand.
pub open spec fn private_plan(op: BuiltinOp, args: Seq<Expr>, arg_t: CombinedType, out: TypeName) -> Result<
    (CombinedType, TypeName, bool),
    TypeError,
> {
    if !some_private_arg(args) {
        Ok((arg_t, out, false))
    } else if arg_t is Lit {
        Err(TypeError::CannotBePrivate)
    } else if !op.spec_can_be_private() {
        Err(TypeError::NoPrivateOperands(op))
    } else if op.spec_is_shiftop() && !args[1].ty().ty.spec_is_literal() {
        Err(TypeError::PrivateShiftNotLiteral)
    } else if op.spec_is_shiftop() && args[1].ty().ty.spec_value() < 0 {
        Err(TypeError::NegativeShift)
    } else if (op.spec_is_bitop() || op.spec_is_shiftop()) && some_256_bit_arg(args) {
        Err(TypeError::PrivateBitwiseOn256Bit)
    } else {
        Ok((arg_t, out, true))
    }
}

/// What the checks of a non-homomorphic call of `op` (not `Ite`) decide before
/// the operands are converted: the operand type, the result type name, and
/// whether the call is evaluated privately; or the error.
pub open spec fn unhom_plan(op: BuiltinOp, args: Seq<Expr>) -> Result<(CombinedType, TypeName, bool), TypeError> {
    if !args_meet_signature(op, args) {
        Err(TypeError::BuiltinArgumentType)
    } else {
        match unhom_arg_type(op, args) {
            None => Err(TypeError::IncompatibleTypes),
            Some(CombinedType::Lit) => match folded_literal(op, args) {
                None => Err(TypeError::LiteralOperation),
                Some(out) => if op.spec_is_eq() {
                    match combined(
                        args[0].ty().ty.spec_to_abstract_type(),
                        args[1].ty().ty.spec_to_abstract_type(),
                        true,
                    ) {
                        Some(CombinedType::Type(t)) => private_plan(op, args, CombinedType::Type(t), out),
                        _ => Err(TypeError::IncompatibleTypes),
                    }
                } else {
                    private_plan(op, args, CombinedType::Lit, out)
                },
            },
            Some(CombinedType::Type(t)) => private_plan(
                op,
                args,
                CombinedType::Type(t),
                if op.spec_output_kind() == OutputKind::Bool { TypeName::Bool } else { t },
            ),
        }
    }
}

/// The warnings that a private call issues: 256-bit arithmetic may overflow
/// at the field prime, 256-bit comparisons may fail.
pub open spec fn unhom_warnings(op: BuiltinOp, args: Seq<Expr>, private: bool) -> Seq<CompilerWarning> {
    if private && op.spec_is_arithmetic() && some_256_bit_arg(args) {
        seq![CompilerWarning { kind: WarningKind::PossibleFieldPrimeOverflow, op }]
    } else if private && op.spec_is_comp() && some_256_bit_arg(args) {
        seq![CompilerWarning { kind: WarningKind::PossiblePrivateComparisonFailure, op }]
    } else {
        seq![]
    }
}

/// The annotated type of a non-homomorphic call: private at `me` or public.
pub open spec fn unhom_result_type(out: TypeName, private: bool) -> AnnotatedTypeName {
    AnnotatedTypeName {
        ty: Box::new(out),
        privacy_annotation: Some(if private { PrivacyLabel::Me } else { PrivacyLabel::All }),
        homomorphism: Homomorphism::NonHomomorphic,
    }
}

/// `x` is the call `ast` of a built-in, with new arguments `new_args`, type
/// `t`, and the given privacy and homomorphism of its evaluation.
pub open spec fn rebuilt_call(
    x: Expr,
    ast: Expr,
    new_args: Seq<Expr>,
    t: AnnotatedTypeName,
    private: bool,
    hom: Homomorphism,
) -> bool {
    let b = ast.kind->FunctionCall_func->Builtin_0;
    &&& x.id == ast.id
    &&& x.parent == ast.parent
    &&& x.statement == ast.statement
    &&& x.line == ast.line
    &&& x.column == ast.column
    &&& x.annotated_type == Some(t)
    &&& x.kind matches ExprKind::FunctionCall { func: Callee::Builtin(b2), args: a2 }
    &&& x.kind->FunctionCall_func->Builtin_0.op == b.op
    &&& x.kind->FunctionCall_func->Builtin_0.is_private == private
    &&& x.kind->FunctionCall_func->Builtin_0.homomorphism == hom
    &&& x.kind->FunctionCall_args@ == new_args
    &&& x.spec_typed()
    &&& x.spec_well_formed()
}

/// The operands after conversion to `t`: those with index in `lo..hi`
/// fitted to `t` by `get_rhs` (see `rhs_result`), the others unchanged.
pub open spec fn converted_args(
    old: Seq<Expr>,
    new: Seq<Expr>,
    t: AnnotatedTypeName,
    lo: int,
    hi: int,
    analysis: Option<&PartitionState>,
) -> bool {
    &&& new.len() == old.len()
    &&& forall|i: int| 0 <= i < new.len() ==> (#[trigger] new[i]).spec_typed() && new[i].spec_well_formed()
    &&& forall|i: int| 0 <= i < new.len() && lo <= i < hi ==> rhs_result(old[i], t, analysis, #[trigger] new[i])
    &&& forall|i: int| 0 <= i < new.len() && !(lo <= i < hi) ==> #[trigger] new[i] == old[i]
}

/// The type of a call of `Ite`: the combined type of the branches, private at
/// `me` for a private condition, else with the combined homomorphism and
/// privacy of the branches.
pub open spec fn ite_type(args: Seq<Expr>, analysis: Option<&PartitionState>) -> Result<AnnotatedTypeName, TypeError> {
    if !crate::types::convertible(*args[0].ty().ty, TypeName::Bool) {
        Err(TypeError::BuiltinArgumentType)
    } else {
        match combined(*args[1].ty().ty, *args[2].ty().ty, true) {
            Some(CombinedType::Type(t)) => if args[0].ty().spec_is_private() {
                Ok(AnnotatedTypeName { ty: Box::new(t), privacy_annotation: Some(PrivacyLabel::Me), homomorphism: Homomorphism::NonHomomorphic })
            } else {
                let hom = crate::type_checker::combined_homomorphism(args[1], args[2], analysis);
                let p = crate::types::combined_privacy(
                    args[1].ty().spec_with_homomorphism(hom),
                    analysis,
                    args[2].ty().spec_with_homomorphism(hom),
                );
                Ok(AnnotatedTypeName {
                    ty: Box::new(t),
                    privacy_annotation: Some(if p is Some { p.unwrap() } else { PrivacyLabel::All }),
                    homomorphism: hom,
                })
            },
            _ => Err(TypeError::IncompatibleTypes),
        }
    }
}

/// Every operand is typed and well-formed.
pub open spec fn all_typed(args: Seq<Expr>) -> bool {
    forall|i: int| 0 <= i < args.len() ==> (#[trigger] args[i]).spec_typed() && args[i].spec_well_formed()
}

/// The type name of a typed expression.
pub fn type_name_of(e: &Expr) -> (r: TypeName)
    requires
        e.annotated_type is Some,
    ensures
        r == *e.ty().ty,
{
    match &e.annotated_type {
        Some(a) => a.ty.copy(),
        None => TypeName::Bool,
    }
}

fn args_meet_signature_exec(op: BuiltinOp, args: &Vec<Expr>) -> (r: bool)
    requires
        all_typed(args@),
    ensures
        r == args_meet_signature(op, args@),
{
    if op.is_eq() {
        return true;
    }
    let mut i: usize = 0;
    while i < args.len()
        invariant
            i <= args.len(),
            all_typed(args@),
            forall|j: int| 0 <= j < i ==> meets_param_type(*(#[trigger] args@[j]).ty().ty, op.spec_input_type(j)),
        decreases args.len() - i,
    {
        proof {
            assert(args@[i as int].spec_typed());
        }
        let t = type_name_of(&args[i]);
        if !meets_param_type_exec(&t, op.input_type(i)) {
            return false;
        }
        i = i + 1;
    }
    true
}

fn some_private_arg_exec(args: &Vec<Expr>) -> (r: bool)
    requires
        all_typed(args@),
    ensures
        r == some_private_arg(args@),
{
    let mut i: usize = 0;
    while i < args.len()
        invariant
            i <= args.len(),
            all_typed(args@),
            forall|j: int| 0 <= j < i ==> !(#[trigger] args@[j]).ty().spec_is_private(),
        decreases args.len() - i,
    {
        proof {
            assert(args@[i as int].spec_typed());
        }
        if TypeCheckVisitor::has_private_type(&args[i]) {
            return true;
        }
        i = i + 1;
    }
    false
}

fn some_256_bit_arg_exec(args: &Vec<Expr>) -> (r: bool)
    requires
        all_typed(args@),
    ensures
        r == some_256_bit_arg(args@),
{
    let mut i: usize = 0;
    while i < args.len()
        invariant
            i <= args.len(),
            all_typed(args@),
            forall|j: int| 0 <= j < i ==> (#[trigger] args@[j]).ty().ty.spec_elem_bitwidth() != 256,
        decreases args.len() - i,
    {
        proof {
            assert(args@[i as int].spec_typed());
        }
        if type_name_of(&args[i]).elem_bitwidth() == 256 {
            return true;
        }
        i = i + 1;
    }
    false
}

fn private_plan_exec(op: BuiltinOp, args: &Vec<Expr>, arg_t: CombinedType, out: TypeName) -> (r: Result<
    (CombinedType, TypeName, bool),
    TypeError,
>)
    requires
        all_typed(args@),
        args.len() == op.spec_arity(),
    ensures
        r == private_plan(op, args@, arg_t, out),
{
    if !some_private_arg_exec(args) {
        return Ok((arg_t, out, false));
    }
    if let CombinedType::Lit = arg_t {
        return Err(TypeError::CannotBePrivate);
    }
    if !op.can_be_private() {
        return Err(TypeError::NoPrivateOperands(op));
    }
    if op.is_shiftop() {
        proof {
            assert(args@[1].spec_typed());
        }
        let amount = type_name_of(&args[1]);
        if !amount.is_literal() {
            return Err(TypeError::PrivateShiftNotLiteral);
        }
        if amount.value() < 0 {
            return Err(TypeError::NegativeShift);
        }
    }
    if (op.is_bitop() || op.is_shiftop()) && some_256_bit_arg_exec(args) {
        return Err(TypeError::PrivateBitwiseOn256Bit);
    }
    Ok((arg_t, out, true))
}

fn unhom_plan_exec(op: BuiltinOp, args: &Vec<Expr>) -> (r: Result<(CombinedType, TypeName, bool), TypeError>)
    requires
        all_typed(args@),
        args.len() == op.spec_arity(),
        op != BuiltinOp::Ite,
    ensures
        r == unhom_plan(op, args@),
{
    if !args_meet_signature_exec(op, args) {
        return Err(TypeError::BuiltinArgumentType);
    }
    proof {
        assert(args@[0].spec_typed());
        if args.len() > 1 {
            assert(args@[1].spec_typed());
        }
    }
    let t1 = type_name_of(&args[0]);
    let arg_t = if args.len() == 1 {
        if t1.is_literal() {
            Some(CombinedType::Lit)
        } else {
            Some(CombinedType::Type(t1.copy()))
        }
    } else {
        let t2 = type_name_of(&args[1]);
        let tuples = match &t1 {
            TypeName::Tuple(_) => true,
            _ => false,
        };
        t1.combined_type(&t2, op.is_eq() && tuples)
    };
    match arg_t {
        None => Err(TypeError::IncompatibleTypes),
        Some(CombinedType::Lit) => {
            let b = if args.len() > 1 { type_name_of(&args[1]).value() } else { 0 };
            match eval_literal_op(op, &t1, t1.value(), b) {
                None => Err(TypeError::LiteralOperation),
                Some(out) => if op.is_eq() {
                    let t2 = type_name_of(&args[1]);
                    match t1.to_abstract_type().combined_type(&t2.to_abstract_type(), true) {
                        Some(CombinedType::Type(t)) => private_plan_exec(op, args, CombinedType::Type(t), out),
                        _ => Err(TypeError::IncompatibleTypes),
                    }
                } else {
                    private_plan_exec(op, args, CombinedType::Lit, out)
                },
            }
        },
        Some(CombinedType::Type(t)) => {
            let out = if op.output_kind() == OutputKind::Bool { TypeName::Bool } else { t.copy() };
            private_plan_exec(op, args, CombinedType::Type(t), out)
        },
    }
}

impl TypeCheckVisitor {
    /// Converts the operands with index in `lo..hi` to `t` (see `get_rhs`).
    fn convert_args(
        &mut self,
        args: Vec<Expr>,
        t: &AnnotatedTypeName,
        lo: usize,
        hi: usize,
        analysis: Option<&PartitionState>,
    ) -> (r: Result<Vec<Expr>, TypeError>)
        requires
            lo <= hi <= args.len(),
            all_typed(args@),
        ensures
            final(self).warnings == old(self).warnings,
            r is Ok <==> forall|i: int| lo <= i < hi ==> rhs_fits(#[trigger] args@[i], *t, analysis),
            r matches Ok(v) ==> converted_args(args@, v@, *t, lo as int, hi as int, analysis),
    {
        let ghost old_args = args@;
        let mut rest = args;
        let mut out: Vec<Expr> = Vec::new();
        while rest.len() > 0
            invariant
                out.len() + rest.len() == old_args.len(),
                lo <= hi <= old_args.len(),
                rest@ == old_args.subrange(out.len() as int, old_args.len() as int),
                all_typed(old_args),
                forall|i: int| 0 <= i < out.len() ==> (#[trigger] out@[i]).spec_typed() && out@[i].spec_well_formed(),
                forall|i: int| 0 <= i < out.len() && lo <= i < hi ==> rhs_result(old_args[i], *t, analysis, #[trigger] out@[i]),
                forall|i: int| 0 <= i < out.len() && !(lo <= i < hi) ==> #[trigger] out@[i] == old_args[i],
                forall|i: int| lo <= i < out.len() && i < hi ==> rhs_fits(#[trigger] old_args[i], *t, analysis),
                old_args == args@,
                self.warnings == old(self).warnings,
            decreases rest.len(),
        {
            let k = rest.remove(0);
            let i = out.len();
            proof {
                assert(k == old_args[i as int]);
                assert(k.spec_typed() && k.spec_well_formed());
            }
            if lo <= i && i < hi {
                let nk = match self.get_rhs(k, t, analysis) {
                    Ok(x) => x,
                    Err(e) => {
                        proof {
                            assert(!rhs_fits(old_args[i as int], *t, analysis));
                        }
                        return Err(e);
                    },
                };
                out.push(nk);
            } else {
                out.push(k);
            }
        }
        Ok(out)
    }
}

/// The operator of a call of a built-in.
pub open spec fn call_op(ast: Expr) -> BuiltinOp {
    ast.kind->FunctionCall_func->Builtin_0.op
}

/// The operands of a call.
pub open spec fn call_args(ast: Expr) -> Seq<Expr> {
    ast.kind->FunctionCall_args@
}

/// A well-formed call of a built-in operator with typed operands.
pub open spec fn is_builtin_call(ast: Expr) -> bool {
    &&& ast.kind matches ExprKind::FunctionCall { func: Callee::Builtin(_), .. }
    &&& all_typed(call_args(ast))
    &&& ast.spec_well_formed()
}

/// The call is handled without homomorphic encryption: all operands are
/// accessible, or it is an `Ite` with a public condition.
pub open spec fn unhom_selected(ast: Expr, analysis: Option<&PartitionState>) -> bool {
    ||| forall|i: int| 0 <= i < call_args(ast).len() ==> (#[trigger] call_args(ast)[i]).ty().spec_is_accessible(analysis)
    ||| call_op(ast) == BuiltinOp::Ite && call_args(ast)[0].ty().spec_is_public()
}

/// What `handle_unhom_builtin_function_call` gives for `ast`: the result `r`
/// and the warnings `after` that follow the warnings `before`.
pub open spec fn unhom_call_result(
    ast: Expr,
    analysis: Option<&PartitionState>,
    r: Result<Expr, TypeError>,
    before: Seq<CompilerWarning>,
    after: Seq<CompilerWarning>,
) -> bool {
    let b = ast.kind->FunctionCall_func->Builtin_0;
    &&& call_op(ast) == BuiltinOp::Ite ==> {
        &&& after == before
        &&& match ite_type(call_args(ast), analysis) {
            Err(e) => r == Err::<Expr, TypeError>(e),
            Ok(t) => {
                &&& (r is Ok <==> forall|i: int| 1 <= i < 3 ==> rhs_fits(#[trigger] call_args(ast)[i], t, analysis))
                &&& r matches Ok(x) ==> {
                    &&& rebuilt_call(x, ast, call_args(x), t, b.is_private || call_args(ast)[0].ty().spec_is_private(), b.homomorphism)
                    &&& converted_args(call_args(ast), call_args(x), t, 1, 3, analysis)
                }
            },
        }
    }
    &&& call_op(ast) != BuiltinOp::Ite ==> match unhom_plan(call_op(ast), call_args(ast)) {
        Err(e) => r == Err::<Expr, TypeError>(e) && after == before,
        Ok((arg_t, out, private)) => {
            &&& after == before + unhom_warnings(call_op(ast), call_args(ast), private)
            &&& arg_t is Lit ==> r is Ok
            &&& r matches Ok(x) ==> rebuilt_call(x, ast, call_args(x), unhom_result_type(out, private), b.is_private || private, b.homomorphism)
            &&& arg_t is Lit ==> (r matches Ok(x) ==> call_args(x) == call_args(ast))
            &&& arg_t is Type ==> (r is Ok <==> forall|i: int|
                0 <= i < (if private && call_op(ast).spec_is_shiftop() { 1 } else { call_args(ast).len() as int }) ==> rhs_fits(
                    #[trigger] call_args(ast)[i],
                    unhom_result_type(arg_t->Type_0, private),
                    analysis,
                ))
            &&& arg_t is Type ==> (r matches Ok(x) ==> converted_args(
                call_args(ast),
                call_args(x),
                unhom_result_type(arg_t->Type_0, private),
                0,
                if private && call_op(ast).spec_is_shiftop() { 1 } else { call_args(ast).len() as int },
                analysis,
            ))
        },
    }
}

impl TypeCheckVisitor {
    /// Type-checks a call of a built-in whose operands are all accessible (or
    /// an `Ite` with a public condition): checks the signature, folds literal
    /// operands, makes the call private where an operand is private, converts
    /// the operands to the operand type and gives the call its type.
    pub fn handle_unhom_builtin_function_call(&mut self, ast: Expr, analysis: Option<&PartitionState>) -> (r: Result<
        Expr,
        TypeError,
    >)
        requires
            is_builtin_call(ast),
        ensures
            unhom_call_result(ast, analysis, r, old(self).warnings@, final(self).warnings@),
    {
        let ghost g = ast;
        let Expr { id, kind, annotated_type: _, evaluate_privately, line, column, parent, statement, namespace } = ast;
        let (b, args) = match kind {
            ExprKind::FunctionCall { func: Callee::Builtin(b), args } => (b, args),
            _ => {
                return Err(TypeError::NotAFunction);
            },
        };
        proof {
            assert(all_typed(args@));
        }
        let op = b.op;
        if op == BuiltinOp::Ite {
            proof {
                assert(args@[0].spec_typed());
                assert(args@[1].spec_typed());
                assert(args@[2].spec_typed());
            }
            let cond_t = type_name_of(&args[0]);
            if !cond_t.implicitly_convertible_to(&TypeName::Bool) {
                return Err(TypeError::BuiltinArgumentType);
            }
            let t1 = type_name_of(&args[1]);
            let t2 = type_name_of(&args[2]);
            let res_t = match t1.combined_type(&t2, true) {
                Some(CombinedType::Type(t)) => t,
                _ => {
                    return Err(TypeError::IncompatibleTypes);
                },
            };
            let cond_private = Self::has_private_type(&args[0]);
            let a = if cond_private {
                AnnotatedTypeName::new(res_t, Some(PrivacyLabel::Me), Homomorphism::NonHomomorphic)
            } else {
                let hom = Self::combine_homomorphism(&args[1], &args[2], analysis);
                let (true_type, false_type) = match (&args[1].annotated_type, &args[2].annotated_type) {
                    (Some(x), Some(y)) => (x.with_homomorphism(hom), y.with_homomorphism(hom)),
                    _ => (AnnotatedTypeName::bool_all(), AnnotatedTypeName::bool_all()),
                };
                let p = crate::types::combined_privacy_exec(&true_type, analysis, &false_type);
                let label = match p {
                    Some(l) => l,
                    None => PrivacyLabel::All,
                };
                AnnotatedTypeName::new(res_t, Some(label), hom)
            };
            let new_args = self.convert_args(args, &a, 1, 3, analysis)?;
            let f = BuiltinFunction { op, is_private: b.is_private || cond_private, homomorphism: b.homomorphism };
            let r = Expr {
                id,
                kind: ExprKind::FunctionCall { func: Callee::Builtin(f), args: new_args },
                annotated_type: Some(a),
                evaluate_privately,
                line,
                column,
                parent,
                statement,
                namespace,
            };
            return Ok(r);
        }
        let (arg_t, out, private) = unhom_plan_exec(op, &args)?;
        if private {
            let wide = some_256_bit_arg_exec(&args);
            if op.is_arithmetic() && wide {
                self.warnings.push(CompilerWarning { kind: WarningKind::PossibleFieldPrimeOverflow, op });
            } else if op.is_comp() && wide {
                self.warnings.push(CompilerWarning { kind: WarningKind::PossiblePrivateComparisonFailure, op });
            }
        }
        proof {
            assert(self.warnings@ =~= old(self).warnings@ + unhom_warnings(op, args@, private));
        }
        let label = if private { PrivacyLabel::Me } else { PrivacyLabel::All };
        let new_args = match arg_t {
            CombinedType::Lit => args,
            CombinedType::Type(t) => {
                let arg_pt = AnnotatedTypeName::new(t, Some(label), Homomorphism::NonHomomorphic);
                let n = args.len();
                let hi = if private && op.is_shiftop() { 1 } else { n };
                self.convert_args(args, &arg_pt, 0, hi, analysis)?
            },
        };
        let f = BuiltinFunction { op, is_private: b.is_private || private, homomorphism: b.homomorphism };
        let r = Expr {
            id,
            kind: ExprKind::FunctionCall { func: Callee::Builtin(f), args: new_args },
            annotated_type: Some(AnnotatedTypeName::new(out, Some(label), Homomorphism::NonHomomorphic)),
            evaluate_privately,
            line,
            column,
            parent,
            statement,
            namespace,
        };
        Ok(r)
    }
}

/// Whether an additively homomorphic version of `op` exists for operands of
/// which those marked in `public` are public: negation of a ciphertext,
/// sums and differences with a ciphertext, products of a ciphertext and a
/// public factor.
pub open spec fn additive_overload(op: BuiltinOp, public: Seq<bool>) -> bool {
    match op {
        BuiltinOp::Neg => public.len() == 1 && !public[0],
        BuiltinOp::Add | BuiltinOp::Sub => public.len() == 2 && !(public[0] && public[1]),
        BuiltinOp::Mul => public.len() == 2 && public[0] != public[1],
        _ => false,
    }
}

/// Which operands are public.
pub open spec fn public_args(args: Seq<Expr>) -> Seq<bool> {
    Seq::new(args.len(), |i: int| args[i].ty().spec_is_public())
}

/// The label of the first operand that is not accessible.
pub open spec fn first_inaccessible_label(args: Seq<Expr>, analysis: Option<&PartitionState>) -> Option<PrivacyLabel> {
    if !args[0].ty().spec_is_accessible(analysis) {
        args[0].ty().privacy_annotation
    } else {
        args[1].ty().privacy_annotation
    }
}

/// The type of a homomorphic call of `op` (one or two operands, some of them
/// inaccessible): the combined operand type, labelled as the first
/// inaccessible operand, additively homomorphic; or the error.
pub open spec fn homomorphic_plan(op: BuiltinOp, args: Seq<Expr>, analysis: Option<&PartitionState>) -> Result<
    AnnotatedTypeName,
    TypeError,
> {
    if !args_meet_signature(op, args) {
        Err(TypeError::BuiltinArgumentType)
    } else if !additive_overload(op, public_args(args)) || (forall|i: int|
        0 <= i < args.len() ==> (#[trigger] args[i]).ty().spec_is_accessible(analysis)) {
        Err(TypeError::HomomorphicArgsNotAccessible(op))
    } else {
        let elem = if args.len() == 1 {
            Some(CombinedType::Type(*args[0].ty().ty))
        } else {
            combined(*args[0].ty().ty, *args[1].ty().ty, true)
        };
        match elem {
            Some(CombinedType::Type(t)) => Ok(
                AnnotatedTypeName {
                    ty: Box::new(t),
                    privacy_annotation: first_inaccessible_label(args, analysis),
                    homomorphism: Homomorphism::Additive,
                },
            ),
            _ => Err(TypeError::IncompatibleTypes),
        }
    }
}

/// What `handle_homomorphic_builtin_function_call` gives for `ast`.
pub open spec fn hom_call_result(ast: Expr, analysis: Option<&PartitionState>, r: Result<Expr, TypeError>) -> bool {
    match homomorphic_plan(call_op(ast), call_args(ast), analysis) {
        Err(e) => r == Err::<Expr, TypeError>(e),
        Ok(t) => {
            &&& (r is Ok <==> forall|i: int|
                0 <= i < call_args(ast).len() ==> rhs_fits(#[trigger] call_args(ast)[i], hom_arg_type(call_args(ast)[i], t), analysis))
            &&& r matches Ok(x) ==> {
                &&& rebuilt_call(x, ast, call_args(x), t, true, t.homomorphism)
                &&& call_args(x).len() == call_args(ast).len()
                &&& forall|i: int|
                    0 <= i < call_args(x).len() ==> rhs_result(
                        call_args(ast)[i],
                        hom_arg_type(call_args(ast)[i], t),
                        analysis,
                        #[trigger] call_args(x)[i],
                    )
            }
        },
    }
}

/// The type an operand of a homomorphic call is converted to: the public
/// version of the call's type for a public operand, else the call's type.
pub open spec fn hom_arg_type(a: Expr, t: AnnotatedTypeName) -> AnnotatedTypeName {
    if a.ty().spec_is_public() {
        AnnotatedTypeName { ty: t.ty, privacy_annotation: Some(PrivacyLabel::All), homomorphism: Homomorphism::NonHomomorphic }
    } else {
        t
    }
}

fn homomorphic_plan_exec(op: BuiltinOp, args: &Vec<Expr>, analysis: Option<&PartitionState>) -> (r: Result<
    AnnotatedTypeName,
    TypeError,
>)
    requires
        all_typed(args@),
        args.len() == op.spec_arity(),
    ensures
        r == homomorphic_plan(op, args@, analysis),
{
    if !args_meet_signature_exec(op, args) {
        return Err(TypeError::BuiltinArgumentType);
    }
    let mut public: Vec<bool> = Vec::new();
    let mut any_inaccessible = false;
    let mut i: usize = 0;
    while i < args.len()
        invariant
            i <= args.len(),
            all_typed(args@),
            public@ == public_args(args@).subrange(0, i as int),
            any_inaccessible == (exists|j: int| 0 <= j < i && !(#[trigger] args@[j]).ty().spec_is_accessible(analysis)),
        decreases args.len() - i,
    {
        proof {
            assert(args@[i as int].spec_typed());
        }
        let (p, acc) = match &args[i].annotated_type {
            Some(a) => (a.is_public(), a.is_accessible(analysis)),
            None => (false, false),
        };
        public.push(p);
        if !acc {
            any_inaccessible = true;
        }
        i = i + 1;
        proof {
            assert(public@ =~= public_args(args@).subrange(0, i as int));
        }
    }
    proof {
        assert(public@ =~= public_args(args@));
    }
    let overload = match op {
        BuiltinOp::Neg => public.len() == 1 && !public[0],
        BuiltinOp::Add | BuiltinOp::Sub => public.len() == 2 && !(public[0] && public[1]),
        BuiltinOp::Mul => public.len() == 2 && public[0] != public[1],
        _ => false,
    };
    if !overload || !any_inaccessible {
        return Err(TypeError::HomomorphicArgsNotAccessible(op));
    }
    proof {
        assert(args@[0].spec_typed());
        if args.len() > 1 {
            assert(args@[1].spec_typed());
        }
    }
    let t1 = type_name_of(&args[0]);
    let elem = if args.len() == 1 {
        Some(CombinedType::Type(t1))
    } else {
        t1.combined_type(&type_name_of(&args[1]), true)
    };
    let first_accessible = match &args[0].annotated_type {
        Some(a) => a.is_accessible(analysis),
        None => false,
    };
    let label = if !first_accessible || args.len() < 2 {
        match &args[0].annotated_type {
            Some(a) => a.privacy_annotation,
            None => None,
        }
    } else {
        match &args[1].annotated_type {
            Some(b) => b.privacy_annotation,
            None => None,
        }
    };
    match elem {
        Some(CombinedType::Type(t)) => Ok(AnnotatedTypeName::new(t, label, Homomorphism::Additive)),
        _ => Err(TypeError::IncompatibleTypes),
    }
}

impl TypeCheckVisitor {
    /// Type-checks a call of a built-in with an inaccessible operand: the call
    /// becomes an additively homomorphic operation on ciphertexts, its public
    /// operands are converted to public values and the others to its type.
    pub fn handle_homomorphic_builtin_function_call(&mut self, ast: Expr, analysis: Option<&PartitionState>) -> (r: Result<
        Expr,
        TypeError,
    >)
        requires
            is_builtin_call(ast),
        ensures
            final(self).warnings == old(self).warnings,
            hom_call_result(ast, analysis, r),
    {
        let ghost g = ast;
        let Expr { id, kind, annotated_type: _, evaluate_privately, line, column, parent, statement, namespace } = ast;
        let (b, args) = match kind {
            ExprKind::FunctionCall { func: Callee::Builtin(b), args } => (b, args),
            _ => {
                return Err(TypeError::NotAFunction);
            },
        };
        proof {
            assert(all_typed(args@));
        }
        let op = b.op;
        let target = homomorphic_plan_exec(op, &args, analysis)?;
        let ghost plan = homomorphic_plan(op, args@, analysis);
        let ghost old_args = args@;
        let mut rest = args;
        let mut out: Vec<Expr> = Vec::new();
        let public_type = AnnotatedTypeName::new(target.ty.copy(), Some(PrivacyLabel::All), Homomorphism::NonHomomorphic);
        while rest.len() > 0
            invariant
                out.len() + rest.len() == old_args.len(),
                rest@ == old_args.subrange(out.len() as int, old_args.len() as int),
                all_typed(old_args),
                *public_type.ty == *target.ty,
                plan == Ok::<AnnotatedTypeName, TypeError>(target),
                plan == homomorphic_plan(call_op(g), call_args(g), analysis),
                g == ast,
                forall|i: int| 0 <= i < out.len() ==> (#[trigger] out@[i]).spec_typed() && out@[i].spec_well_formed(),
                forall|i: int| 0 <= i < out.len() ==> rhs_result(old_args[i], hom_arg_type(old_args[i], target), analysis, #[trigger] out@[i]),
                forall|i: int| 0 <= i < out.len() ==> rhs_fits(#[trigger] old_args[i], hom_arg_type(old_args[i], target), analysis),
                call_args(g) == old_args,
                public_type == (AnnotatedTypeName {
                    ty: target.ty,
                    privacy_annotation: Some(PrivacyLabel::All),
                    homomorphism: Homomorphism::NonHomomorphic,
                }),
                self.warnings == old(self).warnings,
            decreases rest.len(),
        {
            let k = rest.remove(0);
            let i = out.len();
            proof {
                assert(k == old_args[i as int]);
                assert(k.spec_typed() && k.spec_well_formed());
            }
            let is_public = Self::is_public_expr(&k);
            let res = if is_public {
                self.get_rhs(k, &public_type, analysis)
            } else {
                self.get_rhs(k, &target, analysis)
            };
            let nk = match res {
                Ok(x) => x,
                Err(e) => {
                    proof {
                        assert(!rhs_fits(old_args[i as int], hom_arg_type(old_args[i as int], target), analysis));
                        assert(call_args(g)[i as int] == old_args[i as int]);
                    }
                    return Err(e);
                },
            };
            out.push(nk);
        }
        let f = BuiltinFunction { op, is_private: true, homomorphism: target.homomorphism };
        let r = Expr {
            id,
            kind: ExprKind::FunctionCall { func: Callee::Builtin(f), args: out },
            annotated_type: Some(target),
            evaluate_privately,
            line,
            column,
            parent,
            statement,
            namespace,
        };
        Ok(r)
    }

    fn is_public_expr(e: &Expr) -> (r: bool)
        ensures
            e.annotated_type is Some ==> r == e.ty().spec_is_public(),
    {
        match &e.annotated_type {
            Some(a) => a.is_public(),
            None => false,
        }
    }
}

/// What `handle_builtin_function_call` gives for `ast`.
pub open spec fn builtin_call_result(
    ast: Expr,
    analysis: Option<&PartitionState>,
    r: Result<Expr, TypeError>,
    before: Seq<CompilerWarning>,
    after: Seq<CompilerWarning>,
) -> bool {
    &&& call_op(ast) == BuiltinOp::Parenthesis ==> r == Ok::<Expr, TypeError>(
        Expr { annotated_type: call_args(ast)[0].annotated_type, ..ast },
    ) && after == before
    &&& call_op(ast) != BuiltinOp::Parenthesis && unhom_selected(ast, analysis) ==> unhom_call_result(ast, analysis, r, before, after)
    &&& call_op(ast) != BuiltinOp::Parenthesis && !unhom_selected(ast, analysis) ==> hom_call_result(ast, analysis, r)
        && after == before
}

impl TypeCheckVisitor {
    /// Type-checks a call of a built-in: a parenthesis takes the type of its
    /// operand; other calls are handled without homomorphic encryption where
    /// `unhom_selected` holds, else homomorphically.
    pub fn handle_builtin_function_call(&mut self, ast: Expr, analysis: Option<&PartitionState>) -> (r: Result<Expr, TypeError>)
        requires
            is_builtin_call(ast),
        ensures
            builtin_call_result(ast, analysis, r, old(self).warnings@, final(self).warnings@),
    {
        let (op, all_accessible, public_cond) = match &ast.kind {
            ExprKind::FunctionCall { func: Callee::Builtin(b), args } => {
                proof {
                    assert(args@[0].spec_typed());
                }
                let mut all = true;
                let mut i: usize = 0;
                while i < args.len()
                    invariant
                        i <= args.len(),
                        all_typed(args@),
                        all == (forall|j: int| 0 <= j < i ==> (#[trigger] args@[j]).ty().spec_is_accessible(analysis)),
                    decreases args.len() - i,
                {
                    proof {
                        assert(args@[i as int].spec_typed());
                    }
                    let acc = match &args[i].annotated_type {
                        Some(a) => a.is_accessible(analysis),
                        None => false,
                    };
                    if !acc {
                        all = false;
                    }
                    i = i + 1;
                }
                let pc = Self::is_public_expr(&args[0]);
                (b.op, all, pc)
            },
            _ => {
                return Err(TypeError::NotAFunction);
            },
        };
        if op == BuiltinOp::Parenthesis {
            let t = match &ast.kind {
                ExprKind::FunctionCall { args, .. } => match &args[0].annotated_type {
                    Some(a) => Some(a.copy()),
                    None => None,
                },
                _ => None,
            };
            return Ok(Expr { annotated_type: t, ..ast });
        }
        if all_accessible || (op == BuiltinOp::Ite && public_cond) {
            self.handle_unhom_builtin_function_call(ast, analysis)
        } else {
            self.handle_homomorphic_builtin_function_call(ast, analysis)
        }
    }
}

} // verus!
