//! The abstract syntax tree of zkay programs.
use vstd::prelude::*;
use crate::types::{AnnotatedTypeName, Homomorphism, PartitionState, PrivacyLabel, TypeName};

verus! {

/// The operators of built-in functions.
#[derive(PartialEq, Eq, Structural, Clone, Copy, Debug)]
pub enum BuiltinOp {
    Parenthesis,
    Ite,
    Not,
    Neg,
    BitNot,
    Add,
    Sub,
    Mul,
    Div,
    Mod,
    BitAnd,
    BitOr,
    BitXor,
    Shl,
    Shr,
    Eq,
    Ne,
    Lt,
    Gt,
    Le,
    Ge,
    And,
    Or,
}

/// The type a built-in function expects of one argument.
#[derive(PartialEq, Eq, Structural, Clone, Copy, Debug)]
pub enum ParamType {
    /// Any number type.
    Number,
    Bool,
    /// No constraint.
    Any,
}

/// The kind of value a built-in function returns.
#[derive(PartialEq, Eq, Structural, Clone, Copy, Debug)]
pub enum OutputKind {
    Number,
    Bool,
    /// The type of the (combined) arguments.
    SameAsArgs,
}

impl BuiltinOp {
    pub open spec fn spec_arity(self) -> usize {
        match self {
            BuiltinOp::Parenthesis | BuiltinOp::Not | BuiltinOp::Neg | BuiltinOp::BitNot => 1,
            BuiltinOp::Ite => 3,
            _ => 2,
        }
    }

    #[verifier::when_used_as_spec(spec_arity)]
    pub fn arity(self) -> (r: usize)
        ensures
            r == self.spec_arity(),
    {
        match self {
            BuiltinOp::Parenthesis | BuiltinOp::Not | BuiltinOp::Neg | BuiltinOp::BitNot => 1,
            BuiltinOp::Ite => 3,
            _ => 2,
        }
    }

    pub open spec fn spec_is_eq(self) -> bool {
        self == BuiltinOp::Eq || self == BuiltinOp::Ne
    }

    #[verifier::when_used_as_spec(spec_is_eq)]
    pub fn is_eq(self) -> (r: bool)
        ensures
            r == self.spec_is_eq(),
    {
        self == BuiltinOp::Eq || self == BuiltinOp::Ne
    }

    pub open spec fn spec_is_arithmetic(self) -> bool {
        match self {
            BuiltinOp::Add | BuiltinOp::Sub | BuiltinOp::Mul | BuiltinOp::Div | BuiltinOp::Mod
            | BuiltinOp::Neg => true,
            _ => false,
        }
    }

    #[verifier::when_used_as_spec(spec_is_arithmetic)]
    pub fn is_arithmetic(self) -> (r: bool)
        ensures
            r == self.spec_is_arithmetic(),
    {
        match self {
            BuiltinOp::Add | BuiltinOp::Sub | BuiltinOp::Mul | BuiltinOp::Div | BuiltinOp::Mod
            | BuiltinOp::Neg => true,
            _ => false,
        }
    }

    pub open spec fn spec_is_comp(self) -> bool {
        match self {
            BuiltinOp::Lt | BuiltinOp::Gt | BuiltinOp::Le | BuiltinOp::Ge => true,
            _ => false,
        }
    }

    #[verifier::when_used_as_spec(spec_is_comp)]
    pub fn is_comp(self) -> (r: bool)
        ensures
            r == self.spec_is_comp(),
    {
        match self {
            BuiltinOp::Lt | BuiltinOp::Gt | BuiltinOp::Le | BuiltinOp::Ge => true,
            _ => false,
        }
    }

    pub open spec fn spec_is_bop(self) -> bool {
        match self {
            BuiltinOp::Not | BuiltinOp::And | BuiltinOp::Or => true,
            _ => false,
        }
    }

    pub open spec fn spec_is_bitop(self) -> bool {
        match self {
            BuiltinOp::BitAnd | BuiltinOp::BitOr | BuiltinOp::BitXor | BuiltinOp::BitNot => true,
            _ => false,
        }
    }

    #[verifier::when_used_as_spec(spec_is_bitop)]
    pub fn is_bitop(self) -> (r: bool)
        ensures
            r == self.spec_is_bitop(),
    {
        match self {
            BuiltinOp::BitAnd | BuiltinOp::BitOr | BuiltinOp::BitXor | BuiltinOp::BitNot => true,
            _ => false,
        }
    }

    pub open spec fn spec_is_shiftop(self) -> bool {
        self == BuiltinOp::Shl || self == BuiltinOp::Shr
    }

    #[verifier::when_used_as_spec(spec_is_shiftop)]
    pub fn is_shiftop(self) -> (r: bool)
        ensures
            r == self.spec_is_shiftop(),
    {
        self == BuiltinOp::Shl || self == BuiltinOp::Shr
    }

    /// Division and remainder have no circuit representation.
    pub open spec fn spec_can_be_private(self) -> bool {
        self != BuiltinOp::Div && self != BuiltinOp::Mod
    }

    #[verifier::when_used_as_spec(spec_can_be_private)]
    pub fn can_be_private(self) -> (r: bool)
        ensures
            r == self.spec_can_be_private(),
    {
        self != BuiltinOp::Div && self != BuiltinOp::Mod
    }

    /// The type expected of argument `i`.
    pub open spec fn spec_input_type(self, i: int) -> ParamType {
        if self.spec_is_arithmetic() || self.spec_is_comp() || self.spec_is_bitop()
            || self.spec_is_shiftop() {
            ParamType::Number
        } else if self.spec_is_bop() {
            ParamType::Bool
        } else if self == BuiltinOp::Ite && i == 0 {
            ParamType::Bool
        } else {
            ParamType::Any
        }
    }

    pub fn input_type(self, i: usize) -> (r: ParamType)
        ensures
            r == self.spec_input_type(i as int),
    {
        if self.is_arithmetic() || self.is_comp() || self.is_bitop() || self.is_shiftop() {
            ParamType::Number
        } else if self == BuiltinOp::Not || self == BuiltinOp::And || self == BuiltinOp::Or {
            ParamType::Bool
        } else if self == BuiltinOp::Ite && i == 0 {
            ParamType::Bool
        } else {
            ParamType::Any
        }
    }

    pub open spec fn spec_output_kind(self) -> OutputKind {
        if self.spec_is_comp() || self.spec_is_bop() || self.spec_is_eq() {
            OutputKind::Bool
        } else if self.spec_is_arithmetic() || self.spec_is_bitop() || self.spec_is_shiftop() {
            OutputKind::Number
        } else {
            OutputKind::SameAsArgs
        }
    }

    #[verifier::when_used_as_spec(spec_output_kind)]
    pub fn output_kind(self) -> (r: OutputKind)
        ensures
            r == self.spec_output_kind(),
    {
        if self.is_comp() || self == BuiltinOp::Not || self == BuiltinOp::And || self
            == BuiltinOp::Or || self.is_eq() {
            OutputKind::Bool
        } else if self.is_arithmetic() || self.is_bitop() || self.is_shiftop() {
            OutputKind::Number
        } else {
            OutputKind::SameAsArgs
        }
    }
}

/// Whether a value of type `t` meets the parameter type `p`.
pub open spec fn meets_param_type(t: TypeName, p: ParamType) -> bool {
    match p {
        ParamType::Number => t.spec_is_numeric(),
        ParamType::Bool => crate::types::convertible(t, TypeName::Bool),
        ParamType::Any => true,
    }
}

pub fn meets_param_type_exec(t: &TypeName, p: ParamType) -> (r: bool)
    ensures
        r == meets_param_type(*t, p),
{
    match p {
        ParamType::Number => t.is_numeric(),
        ParamType::Bool => t.implicitly_convertible_to(&TypeName::Bool),
        ParamType::Any => true,
    }
}

/// A call of a built-in operator.
#[derive(Debug)]
pub struct BuiltinFunction {
    pub op: BuiltinOp,
    /// Whether the operation is evaluated inside the circuit.
    pub is_private: bool,
    pub homomorphism: Homomorphism,
}

/// The kind of declaration an identifier refers to.
#[derive(PartialEq, Eq, Structural, Clone, Copy, Debug)]
pub enum DeclKind {
    StateVariable,
    LocalVariable,
    Parameter,
    /// A function of the enclosing contract, by its index in `function_definitions`.
    Function(usize),
    Contract,
    Enum,
    EnumValue,
    Mapping,
}

/// What an identifier refers to: the declaration's id, kind and type.
#[derive(Debug)]
pub struct DeclRef {
    pub id: u64,
    pub kind: DeclKind,
    pub annotated_type: Option<AnnotatedTypeName>,
    pub is_final: bool,
    pub is_constant: bool,
}

/// An expression node.
#[derive(Debug)]
pub struct Expr {
    pub id: u64,
    pub kind: ExprKind,
    pub annotated_type: Option<AnnotatedTypeName>,
    /// Whether the expression is evaluated inside the circuit.
    pub evaluate_privately: bool,
    pub line: u64,
    pub column: u64,
    pub parent: Option<u64>,
    /// The id of the enclosing statement.
    pub statement: Option<u64>,
    pub namespace: Option<Vec<String>>,
}

#[derive(Debug)]
pub enum ExprKind {
    BooleanLiteral(bool),
    NumberLiteral(i64),
    Me,
    All,
    Identifier { name: String, target: Option<DeclRef> },
    Index { arr: Box<Expr>, key: Box<Expr> },
    MemberAccess { expr: Box<Expr>, member: String, target: Option<DeclRef> },
    FunctionCall { func: Callee, args: Vec<Expr> },
    PrimitiveCast { elem_type: TypeName, expr: Box<Expr>, is_implicit: bool },
    /// `reveal(expr, privacy)` or, with `is_rehom`, a change of homomorphism.
    Reclassify {
        expr: Box<Expr>,
        privacy: Option<PrivacyLabel>,
        homomorphism: Option<Homomorphism>,
        is_rehom: bool,
    },
    Tuple(Vec<Expr>),
    New { ty: TypeName, args: Vec<Expr> },
}

/// The function a call invokes: a built-in operator, or a location (a function,
/// or an enum or contract for casts).
#[derive(Debug)]
pub enum Callee {
    Builtin(BuiltinFunction),
    Location(Box<Expr>),
}

/// A value that a statement modifies.
#[derive(Debug)]
pub struct ModifiedValue {
    /// The type of the modified variable.
    pub target_type: AnnotatedTypeName,
    /// Whether the variable is in scope at the enclosing statement.
    pub in_scope: bool,
}

/// A statement node.
#[derive(Debug)]
pub struct Stmt {
    pub id: u64,
    pub kind: StmtKind,
    pub line: u64,
    pub column: u64,
    pub parent: Option<u64>,
    /// The id of the enclosing function.
    pub function: Option<u64>,
    pub namespace: Option<Vec<String>>,
    pub before_analysis: Option<PartitionState>,
    pub modified_values: Vec<ModifiedValue>,
}

#[derive(Debug)]
pub enum StmtKind {
    Block(Vec<Stmt>),
    StatementList(Vec<Stmt>),
    If { condition: Expr, then_branch: Box<Stmt>, else_branch: Option<Box<Stmt>> },
    While { condition: Expr, body: Box<Stmt> },
    For { init: Option<Box<Stmt>>, condition: Expr, update: Option<Box<Stmt>>, body: Box<Stmt> },
    Assignment { lhs: Expr, rhs: Expr },
    VariableDeclaration { decl: Declaration, expr: Option<Expr> },
    Return(Option<Expr>),
    Require(Expr),
    ExpressionStatement(Expr),
    Break,
    Continue,
}

/// An identifier node.
#[derive(Debug)]
pub struct Identifier {
    pub id: u64,
    pub name: String,
    pub parent: Option<u64>,
    pub namespace: Option<Vec<String>>,
}

/// A declaration of a variable or parameter.
#[derive(Debug)]
pub struct Declaration {
    pub id: u64,
    pub idf: Identifier,
    pub annotated_type: AnnotatedTypeName,
    pub is_final: bool,
    pub is_constant: bool,
    pub parent: Option<u64>,
    pub namespace: Option<Vec<String>>,
}

/// A state variable with its optional initializer.
#[derive(Debug)]
pub struct StateVariableDeclaration {
    pub decl: Declaration,
    pub expr: Option<Expr>,
}

#[derive(Debug)]
pub struct EnumValue {
    pub idf: Identifier,
    pub annotated_type: Option<AnnotatedTypeName>,
}

#[derive(Debug)]
pub struct EnumDefinition {
    pub id: u64,
    pub idf: Identifier,
    pub values: Vec<EnumValue>,
    pub annotated_type: Option<AnnotatedTypeName>,
    pub parent: Option<u64>,
    pub namespace: Option<Vec<String>>,
}

/// A constructor or a function.
#[derive(Debug)]
pub struct ConstructorOrFunctionDefinition {
    pub id: u64,
    pub idf: Identifier,
    pub is_constructor: bool,
    pub parameters: Vec<Declaration>,
    pub return_parameters: Vec<Declaration>,
    pub body: Option<Stmt>,
    /// Public or external: callable by transactions.
    pub can_be_external: bool,
    pub can_be_private: bool,
    pub requires_verification: bool,
    pub requires_verification_when_external: bool,
    pub has_static_body: bool,
    pub has_side_effects: bool,
    pub is_recursive: bool,
    /// Indices into the contract's `function_definitions`.
    pub called_functions: Vec<usize>,
    pub parent: Option<u64>,
    pub namespace: Option<Vec<String>>,
}

#[derive(Debug)]
pub struct ContractDefinition {
    pub id: u64,
    pub idf: Identifier,
    pub state_variable_declarations: Vec<StateVariableDeclaration>,
    pub constructor_definitions: Vec<ConstructorOrFunctionDefinition>,
    pub function_definitions: Vec<ConstructorOrFunctionDefinition>,
    pub enum_definitions: Vec<EnumDefinition>,
    pub parent: Option<u64>,
    pub namespace: Option<Vec<String>>,
}

#[derive(Debug)]
pub struct SourceUnit {
    pub id: u64,
    pub contracts: Vec<ContractDefinition>,
    pub namespace: Option<Vec<String>>,
}


impl Expr {
    /// Every node of the expression carries a type.
    pub open spec fn spec_typed(self) -> bool
        decreases self,
    {
        &&& self.annotated_type is Some
        &&& match self.kind {
            ExprKind::Index { arr, key } => arr.spec_typed() && key.spec_typed(),
            ExprKind::MemberAccess { expr, .. } => expr.spec_typed(),
            ExprKind::FunctionCall { func, args } => {
                &&& match func {
                    Callee::Location(f) => f.spec_typed(),
                    Callee::Builtin(_) => true,
                }
                &&& forall|i: int| 0 <= i < args.len() ==> (#[trigger] args@[i]).spec_typed()
            },
            ExprKind::PrimitiveCast { expr, .. } => expr.spec_typed(),
            ExprKind::Reclassify { expr, .. } => expr.spec_typed(),
            ExprKind::Tuple(elems) => forall|i: int|
                0 <= i < elems.len() ==> (#[trigger] elems@[i]).spec_typed(),
            ExprKind::New { args, .. } => forall|i: int|
                0 <= i < args.len() ==> (#[trigger] args@[i]).spec_typed(),
            _ => true,
        }
    }

    /// Every node below the expression carries a type (the node itself may not).
    pub open spec fn spec_children_typed(self) -> bool {
        match self.kind {
            ExprKind::Index { arr, key } => arr.spec_typed() && key.spec_typed(),
            ExprKind::MemberAccess { expr, .. } => expr.spec_typed(),
            ExprKind::FunctionCall { func, args } => {
                &&& match func {
                    Callee::Location(f) => f.spec_typed(),
                    Callee::Builtin(_) => true,
                }
                &&& forall|i: int| 0 <= i < args.len() ==> (#[trigger] args@[i]).spec_typed()
            },
            ExprKind::PrimitiveCast { expr, .. } => expr.spec_typed(),
            ExprKind::Reclassify { expr, .. } => expr.spec_typed(),
            ExprKind::Tuple(elems) => forall|i: int|
                0 <= i < elems.len() ==> (#[trigger] elems@[i]).spec_typed(),
            ExprKind::New { args, .. } => forall|i: int|
                0 <= i < args.len() ==> (#[trigger] args@[i]).spec_typed(),
            _ => true,
        }
    }

    /// Built-in calls have as many arguments as their operator takes.
    pub open spec fn spec_well_formed(self) -> bool
        decreases self,
    {
        match self.kind {
            ExprKind::Index { arr, key } => arr.spec_well_formed() && key.spec_well_formed(),
            ExprKind::MemberAccess { expr, .. } => expr.spec_well_formed(),
            ExprKind::FunctionCall { func, args } => {
                &&& match func {
                    Callee::Location(f) => f.spec_well_formed(),
                    Callee::Builtin(b) => args.len() == b.op.spec_arity(),
                }
                &&& forall|i: int|
                    0 <= i < args.len() ==> (#[trigger] args@[i]).spec_well_formed()
            },
            ExprKind::PrimitiveCast { expr, .. } => expr.spec_well_formed(),
            ExprKind::Reclassify { expr, .. } => expr.spec_well_formed(),
            ExprKind::Tuple(elems) => forall|i: int|
                0 <= i < elems.len() ==> (#[trigger] elems@[i]).spec_well_formed(),
            ExprKind::New { args, .. } => forall|i: int|
                0 <= i < args.len() ==> (#[trigger] args@[i]).spec_well_formed(),
            _ => true,
        }
    }

    /// The type of a typed expression.
    pub open spec fn ty(self) -> AnnotatedTypeName {
        self.annotated_type.unwrap()
    }

    /// The label an expression denotes when used as a privacy annotation:
    /// `me`, `all`, or the declaration an identifier refers to.
    pub open spec fn spec_privacy_annotation_label(&self) -> Option<PrivacyLabel> {
        match self.kind {
            ExprKind::Me => Some(PrivacyLabel::Me),
            ExprKind::All => Some(PrivacyLabel::All),
            ExprKind::Identifier { target: Some(t), .. } => Some(PrivacyLabel::Idf(t.id)),
            _ => None,
        }
    }

    #[verifier::when_used_as_spec(spec_privacy_annotation_label)]
    pub fn privacy_annotation_label(&self) -> (r: Option<PrivacyLabel>)
        ensures
            r == self.spec_privacy_annotation_label(),
    {
        match &self.kind {
            ExprKind::Me => Some(PrivacyLabel::Me),
            ExprKind::All => Some(PrivacyLabel::All),
            ExprKind::Identifier { target: Some(t), .. } => Some(PrivacyLabel::Idf(t.id)),
            _ => None,
        }
    }

    /// A fresh node of the given kind, without type, links or position.
    pub fn new_node(id: u64, kind: ExprKind) -> (r: Expr)
        ensures
            r.id == id,
            r.kind == kind,
            r.annotated_type is None,
            !r.evaluate_privately,
            r.line == 0,
            r.column == 0,
            r.parent is None,
            r.statement is None,
            r.namespace is None,
    {
        Expr {
            id,
            kind,
            annotated_type: None,
            evaluate_privately: false,
            line: 0,
            column: 0,
            parent: None,
            statement: None,
            namespace: None,
        }
    }
}


impl Stmt {
    /// Every expression in the statement is typed.
    pub open spec fn spec_typed(self) -> bool
        decreases self,
    {
        match self.kind {
            StmtKind::Block(ss) => forall|i: int| 0 <= i < ss.len() ==> (#[trigger] ss@[i]).spec_typed(),
            StmtKind::StatementList(ss) => forall|i: int| 0 <= i < ss.len() ==> (#[trigger] ss@[i]).spec_typed(),
            StmtKind::If { condition, then_branch, else_branch } => {
                &&& condition.spec_typed()
                &&& then_branch.spec_typed()
                &&& else_branch matches Some(e) ==> e.spec_typed()
            },
            StmtKind::While { condition, body } => condition.spec_typed() && body.spec_typed(),
            StmtKind::For { init, condition, update, body } => {
                &&& init matches Some(s) ==> s.spec_typed()
                &&& condition.spec_typed()
                &&& update matches Some(s) ==> s.spec_typed()
                &&& body.spec_typed()
            },
            StmtKind::Assignment { lhs, rhs } => lhs.spec_typed() && rhs.spec_typed(),
            StmtKind::VariableDeclaration { expr, .. } => expr matches Some(e) ==> e.spec_typed(),
            StmtKind::Return(e) => e matches Some(x) ==> x.spec_typed(),
            StmtKind::Require(e) => e.spec_typed(),
            StmtKind::ExpressionStatement(e) => e.spec_typed(),
            _ => true,
        }
    }
}

/// An expression is typed when it carries a type and its children are typed.
pub proof fn lemma_typed_from_children(e: Expr)
    ensures
        e.spec_typed() == (e.annotated_type is Some && e.spec_children_typed()),
{
}

/// Typedness and well-formedness depend only on a node's kind and type.
pub proof fn lemma_same_kind_and_type(a: Expr, b: Expr)
    requires
        a.kind == b.kind,
        a.annotated_type == b.annotated_type,
    ensures
        a.spec_typed() == b.spec_typed(),
        a.spec_well_formed() == b.spec_well_formed(),
{
}

/// `sub` is `e` itself or one of its subexpressions, at any depth.
pub open spec fn expr_contains(e: Expr, sub: Expr) -> bool
    decreases e,
{
    ||| e == sub
    ||| match e.kind {
        ExprKind::Index { arr, key } => expr_contains(*arr, sub) || expr_contains(*key, sub),
        ExprKind::MemberAccess { expr, .. } => expr_contains(*expr, sub),
        ExprKind::FunctionCall { func, args } => {
            ||| (func matches Callee::Location(f) && expr_contains(*f, sub))
            ||| exists|i: int| 0 <= i < args.len() && expr_contains(#[trigger] args@[i], sub)
        },
        ExprKind::PrimitiveCast { expr, .. } => expr_contains(*expr, sub),
        ExprKind::Reclassify { expr, .. } => expr_contains(*expr, sub),
        ExprKind::Tuple(elems) => exists|i: int| 0 <= i < elems.len() && expr_contains(#[trigger] elems@[i], sub),
        ExprKind::New { args, .. } => exists|i: int| 0 <= i < args.len() && expr_contains(#[trigger] args@[i], sub),
        _ => false,
    }
}

/// `sub` is `s` itself or one of its nested statements, at any depth.
pub open spec fn stmt_contains_stmt(s: Stmt, sub: Stmt) -> bool
    decreases s,
{
    ||| s == sub
    ||| match s.kind {
        StmtKind::Block(ss) => exists|i: int| 0 <= i < ss.len() && stmt_contains_stmt(#[trigger] ss@[i], sub),
        StmtKind::StatementList(ss) => exists|i: int| 0 <= i < ss.len() && stmt_contains_stmt(#[trigger] ss@[i], sub),
        StmtKind::If { then_branch, else_branch, .. } => {
            ||| stmt_contains_stmt(*then_branch, sub)
            ||| (else_branch matches Some(e) && stmt_contains_stmt(*e, sub))
        },
        StmtKind::While { body, .. } => stmt_contains_stmt(*body, sub),
        StmtKind::For { init, update, body, .. } => {
            ||| (init matches Some(x) && stmt_contains_stmt(*x, sub))
            ||| (update matches Some(x) && stmt_contains_stmt(*x, sub))
            ||| stmt_contains_stmt(*body, sub)
        },
        _ => false,
    }
}

/// `sub` is one of the expressions of `s` or of its nested statements, or
/// a subexpression of one.
pub open spec fn stmt_contains_expr(s: Stmt, sub: Expr) -> bool
    decreases s,
{
    match s.kind {
        StmtKind::Block(ss) => exists|i: int| 0 <= i < ss.len() && stmt_contains_expr(#[trigger] ss@[i], sub),
        StmtKind::StatementList(ss) => exists|i: int| 0 <= i < ss.len() && stmt_contains_expr(#[trigger] ss@[i], sub),
        StmtKind::If { condition, then_branch, else_branch } => {
            ||| expr_contains(condition, sub)
            ||| stmt_contains_expr(*then_branch, sub)
            ||| (else_branch matches Some(e) && stmt_contains_expr(*e, sub))
        },
        StmtKind::While { condition, body } => expr_contains(condition, sub) || stmt_contains_expr(*body, sub),
        StmtKind::For { init, condition, update, body } => {
            ||| (init matches Some(x) && stmt_contains_expr(*x, sub))
            ||| expr_contains(condition, sub)
            ||| (update matches Some(x) && stmt_contains_expr(*x, sub))
            ||| stmt_contains_expr(*body, sub)
        },
        StmtKind::Assignment { lhs, rhs } => expr_contains(lhs, sub) || expr_contains(rhs, sub),
        StmtKind::VariableDeclaration { expr, .. } => expr matches Some(e) && expr_contains(e, sub),
        StmtKind::Return(e) => e matches Some(x) && expr_contains(x, sub),
        StmtKind::Require(e) => expr_contains(e, sub),
        StmtKind::ExpressionStatement(e) => expr_contains(e, sub),
        _ => false,
    }
}

/// A call of a built-in operator that is evaluated privately.
pub open spec fn is_private_builtin_call(e: Expr) -> bool {
    e.kind matches ExprKind::FunctionCall { func: Callee::Builtin(b), .. } && b.is_private
}

} // verus!
