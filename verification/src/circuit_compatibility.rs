//! Which functions can be evaluated inside a circuit, and which expressions
//! are evaluated privately.
use vstd::prelude::*;
use crate::ast::{
    stmt_contains_stmt, BuiltinFunction, BuiltinOp, Callee, ConstructorOrFunctionDefinition, ContractDefinition, DeclKind, Expr, ExprKind,
    Stmt, StmtKind,
};
use crate::expression_types::{is_cast_callee, location_target};
use crate::type_checker::TypeError;
use crate::types::{labels_equal, labels_equal_exec, PartitionState, PrivacyLabel};
use crate::ast::ModifiedValue;

verus! {

/// A call of a built-in that is not private yet can be evaluated in a
/// circuit: its operator can, and a comparison for equality or a conditional
/// compares values of a type that can be private.
pub open spec fn builtin_call_can_be_private(b: BuiltinFunction, args: Seq<Expr>) -> bool {
    &&& b.op.spec_can_be_private()
    &&& (b.op.spec_is_eq() || b.op == BuiltinOp::Ite) ==> args.len() > 1 && args[1].ty().ty.spec_can_be_private()
}

/// The expression can be part of a circuit: every call of a built-in in it
/// can (see `builtin_call_can_be_private`) and every location in it has a
/// type that can be private. The callee of a call and the privacy of a
/// reclassification are not looked at.
pub open spec fn direct_expr_ok(e: Expr) -> bool
    decreases e,
{
    match e.kind {
        ExprKind::FunctionCall { func, args } => {
            &&& match func {
                Callee::Builtin(b) => b.is_private || builtin_call_can_be_private(b, args@),
                Callee::Location(_) => true,
            }
            &&& forall|i: int| 0 <= i < args.len() ==> direct_expr_ok(#[trigger] args@[i])
        },
        ExprKind::Identifier { .. } => e.ty().ty.spec_can_be_private(),
        ExprKind::MemberAccess { expr, .. } => e.ty().ty.spec_can_be_private() && direct_expr_ok(*expr),
        ExprKind::Index { arr, key } => e.ty().ty.spec_can_be_private() && direct_expr_ok(*arr) && direct_expr_ok(*key),
        ExprKind::Reclassify { expr, .. } => direct_expr_ok(*expr),
        ExprKind::PrimitiveCast { expr, .. } => direct_expr_ok(*expr),
        ExprKind::Tuple(elems) => forall|i: int| 0 <= i < elems.len() ==> direct_expr_ok(#[trigger] elems@[i]),
        ExprKind::New { args, .. } => forall|i: int| 0 <= i < args.len() ==> direct_expr_ok(#[trigger] args@[i]),
        _ => true,
    }
}

/// The statement can be part of a circuit: it is a block, an `if`, an
/// assignment, a variable declaration or a `return`, and its parts can be.
pub open spec fn direct_stmt_ok(s: Stmt) -> bool
    decreases s,
{
    match s.kind {
        StmtKind::Block(ss) => forall|i: int| 0 <= i < ss.len() ==> direct_stmt_ok(#[trigger] ss@[i]),
        StmtKind::StatementList(ss) => forall|i: int| 0 <= i < ss.len() ==> direct_stmt_ok(#[trigger] ss@[i]),
        StmtKind::If { condition, then_branch, else_branch } => {
            &&& direct_expr_ok(condition)
            &&& direct_stmt_ok(*then_branch)
            &&& else_branch matches Some(e) ==> direct_stmt_ok(*e)
        },
        StmtKind::Assignment { lhs, rhs } => direct_expr_ok(lhs) && direct_expr_ok(rhs),
        StmtKind::VariableDeclaration { expr, .. } => expr matches Some(e) ==> direct_expr_ok(e),
        StmtKind::Return(e) => e matches Some(x) ==> direct_expr_ok(x),
        _ => false,
    }
}

/// A statement that cannot be part of a circuit: a `require`, a `while` or
/// `for` loop, an expression statement, `break` or `continue`.
pub open spec fn is_unsupported_in_circuit(s: Stmt) -> bool {
    ||| s.kind is Require
    ||| s.kind is While
    ||| s.kind is For
    ||| s.kind is ExpressionStatement
    ||| s.kind is Break
    ||| s.kind is Continue
}

/// A statement that holds a statement that cannot be part of a circuit
/// cannot be part of one either.
pub proof fn lemma_unsupported_stmt_not_ok(s: Stmt, sub: Stmt)
    requires
        stmt_contains_stmt(s, sub),
        is_unsupported_in_circuit(sub),
    ensures
        !direct_stmt_ok(s),
    decreases s,
{
    if s != sub {
        match s.kind {
            StmtKind::Block(ss) => {
                let i = choose|i: int| 0 <= i < ss.len() && stmt_contains_stmt(#[trigger] ss@[i], sub);
                vstd::std_specs::vec::axiom_vec_index_decreases(ss, i);
                lemma_unsupported_stmt_not_ok(ss@[i], sub);
                assert(!direct_stmt_ok(ss@[i]));
            },
            StmtKind::StatementList(ss) => {
                let i = choose|i: int| 0 <= i < ss.len() && stmt_contains_stmt(#[trigger] ss@[i], sub);
                vstd::std_specs::vec::axiom_vec_index_decreases(ss, i);
                lemma_unsupported_stmt_not_ok(ss@[i], sub);
                assert(!direct_stmt_ok(ss@[i]));
            },
            StmtKind::If { then_branch, else_branch, .. } => {
                if stmt_contains_stmt(*then_branch, sub) {
                    lemma_unsupported_stmt_not_ok(*then_branch, sub);
                } else {
                    match else_branch {
                        Some(e) => lemma_unsupported_stmt_not_ok(*e, sub),
                        None => {},
                    }
                }
            },
            _ => {},
        }
    }
}

/// `sub` is `e` or one of its subexpressions, at any depth, other than the
/// callees of calls and what they hold.
pub open spec fn expr_contains_outside_callees(e: Expr, sub: Expr) -> bool
    decreases e,
{
    ||| e == sub
    ||| match e.kind {
        ExprKind::Index { arr, key } => expr_contains_outside_callees(*arr, sub) || expr_contains_outside_callees(*key, sub),
        ExprKind::MemberAccess { expr, .. } => expr_contains_outside_callees(*expr, sub),
        ExprKind::FunctionCall { args, .. } => exists|i: int|
            0 <= i < args.len() && expr_contains_outside_callees(#[trigger] args@[i], sub),
        ExprKind::PrimitiveCast { expr, .. } => expr_contains_outside_callees(*expr, sub),
        ExprKind::Reclassify { expr, .. } => expr_contains_outside_callees(*expr, sub),
        ExprKind::Tuple(elems) => exists|i: int| 0 <= i < elems.len() && expr_contains_outside_callees(#[trigger] elems@[i], sub),
        ExprKind::New { args, .. } => exists|i: int| 0 <= i < args.len() && expr_contains_outside_callees(#[trigger] args@[i], sub),
        _ => false,
    }
}

/// `sub` is held, outside the callees of calls, by one of the expressions of
/// `s` or of its nested statements.
pub open spec fn stmt_contains_outside_callees(s: Stmt, sub: Expr) -> bool
    decreases s,
{
    match s.kind {
        StmtKind::Block(ss) => exists|i: int| 0 <= i < ss.len() && stmt_contains_outside_callees(#[trigger] ss@[i], sub),
        StmtKind::StatementList(ss) => exists|i: int|
            0 <= i < ss.len() && stmt_contains_outside_callees(#[trigger] ss@[i], sub),
        StmtKind::If { condition, then_branch, else_branch } => {
            ||| expr_contains_outside_callees(condition, sub)
            ||| stmt_contains_outside_callees(*then_branch, sub)
            ||| (else_branch matches Some(e) && stmt_contains_outside_callees(*e, sub))
        },
        StmtKind::While { condition, body } => expr_contains_outside_callees(condition, sub)
            || stmt_contains_outside_callees(*body, sub),
        StmtKind::For { init, condition, update, body } => {
            ||| (init matches Some(x) && stmt_contains_outside_callees(*x, sub))
            ||| expr_contains_outside_callees(condition, sub)
            ||| (update matches Some(x) && stmt_contains_outside_callees(*x, sub))
            ||| stmt_contains_outside_callees(*body, sub)
        },
        StmtKind::Assignment { lhs, rhs } => expr_contains_outside_callees(lhs, sub) || expr_contains_outside_callees(rhs, sub),
        StmtKind::VariableDeclaration { expr, .. } => expr matches Some(e) && expr_contains_outside_callees(e, sub),
        StmtKind::Return(e) => e matches Some(x) && expr_contains_outside_callees(x, sub),
        StmtKind::Require(e) => expr_contains_outside_callees(e, sub),
        StmtKind::ExpressionStatement(e) => expr_contains_outside_callees(e, sub),
        _ => false,
    }
}

/// An expression node that cannot be part of a circuit: a call of a
/// built-in that is not private and whose operator cannot be evaluated
/// privately, or an identifier whose type cannot be private.
pub open spec fn blocks_circuit(e: Expr) -> bool {
    ||| (e.kind matches ExprKind::FunctionCall { func: Callee::Builtin(b), .. } && !b.is_private
        && !b.op.spec_can_be_private())
    ||| (e.kind is Identifier && !e.ty().ty.spec_can_be_private())
}

/// An expression that holds, outside callees, a node that cannot be part of
/// a circuit cannot be part of one either.
pub proof fn lemma_blocking_node_in_expr(e: Expr, sub: Expr)
    requires
        expr_contains_outside_callees(e, sub),
        blocks_circuit(sub),
    ensures
        !direct_expr_ok(e),
    decreases e,
{
    if e != sub {
        match e.kind {
            ExprKind::Index { arr, key } => {
                if expr_contains_outside_callees(*arr, sub) {
                    lemma_blocking_node_in_expr(*arr, sub);
                } else {
                    lemma_blocking_node_in_expr(*key, sub);
                }
            },
            ExprKind::MemberAccess { expr, .. } => lemma_blocking_node_in_expr(*expr, sub),
            ExprKind::PrimitiveCast { expr, .. } => lemma_blocking_node_in_expr(*expr, sub),
            ExprKind::Reclassify { expr, .. } => lemma_blocking_node_in_expr(*expr, sub),
            ExprKind::FunctionCall { args, .. } => {
                let i = choose|i: int| 0 <= i < args.len() && expr_contains_outside_callees(#[trigger] args@[i], sub);
                vstd::std_specs::vec::axiom_vec_index_decreases(args, i);
                lemma_blocking_node_in_expr(args@[i], sub);
                assert(!direct_expr_ok(args@[i]));
            },
            ExprKind::Tuple(elems) => {
                let i = choose|i: int| 0 <= i < elems.len() && expr_contains_outside_callees(#[trigger] elems@[i], sub);
                vstd::std_specs::vec::axiom_vec_index_decreases(elems, i);
                lemma_blocking_node_in_expr(elems@[i], sub);
                assert(!direct_expr_ok(elems@[i]));
            },
            ExprKind::New { args, .. } => {
                let i = choose|i: int| 0 <= i < args.len() && expr_contains_outside_callees(#[trigger] args@[i], sub);
                vstd::std_specs::vec::axiom_vec_index_decreases(args, i);
                lemma_blocking_node_in_expr(args@[i], sub);
                assert(!direct_expr_ok(args@[i]));
            },
            _ => {},
        }
    }
}

/// A statement that holds, outside callees, a node that cannot be part of a
/// circuit cannot be part of one either.
pub proof fn lemma_blocking_node_in_stmt(s: Stmt, sub: Expr)
    requires
        stmt_contains_outside_callees(s, sub),
        blocks_circuit(sub),
    ensures
        !direct_stmt_ok(s),
    decreases s,
{
    match s.kind {
        StmtKind::Block(ss) => {
            let i = choose|i: int| 0 <= i < ss.len() && stmt_contains_outside_callees(#[trigger] ss@[i], sub);
            vstd::std_specs::vec::axiom_vec_index_decreases(ss, i);
            lemma_blocking_node_in_stmt(ss@[i], sub);
            assert(!direct_stmt_ok(ss@[i]));
        },
        StmtKind::StatementList(ss) => {
            let i = choose|i: int| 0 <= i < ss.len() && stmt_contains_outside_callees(#[trigger] ss@[i], sub);
            vstd::std_specs::vec::axiom_vec_index_decreases(ss, i);
            lemma_blocking_node_in_stmt(ss@[i], sub);
            assert(!direct_stmt_ok(ss@[i]));
        },
        StmtKind::If { condition, then_branch, else_branch } => {
            if expr_contains_outside_callees(condition, sub) {
                lemma_blocking_node_in_expr(condition, sub);
            } else if stmt_contains_outside_callees(*then_branch, sub) {
                lemma_blocking_node_in_stmt(*then_branch, sub);
            } else {
                match else_branch {
                    Some(e) => lemma_blocking_node_in_stmt(*e, sub),
                    None => {},
                }
            }
        },
        StmtKind::Assignment { lhs, rhs } => {
            if expr_contains_outside_callees(lhs, sub) {
                lemma_blocking_node_in_expr(lhs, sub);
            } else {
                lemma_blocking_node_in_expr(rhs, sub);
            }
        },
        StmtKind::VariableDeclaration { expr, .. } => {
            match expr {
                Some(e) => lemma_blocking_node_in_expr(e, sub),
                None => {},
            }
        },
        StmtKind::Return(e) => {
            match e {
                Some(x) => lemma_blocking_node_in_expr(x, sub),
                None => {},
            }
        },
        _ => {},
    }
}

/// Finds the functions whose own body can be evaluated in a circuit.
pub struct DirectCanBePrivateDetector {}

impl DirectCanBePrivateDetector {
    pub fn new() -> (r: DirectCanBePrivateDetector) {
        DirectCanBePrivateDetector {  }
    }

    /// Whether the expression can be part of a circuit (see `direct_expr_ok`).
    pub fn visitExpression(&self, ast: &Expr) -> (r: bool)
        requires
            ast.spec_typed(),
        ensures
            r == direct_expr_ok(*ast),
        decreases ast, 2nat,
    {
        match &ast.kind {
            ExprKind::FunctionCall { .. } => self.visitFunctionCallExpr(ast),
            ExprKind::Identifier { .. } | ExprKind::MemberAccess { .. } | ExprKind::Index { .. } => self.visitLocationExpr(ast),
            ExprKind::Reclassify { .. } => self.visitReclassifyExpr(ast),
            ExprKind::PrimitiveCast { expr, .. } => self.visitExpression(expr),
            ExprKind::Tuple(elems) => self.visit_all(elems, Ghost(*ast)),
            ExprKind::New { args, .. } => self.visit_all(args, Ghost(*ast)),
            _ => true,
        }
    }

    fn visit_all(&self, es: &Vec<Expr>, Ghost(whole): Ghost<Expr>) -> (r: bool)
        requires
            decreases_to!(whole => *es),
            forall|i: int| 0 <= i < es.len() ==> (#[trigger] es@[i]).spec_typed(),
        ensures
            r == forall|i: int| 0 <= i < es.len() ==> direct_expr_ok(#[trigger] es@[i]),
        decreases whole, 0nat,
    {
        let mut i: usize = 0;
        while i < es.len()
            invariant
                i <= es.len(),
                decreases_to!(whole => *es),
                forall|j: int| 0 <= j < es.len() ==> (#[trigger] es@[j]).spec_typed(),
                forall|j: int| 0 <= j < i ==> direct_expr_ok(#[trigger] es@[j]),
            decreases es.len() - i,
        {
            proof {
                vstd::std_specs::vec::axiom_vec_index_decreases(*es, i as int);
            }
            if !self.visitExpression(&es[i]) {
                return false;
            }
            i = i + 1;
        }
        true
    }

    /// A call: a built-in that is not private must be able to be private;
    /// the arguments must be able to be part of a circuit.
    pub fn visitFunctionCallExpr(&self, ast: &Expr) -> (r: bool)
        requires
            ast.kind is FunctionCall,
            ast.spec_typed(),
        ensures
            r == direct_expr_ok(*ast),
        decreases ast, 1nat,
    {
        match &ast.kind {
            ExprKind::FunctionCall { func, args } => {
                let own = match func {
                    Callee::Builtin(b) => {
                        if b.is_private {
                            true
                        } else {
                            let mut ok = b.op.can_be_private();
                            if b.op.is_eq() || b.op == BuiltinOp::Ite {
                                proof {
                                    if args.len() > 1 {
                                        assert(args@[1].spec_typed());
                                    }
                                }
                                ok = ok && args.len() > 1 && match &args[1].annotated_type {
                                    Some(a) => a.ty.can_be_private(),
                                    None => false,
                                };
                            }
                            ok
                        }
                    },
                    Callee::Location(_) => true,
                };
                if !own {
                    return false;
                }
                proof {
                    assert(decreases_to!(*ast => ast.kind));
                    assert(decreases_to!(ast.kind => ast.kind->FunctionCall_args));
                }
                self.visit_all(args, Ghost(*ast))
            },
            _ => true,
        }
    }

    /// A location must have a type that can be private.
    pub fn visitLocationExpr(&self, ast: &Expr) -> (r: bool)
        requires
            ast.kind is Identifier || ast.kind is MemberAccess || ast.kind is Index,
            ast.spec_typed(),
        ensures
            r == direct_expr_ok(*ast),
        decreases ast, 1nat,
    {
        let own = match &ast.annotated_type {
            Some(a) => a.ty.can_be_private(),
            None => false,
        };
        if !own {
            return false;
        }
        match &ast.kind {
            ExprKind::MemberAccess { expr, .. } => self.visitExpression(expr),
            ExprKind::Index { arr, key } => self.visitExpression(arr) && self.visitExpression(key),
            _ => true,
        }
    }

    /// A reclassification: only its argument is looked at.
    pub fn visitReclassifyExpr(&self, ast: &Expr) -> (r: bool)
        requires
            ast.kind is Reclassify,
            ast.spec_typed(),
        ensures
            r == direct_expr_ok(*ast),
        decreases ast, 1nat,
    {
        match &ast.kind {
            ExprKind::Reclassify { expr, .. } => self.visitExpression(expr),
            _ => true,
        }
    }
}

impl DirectCanBePrivateDetector {
    /// Whether the statement can be part of a circuit (see `direct_stmt_ok`);
    /// statements without a rule of their own cannot.
    pub fn visitStatement(&self, ast: &Stmt) -> (r: bool)
        requires
            ast.spec_typed(),
        ensures
            r == direct_stmt_ok(*ast),
        decreases ast, 2nat,
    {
        match &ast.kind {
            StmtKind::Block(_) | StmtKind::StatementList(_) => self.visitStatementList(ast),
            StmtKind::If { .. } => self.visitIfStatement(ast),
            StmtKind::Assignment { .. } => self.visitAssignmentStatement(ast),
            StmtKind::VariableDeclaration { .. } => self.visitVariableDeclarationStatement(ast),
            StmtKind::Return(_) => self.visitReturnStatement(ast),
            _ => false,
        }
    }

    fn visit_stmts(&self, ss: &Vec<Stmt>, Ghost(whole): Ghost<Stmt>) -> (r: bool)
        requires
            decreases_to!(whole => *ss),
            forall|i: int| 0 <= i < ss.len() ==> (#[trigger] ss@[i]).spec_typed(),
        ensures
            r == forall|i: int| 0 <= i < ss.len() ==> direct_stmt_ok(#[trigger] ss@[i]),
        decreases whole, 0nat,
    {
        let mut i: usize = 0;
        while i < ss.len()
            invariant
                i <= ss.len(),
                decreases_to!(whole => *ss),
                forall|j: int| 0 <= j < ss.len() ==> (#[trigger] ss@[j]).spec_typed(),
                forall|j: int| 0 <= j < i ==> direct_stmt_ok(#[trigger] ss@[j]),
            decreases ss.len() - i,
        {
            proof {
                vstd::std_specs::vec::axiom_vec_index_decreases(*ss, i as int);
            }
            if !self.visitStatement(&ss[i]) {
                return false;
            }
            i = i + 1;
        }
        true
    }

    /// A block or statement list: all its statements.
    pub fn visitStatementList(&self, ast: &Stmt) -> (r: bool)
        requires
            ast.kind is Block || ast.kind is StatementList,
            ast.spec_typed(),
        ensures
            r == direct_stmt_ok(*ast),
        decreases ast, 1nat,
    {
        match &ast.kind {
            StmtKind::Block(ss) => {
                proof {
                    assert(decreases_to!(*ast => ast.kind));
                    assert(decreases_to!(ast.kind => ast.kind->Block_0));
                }
                self.visit_stmts(ss, Ghost(*ast))
            },
            StmtKind::StatementList(ss) => {
                proof {
                    assert(decreases_to!(*ast => ast.kind));
                    assert(decreases_to!(ast.kind => ast.kind->StatementList_0));
                }
                self.visit_stmts(ss, Ghost(*ast))
            },
            _ => false,
        }
    }

    /// An `if`: its condition and branches.
    pub fn visitIfStatement(&self, ast: &Stmt) -> (r: bool)
        requires
            ast.kind is If,
            ast.spec_typed(),
        ensures
            r == direct_stmt_ok(*ast),
        decreases ast, 1nat,
    {
        match &ast.kind {
            StmtKind::If { condition, then_branch, else_branch } => {
                if !self.visitExpression(condition) || !self.visitStatement(then_branch) {
                    return false;
                }
                match else_branch {
                    Some(e) => self.visitStatement(e),
                    None => true,
                }
            },
            _ => false,
        }
    }

    /// An assignment: both sides.
    pub fn visitAssignmentStatement(&self, ast: &Stmt) -> (r: bool)
        requires
            ast.kind is Assignment,
            ast.spec_typed(),
        ensures
            r == direct_stmt_ok(*ast),
        decreases ast, 1nat,
    {
        match &ast.kind {
            StmtKind::Assignment { lhs, rhs } => self.visitExpression(lhs) && self.visitExpression(rhs),
            _ => false,
        }
    }

    /// A variable declaration: its initializer.
    pub fn visitVariableDeclarationStatement(&self, ast: &Stmt) -> (r: bool)
        requires
            ast.kind is VariableDeclaration,
            ast.spec_typed(),
        ensures
            r == direct_stmt_ok(*ast),
        decreases ast, 1nat,
    {
        match &ast.kind {
            StmtKind::VariableDeclaration { expr: Some(e), .. } => self.visitExpression(e),
            _ => true,
        }
    }

    /// A `return`: its value.
    pub fn visitReturnStatement(&self, ast: &Stmt) -> (r: bool)
        requires
            ast.kind is Return,
            ast.spec_typed(),
        ensures
            r == direct_stmt_ok(*ast),
        decreases ast, 1nat,
    {
        match &ast.kind {
            StmtKind::Return(Some(e)) => self.visitExpression(e),
            _ => true,
        }
    }

    /// A function can be private only if its body can be part of a circuit.
    pub fn visitConstructorOrFunctionDefinition(&self, ast: &mut ConstructorOrFunctionDefinition)
        requires
            old(ast).body matches Some(b) ==> b.spec_typed(),
        ensures
            *final(ast) == (ConstructorOrFunctionDefinition {
                can_be_private: old(ast).can_be_private && (old(ast).body matches Some(b) ==> direct_stmt_ok(b)),
                ..*old(ast)
            }),
            forall|sub: Stmt|
                old(ast).body is Some && #[trigger] stmt_contains_stmt(old(ast).body.unwrap(), sub)
                    && is_unsupported_in_circuit(sub) ==> !final(ast).can_be_private,
            forall|sub: Expr|
                old(ast).body is Some && #[trigger] stmt_contains_outside_callees(old(ast).body.unwrap(), sub)
                    && blocks_circuit(sub) ==> !final(ast).can_be_private,
    {
        proof {
            assert forall|sub: Expr|
                old(ast).body is Some && #[trigger] stmt_contains_outside_callees(old(ast).body.unwrap(), sub)
                    && blocks_circuit(sub) implies !direct_stmt_ok(old(ast).body.unwrap()) by {
                lemma_blocking_node_in_stmt(old(ast).body.unwrap(), sub);
            }
        }
        proof {
            assert forall|sub: Stmt|
                old(ast).body is Some && #[trigger] stmt_contains_stmt(old(ast).body.unwrap(), sub)
                    && is_unsupported_in_circuit(sub) implies !direct_stmt_ok(old(ast).body.unwrap()) by {
                lemma_unsupported_stmt_not_ok(old(ast).body.unwrap(), sub);
            }
        }
        let ok = match &ast.body {
            Some(b) => self.visitStatement(b),
            None => true,
        };
        ast.can_be_private = ast.can_be_private && ok;
    }
}

/// The `can_be_private` flags of the functions.
pub open spec fn fn_flags(fs: Seq<ConstructorOrFunctionDefinition>) -> Seq<bool> {
    Seq::new(fs.len(), |i: int| fs[i].can_be_private)
}

/// Every called function can be private according to `flags`.
pub open spec fn calls_only_private(called: Seq<usize>, flags: Seq<bool>) -> bool {
    forall|i: int| 0 <= i < called.len() ==> #[trigger] flags[called[i] as int]
}

/// The calls are indices into the functions.
pub open spec fn calls_in_range(called: Seq<usize>, n: int) -> bool {
    forall|i: int| 0 <= i < called.len() ==> #[trigger] called[i] < n
}

/// The flags after the first `k` functions, in order, lost `can_be_private`
/// where they call a function that cannot be private (as the flags stand
/// when they are looked at).
pub open spec fn indirect_pass(fs: Seq<ConstructorOrFunctionDefinition>, k: nat) -> Seq<bool>
    decreases k,
{
    if k == 0 || k > fs.len() {
        fn_flags(fs)
    } else {
        let prev = indirect_pass(fs, (k - 1) as nat);
        let i = k - 1;
        prev.update(i, prev[i] && calls_only_private(fs[i].called_functions@, prev))
    }
}

/// Every call of the functions is an index into the function list.
pub open spec fn contract_calls_in_range(c: ContractDefinition) -> bool {
    let n = c.function_definitions.len() as int;
    &&& forall|i: int| 0 <= i < c.constructor_definitions.len() ==> calls_in_range(
        (#[trigger] c.constructor_definitions@[i]).called_functions@,
        n,
    )
    &&& forall|i: int| 0 <= i < c.function_definitions.len() ==> calls_in_range(
        (#[trigger] c.function_definitions@[i]).called_functions@,
        n,
    )
}

/// Finds the functions that call a function that cannot be private.
pub struct IndirectCanBePrivateDetector {}

impl IndirectCanBePrivateDetector {
    pub fn new() -> (r: IndirectCanBePrivateDetector) {
        IndirectCanBePrivateDetector {  }
    }

    /// A function that can be private keeps that only if every function it
    /// calls can be private according to `flags`.
    pub fn visitConstructorOrFunctionDefinition(&self, ast: &mut ConstructorOrFunctionDefinition, flags: &Vec<bool>)
        requires
            calls_in_range(old(ast).called_functions@, flags.len() as int),
        ensures
            *final(ast) == (ConstructorOrFunctionDefinition {
                can_be_private: old(ast).can_be_private && calls_only_private(old(ast).called_functions@, flags@),
                ..*old(ast)
            }),
    {
        if ast.can_be_private {
            let mut i: usize = 0;
            while i < ast.called_functions.len()
                invariant
                    i <= ast.called_functions.len(),
                    *ast == *old(ast),
                    old(ast).can_be_private,
                    calls_in_range(ast.called_functions@, flags.len() as int),
                    forall|j: int| 0 <= j < i ==> #[trigger] flags@[ast.called_functions@[j] as int],
                decreases ast.called_functions.len() - i,
            {
                let idx = ast.called_functions[i];
                proof {
                    assert(calls_in_range(ast.called_functions@, flags.len() as int));
                    assert(ast.called_functions@[i as int] < flags.len());
                }
                if !flags[idx] {
                    proof {
                        assert(!flags@[ast.called_functions@[i as int] as int]);
                    }
                    ast.can_be_private = false;
                    return;
                }
                i = i + 1;
            }
        }
    }

    /// Runs over the constructors, then the functions of a contract in order.
    pub fn visitContractDefinition(&self, c: &mut ContractDefinition)
        requires
            contract_calls_in_range(*old(c)),
        ensures
            final(c).function_definitions.len() == old(c).function_definitions.len(),
            final(c).constructor_definitions.len() == old(c).constructor_definitions.len(),
            forall|i: int| 0 <= i < old(c).constructor_definitions.len() ==> (#[trigger] final(c).constructor_definitions@[i]) == (
            ConstructorOrFunctionDefinition {
                can_be_private: old(c).constructor_definitions@[i].can_be_private && calls_only_private(
                    old(c).constructor_definitions@[i].called_functions@,
                    fn_flags(old(c).function_definitions@),
                ),
                ..old(c).constructor_definitions@[i]
            }),
            forall|i: int| 0 <= i < old(c).function_definitions.len() ==> (#[trigger] final(c).function_definitions@[i]) == (
            ConstructorOrFunctionDefinition {
                can_be_private: indirect_pass(old(c).function_definitions@, old(c).function_definitions.len() as nat)[i],
                ..old(c).function_definitions@[i]
            }),
            final(c).id == old(c).id,
            final(c).idf == old(c).idf,
            final(c).state_variable_declarations == old(c).state_variable_declarations,
            final(c).enum_definitions == old(c).enum_definitions,
            final(c).parent == old(c).parent,
            final(c).namespace == old(c).namespace,
    {
        let ghost fs0 = c.function_definitions@;
        let ghost cs0 = c.constructor_definitions@;
        let n = c.function_definitions.len();
        let mut flags: Vec<bool> = Vec::new();
        let mut i: usize = 0;
        while i < n
            invariant
                i <= n,
                n == c.function_definitions.len(),
                c.function_definitions@ == fs0,
                flags@ == fn_flags(fs0).subrange(0, i as int),
            decreases n - i,
        {
            flags.push(c.function_definitions[i].can_be_private);
            i = i + 1;
            proof {
                assert(flags@ =~= fn_flags(fs0).subrange(0, i as int));
            }
        }
        proof {
            assert(flags@ =~= fn_flags(fs0));
        }
        let m = c.constructor_definitions.len();
        let mut j: usize = 0;
        while j < m
            invariant
                j <= m,
                m == c.constructor_definitions.len(),
                m == cs0.len(),
                flags@ == fn_flags(fs0),
                fs0.len() == n,
                c.function_definitions@ == fs0,
                contract_calls_in_range(*old(c)),
                cs0 == old(c).constructor_definitions@,
                fs0 == old(c).function_definitions@,
                forall|k: int| j <= k < m ==> #[trigger] c.constructor_definitions@[k] == cs0[k],
                forall|k: int| 0 <= k < j ==> (#[trigger] c.constructor_definitions@[k]) == (ConstructorOrFunctionDefinition {
                    can_be_private: cs0[k].can_be_private && calls_only_private(cs0[k].called_functions@, fn_flags(fs0)),
                    ..cs0[k]
                }),
                c.id == old(c).id,
                c.idf == old(c).idf,
                c.state_variable_declarations == old(c).state_variable_declarations,
                c.enum_definitions == old(c).enum_definitions,
                c.parent == old(c).parent,
                c.namespace == old(c).namespace,
            decreases m - j,
        {
            proof {
                assert(calls_in_range(cs0[j as int].called_functions@, n as int));
            }
            self.visitConstructorOrFunctionDefinition(&mut c.constructor_definitions[j], &flags);
            j = j + 1;
        }
        let mut i: usize = 0;
        while i < n
            invariant
                i <= n,
                n == c.function_definitions.len(),
                fs0.len() == n,
                contract_calls_in_range(*old(c)),
                fs0 == old(c).function_definitions@,
                flags@ == indirect_pass(fs0, i as nat),
                flags.len() == n,
                forall|k: int| 0 <= k < n ==> (#[trigger] c.function_definitions@[k]) == (ConstructorOrFunctionDefinition {
                    can_be_private: flags@[k],
                    ..fs0[k]
                }),
                c.constructor_definitions.len() == old(c).constructor_definitions.len(),
                forall|k: int| 0 <= k < old(c).constructor_definitions.len() ==> (#[trigger] c.constructor_definitions@[k]) == (
                ConstructorOrFunctionDefinition {
                    can_be_private: old(c).constructor_definitions@[k].can_be_private && calls_only_private(
                        old(c).constructor_definitions@[k].called_functions@,
                        fn_flags(old(c).function_definitions@),
                    ),
                    ..old(c).constructor_definitions@[k]
                }),
                c.id == old(c).id,
                c.idf == old(c).idf,
                c.state_variable_declarations == old(c).state_variable_declarations,
                c.enum_definitions == old(c).enum_definitions,
                c.parent == old(c).parent,
                c.namespace == old(c).namespace,
            decreases n - i,
        {
            proof {
                lemma_indirect_pass_len(fs0, i as nat);
                assert(calls_in_range(fs0[i as int].called_functions@, n as int));
                assert(c.function_definitions@[i as int].called_functions == fs0[i as int].called_functions);
            }
            self.visitConstructorOrFunctionDefinition(&mut c.function_definitions[i], &flags);
            let v = c.function_definitions[i].can_be_private;
            flags.set(i, v);
            i = i + 1;
            proof {
                assert(flags@ =~= indirect_pass(fs0, i as nat));
            }
        }
    }
}

pub proof fn lemma_indirect_pass_len(fs: Seq<ConstructorOrFunctionDefinition>, k: nat)
    ensures
        indirect_pass(fs, k).len() == fs.len(),
    decreases k,
{
    if k > 0 && k <= fs.len() {
        lemma_indirect_pass_len(fs, (k - 1) as nat);
    }
}

/// Whatever a function called in `called` calls is in `called` too.
pub open spec fn calls_closed(called: Seq<usize>, fs: Seq<ConstructorOrFunctionDefinition>) -> bool {
    forall|i: int, j: int|
        0 <= i < called.len() && 0 <= j < fs[called[i] as int].called_functions.len() ==> called.contains(
            #[trigger] fs[called[i] as int].called_functions@[j],
        )
}

/// The call lists of the functions are indices into them and transitively
/// closed, as the call graph analysis leaves them.
pub open spec fn call_graph_closed(fs: Seq<ConstructorOrFunctionDefinition>) -> bool {
    forall|f: int|
        0 <= f < fs.len() ==> calls_in_range((#[trigger] fs[f]).called_functions@, fs.len() as int) && calls_closed(
            fs[f].called_functions@,
            fs,
        )
}

proof fn lemma_pass_unprocessed(fs: Seq<ConstructorOrFunctionDefinition>, k: nat, j: int)
    requires
        k <= j < fs.len(),
    ensures
        indirect_pass(fs, k)[j] == fs[j].can_be_private,
    decreases k,
{
    if k > 0 {
        lemma_indirect_pass_len(fs, (k - 1) as nat);
        lemma_pass_unprocessed(fs, (k - 1) as nat, j);
    }
}

proof fn lemma_pass_processed(fs: Seq<ConstructorOrFunctionDefinition>, k: nat, j: int)
    requires
        0 <= j < k <= fs.len(),
    ensures
        indirect_pass(fs, k)[j] == indirect_pass(fs, (j + 1) as nat)[j],
    decreases k,
{
    if k > j + 1 {
        lemma_indirect_pass_len(fs, (k - 1) as nat);
        lemma_pass_processed(fs, (k - 1) as nat, j);
    }
}

proof fn lemma_pass_only_clears(fs: Seq<ConstructorOrFunctionDefinition>, k: nat, j: int)
    requires
        0 <= j < fs.len(),
        indirect_pass(fs, k)[j],
    ensures
        fs[j].can_be_private,
    decreases k,
{
    if k > 0 && k <= fs.len() {
        lemma_indirect_pass_len(fs, (k - 1) as nat);
        lemma_pass_only_clears(fs, (k - 1) as nat, j);
    }
}

/// A function reachable through a closed set of calls whose functions all
/// start out able to be private keeps that through the pass.
proof fn lemma_closed_calls_stay_private(fs: Seq<ConstructorOrFunctionDefinition>, c: Seq<usize>, g: int)
    requires
        call_graph_closed(fs),
        calls_in_range(c, fs.len() as int),
        calls_closed(c, fs),
        0 <= g < fs.len(),
        exists|x: int| 0 <= x < c.len() && #[trigger] c[x] as int == g,
        forall|x: int| 0 <= x < c.len() ==> fs[#[trigger] c[x] as int].can_be_private,
    ensures
        indirect_pass(fs, fs.len() as nat)[g],
    decreases g,
{
    let n = fs.len() as nat;
    lemma_pass_processed(fs, n, g);
    lemma_indirect_pass_len(fs, g as nat);
    lemma_pass_unprocessed(fs, g as nat, g);
    let prev = indirect_pass(fs, g as nat);
    let called = fs[g].called_functions@;
    assert(calls_in_range(called, fs.len() as int));
    let xg = choose|x: int| 0 <= x < c.len() && #[trigger] c[x] as int == g;
    assert forall|i: int| 0 <= i < called.len() implies #[trigger] prev[called[i] as int] by {
        let h = called[i] as int;
        assert(fs[c[xg] as int].called_functions@[i] == called[i]);
        assert(c.contains(fs[c[xg] as int].called_functions@[i]));
        let xh = choose|x: int| 0 <= x < c.len() && c[x] == called[i];
        assert(c[xh] as int == h);
        assert(fs[c[xh] as int].can_be_private);
        if h >= g {
            lemma_pass_unprocessed(fs, g as nat, h);
        } else {
            lemma_closed_calls_stay_private(fs, c, h);
            lemma_pass_processed(fs, g as nat, h);
            lemma_pass_processed(fs, n, h);
        }
    }
}

/// After the pass over a contract's functions, with calls as the call graph
/// analysis leaves them, a function that can be private calls only functions
/// that can be private.
pub proof fn law_private_functions_call_private_functions(fs: Seq<ConstructorOrFunctionDefinition>, f: int, i: int)
    requires
        call_graph_closed(fs),
        0 <= f < fs.len(),
        0 <= i < fs[f].called_functions.len(),
        indirect_pass(fs, fs.len() as nat)[f],
    ensures
        indirect_pass(fs, fs.len() as nat)[fs[f].called_functions@[i] as int],
{
    let n = fs.len() as nat;
    let called = fs[f].called_functions@;
    assert(calls_in_range(called, fs.len() as int) && calls_closed(called, fs));
    lemma_pass_processed(fs, n, f);
    lemma_indirect_pass_len(fs, f as nat);
    assert forall|x: int| 0 <= x < called.len() implies fs[#[trigger] called[x] as int].can_be_private by {
        assert(indirect_pass(fs, f as nat)[called[x] as int]);
        lemma_pass_only_clears(fs, f as nat, called[x] as int);
    }
    assert(called[i] as int == called[i] as int);
    lemma_closed_calls_stay_private(fs, called, called[i] as int);
}

/// After the pass, a constructor that can be private (its flag as the pass
/// leaves it, see `visitContractDefinition`) calls only functions that can be
/// private, with calls as the call graph analysis leaves them.
pub proof fn law_private_constructors_call_private_functions(
    fs: Seq<ConstructorOrFunctionDefinition>,
    ctor: ConstructorOrFunctionDefinition,
    i: int,
)
    requires
        call_graph_closed(fs),
        calls_in_range(ctor.called_functions@, fs.len() as int),
        calls_closed(ctor.called_functions@, fs),
        0 <= i < ctor.called_functions.len(),
        ctor.can_be_private && calls_only_private(ctor.called_functions@, fn_flags(fs)),
    ensures
        indirect_pass(fs, fs.len() as nat)[ctor.called_functions@[i] as int],
{
    let called = ctor.called_functions@;
    assert forall|x: int| 0 <= x < called.len() implies fs[#[trigger] called[x] as int].can_be_private by {
        assert(fn_flags(fs)[called[x] as int]);
    }
    assert(called[i] as int == called[i] as int);
    lemma_closed_calls_stay_private(fs, called, called[i] as int);
}

/// Why the call `e`, evaluated privately, cannot be inlined into a circuit:
/// it calls a function whose body is not static or that cannot be private, or
/// an operation without a circuit; `None` where it can (or is not such a call).
pub open spec fn call_violation(e: Expr, fns: Seq<ConstructorOrFunctionDefinition>) -> Option<TypeError> {
    match e.kind {
        ExprKind::FunctionCall { func, args } => if !e.evaluate_privately {
            None
        } else {
            match func {
                Callee::Location(f) => if is_cast_callee(*f) {
                    None
                } else {
                    match location_target(*f) {
                        Some(t) => match t.kind {
                            DeclKind::Function(idx) => if idx >= fns.len() {
                                Some(TypeError::UnresolvedTarget)
                            } else if !fns[idx as int].has_static_body {
                                Some(TypeError::NonStaticCallInPrivateExpr)
                            } else if !fns[idx as int].can_be_private {
                                Some(TypeError::NonCircuitCallInPrivateExpr)
                            } else {
                                None
                            },
                            _ => Some(TypeError::UnresolvedTarget),
                        },
                        None => Some(TypeError::UnresolvedTarget),
                    }
                },
                Callee::Builtin(b) => if (b.op.spec_can_be_private() || e.ty().ty.spec_is_literal()) && ((b.op.spec_is_eq()
                    || b.op == BuiltinOp::Ite) ==> args.len() > 1 && args@[1].ty().ty.spec_can_be_private()) {
                    None
                } else {
                    Some(TypeError::NonCircuitCallInPrivateExpr)
                },
            }
        },
        _ => None,
    }
}

/// Some call in `e` has the violation `err` (see `call_violation`).
pub open spec fn has_violation_of(e: Expr, fns: Seq<ConstructorOrFunctionDefinition>, err: TypeError) -> bool
    decreases e,
{
    ||| call_violation(e, fns) == Some(err)
    ||| match e.kind {
        ExprKind::Index { arr, key } => has_violation_of(*arr, fns, err) || has_violation_of(*key, fns, err),
        ExprKind::MemberAccess { expr, .. } => has_violation_of(*expr, fns, err),
        ExprKind::FunctionCall { func, args } => {
            ||| (func matches Callee::Location(f) && has_violation_of(*f, fns, err))
            ||| exists|i: int| 0 <= i < args.len() && has_violation_of(#[trigger] args@[i], fns, err)
        },
        ExprKind::PrimitiveCast { expr, .. } => has_violation_of(*expr, fns, err),
        ExprKind::Reclassify { expr, .. } => has_violation_of(*expr, fns, err),
        ExprKind::Tuple(elems) => exists|i: int| 0 <= i < elems.len() && has_violation_of(#[trigger] elems@[i], fns, err),
        ExprKind::New { args, .. } => exists|i: int| 0 <= i < args.len() && has_violation_of(#[trigger] args@[i], fns, err),
        _ => false,
    }
}

/// Some call in `e` cannot be inlined into a circuit.
pub open spec fn has_call_violation(e: Expr, fns: Seq<ConstructorOrFunctionDefinition>) -> bool
    decreases e,
{
    ||| call_violation(e, fns) is Some
    ||| match e.kind {
        ExprKind::Index { arr, key } => has_call_violation(*arr, fns) || has_call_violation(*key, fns),
        ExprKind::MemberAccess { expr, .. } => has_call_violation(*expr, fns),
        ExprKind::FunctionCall { func, args } => {
            ||| (func matches Callee::Location(f) && has_call_violation(*f, fns))
            ||| exists|i: int| 0 <= i < args.len() && has_call_violation(#[trigger] args@[i], fns)
        },
        ExprKind::PrimitiveCast { expr, .. } => has_call_violation(*expr, fns),
        ExprKind::Reclassify { expr, .. } => has_call_violation(*expr, fns),
        ExprKind::Tuple(elems) => exists|i: int| 0 <= i < elems.len() && has_call_violation(#[trigger] elems@[i], fns),
        ExprKind::New { args, .. } => exists|i: int| 0 <= i < args.len() && has_call_violation(#[trigger] args@[i], fns),
        _ => false,
    }
}

/// The violation reported for `e`: that of the node itself, or else the first
/// one among its parts, in order.
pub open spec fn first_call_violation(e: Expr, fns: Seq<ConstructorOrFunctionDefinition>) -> Option<TypeError>
    decreases e, 1nat,
{
    first_error(
        call_violation(e, fns),
        match e.kind {
            ExprKind::Index { arr, key } => first_error(first_call_violation(*arr, fns), first_call_violation(*key, fns)),
            ExprKind::MemberAccess { expr, .. } => first_call_violation(*expr, fns),
            ExprKind::FunctionCall { func, args } => first_error(
                match func {
                    Callee::Location(f) => first_call_violation(*f, fns),
                    Callee::Builtin(_) => None,
                },
                exprs_first_call_violation(args@, fns),
            ),
            ExprKind::PrimitiveCast { expr, .. } => first_call_violation(*expr, fns),
            ExprKind::Reclassify { expr, .. } => first_call_violation(*expr, fns),
            ExprKind::Tuple(elems) => exprs_first_call_violation(elems@, fns),
            ExprKind::New { args, .. } => exprs_first_call_violation(args@, fns),
            _ => None,
        },
    )
}

/// The violation reported for the first of the expressions that has one.
pub open spec fn exprs_first_call_violation(es: Seq<Expr>, fns: Seq<ConstructorOrFunctionDefinition>) -> Option<TypeError>
    decreases es, 0nat,
{
    if es.len() == 0 {
        None
    } else {
        first_error(first_call_violation(es[0], fns), exprs_first_call_violation(es.subrange(1, es.len() as int), fns))
    }
}

/// A violation is reported exactly where a call has one.
pub proof fn lemma_first_call_violation(e: Expr, fns: Seq<ConstructorOrFunctionDefinition>)
    ensures
        first_call_violation(e, fns) is Some <==> has_call_violation(e, fns),
    decreases e, 1nat,
{
    match e.kind {
        ExprKind::Index { arr, key } => {
            lemma_first_call_violation(*arr, fns);
            lemma_first_call_violation(*key, fns);
        },
        ExprKind::MemberAccess { expr, .. } => lemma_first_call_violation(*expr, fns),
        ExprKind::FunctionCall { func, args } => {
            if let Callee::Location(f) = func {
                lemma_first_call_violation(*f, fns);
            }
            lemma_exprs_first_call_violation(args@, fns);
        },
        ExprKind::PrimitiveCast { expr, .. } => lemma_first_call_violation(*expr, fns),
        ExprKind::Reclassify { expr, .. } => lemma_first_call_violation(*expr, fns),
        ExprKind::Tuple(elems) => lemma_exprs_first_call_violation(elems@, fns),
        ExprKind::New { args, .. } => lemma_exprs_first_call_violation(args@, fns),
        _ => {},
    }
}

proof fn lemma_exprs_first_call_violation(es: Seq<Expr>, fns: Seq<ConstructorOrFunctionDefinition>)
    ensures
        exprs_first_call_violation(es, fns) is Some <==> exists|i: int| 0 <= i < es.len() && has_call_violation(#[trigger] es[i], fns),
    decreases es, 0nat,
{
    if es.len() > 0 {
        let rest = es.subrange(1, es.len() as int);
        lemma_first_call_violation(es[0], fns);
        lemma_exprs_first_call_violation(rest, fns);
        if exprs_first_call_violation(rest, fns) is Some {
            let j = choose|j: int| 0 <= j < rest.len() && has_call_violation(#[trigger] rest[j], fns);
            assert(es[j + 1] == rest[j]);
        }
        if exists|i: int| 0 <= i < es.len() && has_call_violation(#[trigger] es[i], fns) {
            let i = choose|i: int| 0 <= i < es.len() && has_call_violation(#[trigger] es[i], fns);
            if i > 0 {
                assert(rest[i - 1] == es[i]);
            }
        }
    }
}

/// Finds calls inside private expressions that cannot be inlined into a circuit.
pub struct NonstaticOrIncompatibilityDetector {}

impl NonstaticOrIncompatibilityDetector {
    pub fn new() -> (r: NonstaticOrIncompatibilityDetector) {
        NonstaticOrIncompatibilityDetector {  }
    }

    /// Checks the call itself (see `call_violation`).
    fn check_call_node(&self, ast: &Expr, fns: &Vec<ConstructorOrFunctionDefinition>) -> (r: Result<(), TypeError>)
        requires
            ast.kind is FunctionCall,
            ast.spec_typed(),
        ensures
            r == match call_violation(*ast, fns@) {
                Some(e) => Err::<(), TypeError>(e),
                None => Ok(()),
            },
    {
        if !ast.evaluate_privately {
            return Ok(());
        }
        match &ast.kind {
            ExprKind::FunctionCall { func: Callee::Location(f), .. } => {
                let target = match &f.kind {
                    ExprKind::Identifier { target, .. } => target,
                    ExprKind::MemberAccess { target, .. } => target,
                    _ => &None,
                };
                match target {
                    Some(t) => match t.kind {
                        DeclKind::Enum | DeclKind::Contract => Ok(()),
                        DeclKind::Function(idx) => if idx >= fns.len() {
                            Err(TypeError::UnresolvedTarget)
                        } else if !fns[idx].has_static_body {
                            Err(TypeError::NonStaticCallInPrivateExpr)
                        } else if !fns[idx].can_be_private {
                            Err(TypeError::NonCircuitCallInPrivateExpr)
                        } else {
                            Ok(())
                        },
                        _ => Err(TypeError::UnresolvedTarget),
                    },
                    None => Err(TypeError::UnresolvedTarget),
                }
            },
            ExprKind::FunctionCall { func: Callee::Builtin(b), args } => {
                let literal = match &ast.annotated_type {
                    Some(a) => a.ty.is_literal(),
                    None => false,
                };
                let mut ok = b.op.can_be_private() || literal;
                if b.op.is_eq() || b.op == BuiltinOp::Ite {
                    proof {
                        if args.len() > 1 {
                            assert(args@[1].spec_typed());
                        }
                    }
                    ok = ok && args.len() > 1 && match &args[1].annotated_type {
                        Some(a) => a.ty.can_be_private(),
                        None => false,
                    };
                }
                if ok {
                    Ok(())
                } else {
                    Err(TypeError::NonCircuitCallInPrivateExpr)
                }
            },
            _ => Ok(()),
        }
    }

    /// Checks the call, then the calls in its callee and arguments.
    pub fn visitFunctionCallExpr(&self, ast: &Expr, fns: &Vec<ConstructorOrFunctionDefinition>) -> (r: Result<(), TypeError>)
        requires
            ast.kind is FunctionCall,
            ast.spec_typed(),
        ensures
            r is Ok <==> !has_call_violation(*ast, fns@),
            r matches Err(x) ==> has_violation_of(*ast, fns@, x),
            r == match first_call_violation(*ast, fns@) {
                Some(x) => Err::<(), TypeError>(x),
                None => Ok(()),
            },
        decreases ast, 1nat,
    {
        proof {
            lemma_first_call_violation(*ast, fns@);
            let ga = *ast;
            match ga.kind {
                ExprKind::FunctionCall { func: Callee::Location(f), .. } => lemma_first_call_violation(*f, fns@),
                _ => {},
            }
        }
        self.check_call_node(ast, fns)?;
        match &ast.kind {
            ExprKind::FunctionCall { func, args } => {
                if let Callee::Location(f) = func {
                    self.visitExpression(f, fns)?;
                }
                proof {
                    assert(decreases_to!(*ast => ast.kind));
                    assert(decreases_to!(ast.kind => ast.kind->FunctionCall_args));
                }
                self.visit_all(args, fns, Ghost(*ast))
            },
            _ => Ok(()),
        }
    }

    /// Checks every call in `ast`, the node before its children.
    pub fn visitExpression(&self, ast: &Expr, fns: &Vec<ConstructorOrFunctionDefinition>) -> (r: Result<(), TypeError>)
        requires
            ast.spec_typed(),
        ensures
            r is Ok <==> !has_call_violation(*ast, fns@),
            r matches Err(x) ==> has_violation_of(*ast, fns@, x),
            r == match first_call_violation(*ast, fns@) {
                Some(x) => Err::<(), TypeError>(x),
                None => Ok(()),
            },
        decreases ast, 2nat,
    {
        proof {
            lemma_first_call_violation(*ast, fns@);
            let ga = *ast;
            match ga.kind {
                ExprKind::Index { arr, key } => {
                    lemma_first_call_violation(*arr, fns@);
                    lemma_first_call_violation(*key, fns@);
                },
                _ => {},
            }
        }
        match &ast.kind {
            ExprKind::Index { arr, key } => {
                self.visitExpression(arr, fns)?;
                self.visitExpression(key, fns)
            },
            ExprKind::MemberAccess { expr, .. } => self.visitExpression(expr, fns),
            ExprKind::FunctionCall { .. } => self.visitFunctionCallExpr(ast, fns),
            ExprKind::PrimitiveCast { expr, .. } => self.visitExpression(expr, fns),
            ExprKind::Reclassify { expr, .. } => self.visitExpression(expr, fns),
            ExprKind::Tuple(elems) => self.visit_all(elems, fns, Ghost(*ast)),
            ExprKind::New { args, .. } => self.visit_all(args, fns, Ghost(*ast)),
            _ => Ok(()),
        }
    }

    fn visit_all(&self, es: &Vec<Expr>, fns: &Vec<ConstructorOrFunctionDefinition>, Ghost(whole): Ghost<Expr>) -> (r: Result<
        (),
        TypeError,
    >)
        requires
            decreases_to!(whole => *es),
            forall|i: int| 0 <= i < es.len() ==> (#[trigger] es@[i]).spec_typed(),
        ensures
            r is Ok <==> !(exists|i: int| 0 <= i < es.len() && has_call_violation(#[trigger] es@[i], fns@)),
            r matches Err(x) ==> exists|i: int| 0 <= i < es.len() && has_violation_of(#[trigger] es@[i], fns@, x),
            r == match exprs_first_call_violation(es@, fns@) {
                Some(x) => Err::<(), TypeError>(x),
                None => Ok(()),
            },
        decreases whole, 0nat,
    {
        let mut i: usize = 0;
        assert(es@.subrange(0, es.len() as int) =~= es@);
        while i < es.len()
            invariant
                i <= es.len(),
                decreases_to!(whole => *es),
                forall|j: int| 0 <= j < es.len() ==> (#[trigger] es@[j]).spec_typed(),
                forall|j: int| 0 <= j < i ==> !has_call_violation(#[trigger] es@[j], fns@),
                exprs_first_call_violation(es@, fns@) == exprs_first_call_violation(es@.subrange(i as int, es.len() as int), fns@),
            decreases es.len() - i,
        {
            proof {
                vstd::std_specs::vec::axiom_vec_index_decreases(*es, i as int);
                let sub = es@.subrange(i as int, es.len() as int);
                assert(sub[0] == es@[i as int]);
                assert(sub.subrange(1, sub.len() as int) =~= es@.subrange(i + 1, es.len() as int));
                lemma_first_call_violation(es@[i as int], fns@);
            }
            let r = self.visitExpression(&es[i], fns);
            if r.is_err() {
                proof {
                    assert(has_call_violation(es@[i as int], fns@));
                }
                return r;
            }
            i = i + 1;
        }
        Ok(())
    }
}

/// Checks that no call inside a private part of `ast` has a violation (see
/// `call_violation`).
pub fn check_for_nonstatic_function_calls_or_not_circuit_inlineable_in_private_exprs(
    ast: &Expr,
    fns: &Vec<ConstructorOrFunctionDefinition>,
) -> (r: Result<(), TypeError>)
    requires
        ast.spec_typed(),
    ensures
        r is Ok <==> !has_call_violation(*ast, fns@),
        r matches Err(x) ==> has_violation_of(*ast, fns@, x),
        r == match first_call_violation(*ast, fns@) {
            Some(x) => Err::<(), TypeError>(x),
            None => Ok(()),
        },
{
    NonstaticOrIncompatibilityDetector::new().visitExpression(ast, fns)
}

/// `new` is `old` with every expression in it (the callee of a call too)
/// evaluated privately exactly when `flag` holds; nothing else changes.
pub open spec fn evaluation_set(old: Expr, new: Expr, flag: bool) -> bool
    decreases old,
{
    &&& new == Expr { evaluate_privately: flag, kind: new.kind, ..old }
    &&& match (old.kind, new.kind) {
        (ExprKind::Index { arr: a1, key: k1 }, ExprKind::Index { arr: a2, key: k2 }) => evaluation_set(*a1, *a2, flag)
            && evaluation_set(*k1, *k2, flag),
        (
            ExprKind::MemberAccess { expr: e1, member: m1, target: t1 },
            ExprKind::MemberAccess { expr: e2, member: m2, target: t2 },
        ) => m1 == m2 && t1 == t2 && evaluation_set(*e1, *e2, flag),
        (ExprKind::FunctionCall { func: f1, args: a1 }, ExprKind::FunctionCall { func: f2, args: a2 }) => {
            &&& match (f1, f2) {
                (Callee::Builtin(b1), Callee::Builtin(b2)) => b1 == b2,
                (Callee::Location(l1), Callee::Location(l2)) => evaluation_set(*l1, *l2, flag),
                _ => false,
            }
            &&& a1.len() == a2.len()
            &&& forall|i: int| 0 <= i < a1.len() ==> evaluation_set(#[trigger] a1@[i], a2@[i], flag)
        },
        (
            ExprKind::PrimitiveCast { elem_type: t1, expr: e1, is_implicit: i1 },
            ExprKind::PrimitiveCast { elem_type: t2, expr: e2, is_implicit: i2 },
        ) => t1 == t2 && i1 == i2 && evaluation_set(*e1, *e2, flag),
        (
            ExprKind::Reclassify { expr: e1, privacy: p1, homomorphism: h1, is_rehom: r1 },
            ExprKind::Reclassify { expr: e2, privacy: p2, homomorphism: h2, is_rehom: r2 },
        ) => p1 == p2 && h1 == h2 && r1 == r2 && evaluation_set(*e1, *e2, flag),
        (ExprKind::Tuple(a1), ExprKind::Tuple(a2)) => {
            &&& a1.len() == a2.len()
            &&& forall|i: int| 0 <= i < a1.len() ==> evaluation_set(#[trigger] a1@[i], a2@[i], flag)
        },
        (ExprKind::New { ty: t1, args: a1 }, ExprKind::New { ty: t2, args: a2 }) => {
            &&& t1 == t2
            &&& a1.len() == a2.len()
            &&& forall|i: int| 0 <= i < a1.len() ==> evaluation_set(#[trigger] a1@[i], a2@[i], flag)
        },
        (ExprKind::Index { .. }, _) | (ExprKind::MemberAccess { .. }, _) | (ExprKind::FunctionCall { .. }, _) | (
            ExprKind::PrimitiveCast { .. },
            _,
        ) | (ExprKind::Reclassify { .. }, _) | (ExprKind::Tuple(_), _) | (ExprKind::New { .. }, _) => false,
        _ => new.kind == old.kind,
    }
}

/// The call `e` calls a function with side effects.
pub open spec fn calls_side_effect(e: Expr, effects: Seq<bool>) -> bool {
    &&& e.kind matches ExprKind::FunctionCall { func: Callee::Location(f), .. }
    &&& !is_cast_callee(*e.kind->FunctionCall_func->Location_0)
    &&& location_target(*e.kind->FunctionCall_func->Location_0) matches Some(t)
    &&& t.kind matches DeclKind::Function(idx)
    &&& idx < effects.len()
    &&& effects[idx as int]
}

/// Some call in `e` calls a function with side effects.
pub open spec fn has_side_effect_call(e: Expr, effects: Seq<bool>) -> bool
    decreases e,
{
    ||| calls_side_effect(e, effects)
    ||| match e.kind {
        ExprKind::Index { arr, key } => has_side_effect_call(*arr, effects) || has_side_effect_call(*key, effects),
        ExprKind::MemberAccess { expr, .. } => has_side_effect_call(*expr, effects),
        ExprKind::FunctionCall { func, args } => {
            ||| (func matches Callee::Location(f) && has_side_effect_call(*f, effects))
            ||| exists|i: int| 0 <= i < args.len() && has_side_effect_call(#[trigger] args@[i], effects)
        },
        ExprKind::PrimitiveCast { expr, .. } => has_side_effect_call(*expr, effects),
        ExprKind::Reclassify { expr, .. } => has_side_effect_call(*expr, effects),
        ExprKind::Tuple(elems) => exists|i: int| 0 <= i < elems.len() && has_side_effect_call(#[trigger] elems@[i], effects),
        ExprKind::New { args, .. } => exists|i: int| 0 <= i < args.len() && has_side_effect_call(#[trigger] args@[i], effects),
        _ => false,
    }
}

fn calls_side_effect_exec(e: &Expr, effects: &Vec<bool>) -> (r: bool)
    ensures
        r == calls_side_effect(*e, effects@),
{
    match &e.kind {
        ExprKind::FunctionCall { func: Callee::Location(f), .. } => {
            let target = match &f.kind {
                ExprKind::Identifier { target, .. } => target,
                ExprKind::MemberAccess { target, .. } => target,
                _ => &None,
            };
            match target {
                Some(t) => match t.kind {
                    DeclKind::Function(idx) => idx < effects.len() && effects[idx],
                    _ => false,
                },
                None => false,
            }
        },
        _ => false,
    }
}

/// Sets the private evaluation of `e` and everything in it to `flag`; a call
/// of a function with side effects cannot be evaluated privately.
fn set_expr_evaluation(e: Expr, flag: bool, effects: &Vec<bool>) -> (r: Result<Expr, TypeError>)
    ensures
        r is Err <==> flag && has_side_effect_call(e, effects@),
        r is Err ==> r == Err::<Expr, TypeError>(TypeError::SideEffectInPrivateExpr),
        r matches Ok(x) ==> evaluation_set(e, x, flag),
    decreases e, 1nat,
{
    if flag && calls_side_effect_exec(&e, effects) {
        return Err(TypeError::SideEffectInPrivateExpr);
    }
    let ghost ge = e;
    let Expr { id, kind, annotated_type, evaluate_privately: _, line, column, parent, statement, namespace } = e;
    let new_kind = match kind {
        ExprKind::Index { arr, key } => {
            let a = set_expr_evaluation(*arr, flag, effects)?;
            let k = set_expr_evaluation(*key, flag, effects)?;
            ExprKind::Index { arr: Box::new(a), key: Box::new(k) }
        },
        ExprKind::MemberAccess { expr, member, target } => {
            let x = set_expr_evaluation(*expr, flag, effects)?;
            ExprKind::MemberAccess { expr: Box::new(x), member, target }
        },
        ExprKind::FunctionCall { func, args } => {
            let new_func = match func {
                Callee::Builtin(b) => Callee::Builtin(b),
                Callee::Location(l) => Callee::Location(Box::new(set_expr_evaluation(*l, flag, effects)?)),
            };
            proof {
                assert(decreases_to!(ge => ge.kind));
                assert(decreases_to!(ge.kind => ge.kind->FunctionCall_args));
            }
            ExprKind::FunctionCall { func: new_func, args: set_exprs_evaluation(args, flag, effects, Ghost(ge))? }
        },
        ExprKind::PrimitiveCast { elem_type, expr, is_implicit } => {
            let x = set_expr_evaluation(*expr, flag, effects)?;
            ExprKind::PrimitiveCast { elem_type, expr: Box::new(x), is_implicit }
        },
        ExprKind::Reclassify { expr, privacy, homomorphism, is_rehom } => {
            let x = set_expr_evaluation(*expr, flag, effects)?;
            ExprKind::Reclassify { expr: Box::new(x), privacy, homomorphism, is_rehom }
        },
        ExprKind::Tuple(elems) => {
            proof {
                assert(decreases_to!(ge => ge.kind));
                assert(decreases_to!(ge.kind => ge.kind->Tuple_0));
            }
            ExprKind::Tuple(set_exprs_evaluation(elems, flag, effects, Ghost(ge))?)
        },
        ExprKind::New { ty, args } => {
            proof {
                assert(decreases_to!(ge => ge.kind));
                assert(decreases_to!(ge.kind => ge.kind->New_args));
            }
            ExprKind::New { ty, args: set_exprs_evaluation(args, flag, effects, Ghost(ge))? }
        },
        other => other,
    };
    Ok(Expr { id, kind: new_kind, annotated_type, evaluate_privately: flag, line, column, parent, statement, namespace })
}

fn set_exprs_evaluation(
    args: Vec<Expr>,
    flag: bool,
    effects: &Vec<bool>,
    Ghost(whole): Ghost<Expr>,
) -> (r: Result<Vec<Expr>, TypeError>)
    requires
        decreases_to!(whole => args),
    ensures
        r is Err <==> flag && exists|i: int| 0 <= i < args.len() && has_side_effect_call(#[trigger] args@[i], effects@),
        r is Err ==> r == Err::<Vec<Expr>, TypeError>(TypeError::SideEffectInPrivateExpr),
        r matches Ok(v) ==> v.len() == args.len() && forall|i: int|
            0 <= i < args.len() ==> evaluation_set(#[trigger] args@[i], v@[i], flag),
    decreases whole, 0nat,
{
    let ghost old_args = args;
    let mut rest = args;
    let mut out: Vec<Expr> = Vec::new();
    while rest.len() > 0
        invariant
            out.len() + rest.len() == old_args.len(),
            rest@ == old_args@.subrange(out.len() as int, old_args.len() as int),
            decreases_to!(whole => old_args),
            old_args == args,
            forall|j: int| 0 <= j < out.len() ==> evaluation_set(#[trigger] old_args@[j], out@[j], flag),
            forall|j: int| 0 <= j < out.len() ==> !(flag && has_side_effect_call(#[trigger] old_args@[j], effects@)),
        decreases rest.len(),
    {
        let k = rest.remove(0);
        let ghost i = out.len() as int;
        proof {
            assert(k == old_args@[i]);
            vstd::std_specs::vec::axiom_vec_index_decreases(old_args, i);
        }
        let nk = set_expr_evaluation(k, flag, effects);
        match nk {
            Ok(x) => out.push(x),
            Err(e) => {
                proof {
                    assert(flag);
                    assert(has_side_effect_call(old_args@[i], effects@));
                    assert(has_side_effect_call(args@[i], effects@));
                }
                return Err(e);
            },
        }
    }
    Ok(out)
}

/// Sets the private evaluation of the expressions of a subtree.
pub struct PrivateSetter {
    /// The evaluation being set, while one is.
    pub evaluate_privately: Option<bool>,
}

impl PrivateSetter {
    pub fn new() -> (r: PrivateSetter)
        ensures
            r.evaluate_privately is None,
    {
        PrivateSetter { evaluate_privately: None }
    }

    /// Sets the private evaluation of `ast` and everything in it (see
    /// `evaluation_set`); a call of a function with side effects cannot be
    /// evaluated privately.
    pub fn set_evaluation(&mut self, ast: Expr, evaluate_privately: bool, effects: &Vec<bool>) -> (r: Result<
        Expr,
        TypeError,
    >)
        ensures
            final(self).evaluate_privately is None,
            r is Err <==> evaluate_privately && has_side_effect_call(ast, effects@),
            r is Err ==> r == Err::<Expr, TypeError>(TypeError::SideEffectInPrivateExpr),
            r matches Ok(x) ==> evaluation_set(ast, x, evaluate_privately),
    {
        self.evaluate_privately = Some(evaluate_privately);
        let r = self.visitExpression(ast, effects);
        self.evaluate_privately = None;
        r
    }

    /// A call: checked for side effects, then set like any expression.
    pub fn visitFunctionCallExpr(&self, ast: Expr, effects: &Vec<bool>) -> (r: Result<Expr, TypeError>)
        requires
            self.evaluate_privately is Some,
            ast.kind is FunctionCall,
        ensures
            r is Err <==> self.evaluate_privately.unwrap() && has_side_effect_call(ast, effects@),
            r is Err ==> r == Err::<Expr, TypeError>(TypeError::SideEffectInPrivateExpr),
            r matches Ok(x) ==> evaluation_set(ast, x, self.evaluate_privately.unwrap()),
    {
        let flag = match self.evaluate_privately {
            Some(f) => f,
            None => false,
        };
        if flag && calls_side_effect_exec(&ast, effects) {
            return Err(TypeError::SideEffectInPrivateExpr);
        }
        set_expr_evaluation(ast, flag, effects)
    }

    /// Sets the evaluation of `ast` and its children.
    pub fn visitExpression(&self, ast: Expr, effects: &Vec<bool>) -> (r: Result<Expr, TypeError>)
        requires
            self.evaluate_privately is Some,
        ensures
            r is Err <==> self.evaluate_privately.unwrap() && has_side_effect_call(ast, effects@),
            r is Err ==> r == Err::<Expr, TypeError>(TypeError::SideEffectInPrivateExpr),
            r matches Ok(x) ==> evaluation_set(ast, x, self.evaluate_privately.unwrap()),
    {
        let flag = match self.evaluate_privately {
            Some(f) => f,
            None => false,
        };
        set_expr_evaluation(ast, flag, effects)
    }
}

/// Whether some call in `e` calls a function with side effects.
pub fn has_side_effect_call_exec(e: &Expr, effects: &Vec<bool>) -> (r: bool)
    ensures
        r == has_side_effect_call(*e, effects@),
    decreases e, 1nat,
{
    if calls_side_effect_exec(e, effects) {
        return true;
    }
    match &e.kind {
        ExprKind::Index { arr, key } => has_side_effect_call_exec(arr, effects) || has_side_effect_call_exec(key, effects),
        ExprKind::MemberAccess { expr, .. } => has_side_effect_call_exec(expr, effects),
        ExprKind::FunctionCall { func, args } => {
            if let Callee::Location(f) = func {
                if has_side_effect_call_exec(f, effects) {
                    return true;
                }
            }
            proof {
                assert(decreases_to!(*e => e.kind));
                assert(decreases_to!(e.kind => e.kind->FunctionCall_args));
            }
            any_side_effect_call(args, effects, Ghost(*e))
        },
        ExprKind::PrimitiveCast { expr, .. } => has_side_effect_call_exec(expr, effects),
        ExprKind::Reclassify { expr, .. } => has_side_effect_call_exec(expr, effects),
        ExprKind::Tuple(elems) => any_side_effect_call(elems, effects, Ghost(*e)),
        ExprKind::New { args, .. } => any_side_effect_call(args, effects, Ghost(*e)),
        _ => false,
    }
}

fn any_side_effect_call(es: &Vec<Expr>, effects: &Vec<bool>, Ghost(whole): Ghost<Expr>) -> (r: bool)
    requires
        decreases_to!(whole => *es),
    ensures
        r == exists|i: int| 0 <= i < es.len() && has_side_effect_call(#[trigger] es@[i], effects@),
    decreases whole, 0nat,
{
    let mut i: usize = 0;
    while i < es.len()
        invariant
            i <= es.len(),
            decreases_to!(whole => *es),
            forall|j: int| 0 <= j < i ==> !has_side_effect_call(#[trigger] es@[j], effects@),
        decreases es.len() - i,
    {
        proof {
            vstd::std_specs::vec::axiom_vec_index_decreases(*es, i as int);
        }
        if has_side_effect_call_exec(&es[i], effects) {
            return true;
        }
        i = i + 1;
    }
    false
}

/// A public expression is better evaluated in the circuit: with the
/// optimisation on, a literal or a cast of a literal.
pub open spec fn should_eval_in_circuit(e: Expr, opt_eval_constexpr_in_circuit: bool) -> bool {
    &&& opt_eval_constexpr_in_circuit
    &&& {
        ||| e.ty().ty.spec_is_literal()
        ||| (e.kind matches ExprKind::PrimitiveCast { expr, .. } && expr.ty().ty.spec_is_literal())
    }
}

/// The node makes itself and everything in it private: a private call of a
/// built-in, a private cast to an enum, or a cast of a private value.
pub open spec fn node_sets_private(e: Expr) -> bool {
    match e.kind {
        ExprKind::FunctionCall { func: Callee::Builtin(b), .. } => b.is_private,
        ExprKind::FunctionCall { func: Callee::Location(f), .. } => is_cast_callee(*f) && e.ty().spec_is_private(),
        ExprKind::PrimitiveCast { expr, .. } => expr.ty().spec_is_private(),
        _ => false,
    }
}

/// The evaluation that the argument of a reclassification is given: a
/// public argument is evaluated privately only if it is better evaluated in
/// the circuit and has no side effects; a private one always.
pub open spec fn reclassify_arg_evaluation(
    e: Expr,
    effects: Seq<bool>,
    opt: bool,
) -> bool {
    if e.ty().spec_is_public() {
        should_eval_in_circuit(e, opt) && !has_side_effect_call(e, effects)
    } else {
        true
    }
}

/// The evaluation of a node: the one set from above (`over`), else its own.
pub open spec fn current_evaluation(e: Expr, over: Option<bool>) -> bool {
    if over is Some {
        over.unwrap()
    } else {
        e.evaluate_privately
    }
}

/// The evaluation set from above for the children of `e`.
pub open spec fn children_override(e: Expr, over: Option<bool>, effects: Seq<bool>, opt: bool) -> Option<bool> {
    match e.kind {
        ExprKind::Reclassify { expr, .. } => Some(reclassify_arg_evaluation(*expr, effects, opt)),
        _ => if node_sets_private(e) {
            Some(true)
        } else {
            over
        },
    }
}

/// What the compliance check makes of `old` when the evaluation `over` has
/// been set from above: every node keeps everything but its private
/// evaluation, which is decided from the node itself (see
/// `node_sets_private`, `reclassify_arg_evaluation`; the key of a private
/// index access is evaluated publicly).
pub open spec fn compliance_rel(
    old: Expr,
    new: Expr,
    over: Option<bool>,
    effects: Seq<bool>,
    opt: bool,
) -> bool
    decreases old,
{
    let cur = current_evaluation(old, over);
    let co = children_override(old, over, effects, opt);
    &&& new == Expr { evaluate_privately: new.evaluate_privately, kind: new.kind, ..old }
    &&& new.evaluate_privately == (cur || node_sets_private(old) || old.kind is Reclassify)
    &&& match (old.kind, new.kind) {
        (ExprKind::Index { arr: a1, key: k1 }, ExprKind::Index { arr: a2, key: k2 }) => {
            &&& compliance_rel(*a1, *a2, co, effects, opt)
            &&& compliance_rel(*k1, *k2, if cur { Some(false) } else { co }, effects, opt)
        },
        (
            ExprKind::MemberAccess { expr: e1, member: m1, target: t1 },
            ExprKind::MemberAccess { expr: e2, member: m2, target: t2 },
        ) => m1 == m2 && t1 == t2 && compliance_rel(*e1, *e2, co, effects, opt),
        (ExprKind::FunctionCall { func: f1, args: a1 }, ExprKind::FunctionCall { func: f2, args: a2 }) => {
            &&& match (f1, f2) {
                (Callee::Builtin(b1), Callee::Builtin(b2)) => b1 == b2,
                (Callee::Location(l1), Callee::Location(l2)) => compliance_rel(*l1, *l2, co, effects, opt),
                _ => false,
            }
            &&& a1.len() == a2.len()
            &&& forall|i: int| 0 <= i < a1.len() ==> compliance_rel(#[trigger] a1@[i], a2@[i], co, effects, opt)
        },
        (
            ExprKind::PrimitiveCast { elem_type: t1, expr: e1, is_implicit: i1 },
            ExprKind::PrimitiveCast { elem_type: t2, expr: e2, is_implicit: i2 },
        ) => t1 == t2 && i1 == i2 && compliance_rel(*e1, *e2, co, effects, opt),
        (
            ExprKind::Reclassify { expr: e1, privacy: p1, homomorphism: h1, is_rehom: r1 },
            ExprKind::Reclassify { expr: e2, privacy: p2, homomorphism: h2, is_rehom: r2 },
        ) => p1 == p2 && h1 == h2 && r1 == r2 && compliance_rel(*e1, *e2, co, effects, opt),
        (ExprKind::Tuple(a1), ExprKind::Tuple(a2)) => {
            &&& a1.len() == a2.len()
            &&& forall|i: int| 0 <= i < a1.len() ==> compliance_rel(#[trigger] a1@[i], a2@[i], co, effects, opt)
        },
        (ExprKind::New { ty: t1, args: a1 }, ExprKind::New { ty: t2, args: a2 }) => {
            &&& t1 == t2
            &&& a1.len() == a2.len()
            &&& forall|i: int| 0 <= i < a1.len() ==> compliance_rel(#[trigger] a1@[i], a2@[i], co, effects, opt)
        },
        (ExprKind::Index { .. }, _) | (ExprKind::MemberAccess { .. }, _) | (ExprKind::FunctionCall { .. }, _) | (
            ExprKind::PrimitiveCast { .. },
            _,
        ) | (ExprKind::Reclassify { .. }, _) | (ExprKind::Tuple(_), _) | (ExprKind::New { .. }, _) => false,
        _ => new.kind == old.kind,
    }
}

/// The node's own violation: a reveal to someone else inside a private
/// `if`, a private index access with a private key, or a node that makes
/// itself private although it calls a function with side effects.
pub open spec fn compliance_node_error(
    old: Expr,
    over: Option<bool>,
    inside_privif: bool,
    analysis: Option<&PartitionState>,
    effects: Seq<bool>,
) -> bool {
    match old.kind {
        ExprKind::Index { key, .. } => current_evaluation(old, over) && !key.ty().spec_is_public(),
        ExprKind::Reclassify { expr, privacy, .. } => {
            ||| (inside_privif && !(privacy matches Some(l) && labels_equal(analysis, l, PrivacyLabel::Me)))
            ||| (!expr.ty().spec_is_public() && has_side_effect_call(old, effects))
        },
        _ => node_sets_private(old) && has_side_effect_call(old, effects),
    }
}

/// The compliance check of `old` fails somewhere.
pub open spec fn compliance_error(
    old: Expr,
    over: Option<bool>,
    inside_privif: bool,
    analysis: Option<&PartitionState>,
    effects: Seq<bool>,
    opt: bool,
) -> bool
    decreases old,
{
    let cur = current_evaluation(old, over);
    let co = children_override(old, over, effects, opt);
    ||| compliance_node_error(old, over, inside_privif, analysis, effects)
    ||| match old.kind {
        ExprKind::Index { arr, key } => compliance_error(*arr, co, inside_privif, analysis, effects, opt) || compliance_error(
            *key,
            if cur { Some(false) } else { co },
            inside_privif,
            analysis,
            effects,
            opt,
        ),
        ExprKind::MemberAccess { expr, .. } => compliance_error(*expr, co, inside_privif, analysis, effects, opt),
        ExprKind::FunctionCall { func, args } => {
            ||| (func matches Callee::Location(f) && compliance_error(*f, co, inside_privif, analysis, effects, opt))
            ||| exists|i: int| 0 <= i < args.len() && compliance_error(#[trigger] args@[i], co, inside_privif, analysis, effects, opt)
        },
        ExprKind::PrimitiveCast { expr, .. } => compliance_error(*expr, co, inside_privif, analysis, effects, opt),
        ExprKind::Reclassify { expr, .. } => compliance_error(*expr, co, inside_privif, analysis, effects, opt),
        ExprKind::Tuple(elems) => exists|i: int|
            0 <= i < elems.len() && compliance_error(#[trigger] elems@[i], co, inside_privif, analysis, effects, opt),
        ExprKind::New { args, .. } => exists|i: int|
            0 <= i < args.len() && compliance_error(#[trigger] args@[i], co, inside_privif, analysis, effects, opt),
        _ => false,
    }
}

/// Decides which expressions are evaluated inside the circuit and checks
/// that private parts of a function can be.
pub struct CircuitComplianceChecker {
    pub priv_setter: PrivateSetter,
    /// Whether the check is inside an `if` with a private condition.
    pub inside_privif_stmt: bool,
    /// Whether constant expressions are evaluated inside the circuit.
    pub opt_eval_constexpr_in_circuit: bool,
}

impl CircuitComplianceChecker {
    pub fn new(opt_eval_constexpr_in_circuit: bool) -> (r: CircuitComplianceChecker)
        ensures
            r.priv_setter.evaluate_privately is None,
            !r.inside_privif_stmt,
            r.opt_eval_constexpr_in_circuit == opt_eval_constexpr_in_circuit,
    {
        CircuitComplianceChecker { priv_setter: PrivateSetter::new(), inside_privif_stmt: false, opt_eval_constexpr_in_circuit }
    }

    /// Whether the public expression `expr` is better evaluated inside the
    /// circuit (see `should_eval_in_circuit`).
    pub fn should_evaluate_public_expr_in_circuit(expr: &Expr, opt_eval_constexpr_in_circuit: bool) -> (r: bool)
        requires
            expr.spec_typed(),
        ensures
            r == should_eval_in_circuit(*expr, opt_eval_constexpr_in_circuit),
    {
        if !opt_eval_constexpr_in_circuit {
            return false;
        }
        let lit = match &expr.annotated_type {
            Some(a) => a.ty.is_literal(),
            None => false,
        };
        if lit {
            return true;
        }
        match &expr.kind {
            ExprKind::PrimitiveCast { expr: inner, .. } => {
                proof {
                    assert(inner.spec_typed());
                }
                match &inner.annotated_type {
                    Some(a) => a.ty.is_literal(),
                    None => false,
                }
            },
            _ => false,
        }
    }

    /// The compliance check of an expression below an evaluation `over` set
    /// from above (see `compliance_rel` and `compliance_error`).
    fn check_expr(
        &self,
        e: Expr,
        over: Option<bool>,
        analysis: Option<&PartitionState>,
        effects: &Vec<bool>,
    ) -> (r: Result<Expr, TypeError>)
        requires
            e.spec_typed(),
        ensures
            r is Err <==> compliance_error(e, over, self.inside_privif_stmt, analysis, effects@, self.opt_eval_constexpr_in_circuit),
            r matches Ok(x) ==> compliance_rel(e, x, over, effects@, self.opt_eval_constexpr_in_circuit),
            r matches Err(k) ==> compliance_error_kind(
                e,
                over,
                self.inside_privif_stmt,
                analysis,
                effects@,
                self.opt_eval_constexpr_in_circuit,
            ) == Some(k),
        decreases e, 1nat,
    {
        let ghost ge = e;
        proof {
            let co_s = children_override(e, over, effects@, self.opt_eval_constexpr_in_circuit);
            let cur_s = current_evaluation(e, over);
            let ins = self.inside_privif_stmt;
            let o = self.opt_eval_constexpr_in_circuit;
            match ge.kind {
                ExprKind::Index { arr, key } => {
                    lemma_error_kind(*arr, co_s, ins, analysis, effects@, o);
                    lemma_error_kind(*key, if cur_s { Some(false) } else { co_s }, ins, analysis, effects@, o);
                },
                ExprKind::MemberAccess { expr, .. } => lemma_error_kind(*expr, co_s, ins, analysis, effects@, o),
                ExprKind::PrimitiveCast { expr, .. } => lemma_error_kind(*expr, co_s, ins, analysis, effects@, o),
                ExprKind::Reclassify { expr, .. } => lemma_error_kind(*expr, co_s, ins, analysis, effects@, o),
                ExprKind::FunctionCall { func: Callee::Location(f), .. } => lemma_error_kind(*f, co_s, ins, analysis, effects@, o),
                _ => {},
            }
        }
        let opt = self.opt_eval_constexpr_in_circuit;
        let cur = match over {
            Some(f) => f,
            None => e.evaluate_privately,
        };
        let sets = match &e.kind {
            ExprKind::FunctionCall { func: Callee::Builtin(b), .. } => b.is_private,
            ExprKind::FunctionCall { func: Callee::Location(f), .. } => {
                let target = match &f.kind {
                    ExprKind::Identifier { target, .. } => target,
                    ExprKind::MemberAccess { target, .. } => target,
                    _ => &None,
                };
                let cast = match target {
                    Some(t) => t.kind == DeclKind::Enum || t.kind == DeclKind::Contract,
                    None => false,
                };
                cast && match &e.annotated_type {
                    Some(a) => a.is_private(),
                    None => false,
                }
            },
            ExprKind::PrimitiveCast { expr, .. } => {
                proof {
                    assert(expr.spec_typed());
                }
                match &expr.annotated_type {
                    Some(a) => a.is_private(),
                    None => false,
                }
            },
            _ => false,
        };
        let co = match &e.kind {
            ExprKind::Reclassify { expr, .. } => {
                proof {
                    assert(expr.spec_typed());
                }
                let public = match &expr.annotated_type {
                    Some(a) => a.is_public(),
                    None => false,
                };
                if public {
                    Some(Self::should_evaluate_public_expr_in_circuit(expr, opt) && !has_side_effect_call_exec(expr, effects))
                } else {
                    Some(true)
                }
            },
            _ => if sets {
                Some(true)
            } else {
                over
            },
        };
        match &e.kind {
            ExprKind::Index { key, .. } => {
                let key_public = match &key.annotated_type {
                    Some(a) => a.is_public(),
                    None => false,
                };
                if cur && !key_public {
                    proof {
                        assert(key.spec_typed());
                        assert(compliance_node_error(e, over, self.inside_privif_stmt, analysis, effects@));
                    }
                    return Err(TypeError::PrivateArrayIndex);
                }
            },
            ExprKind::Reclassify { expr, privacy, .. } => {
                if self.inside_privif_stmt {
                    let same = match privacy {
                        Some(l) => labels_equal_exec(analysis, *l, PrivacyLabel::Me),
                        None => false,
                    };
                    if !same {
                        return Err(TypeError::RevealInPrivateIf);
                    }
                }
                let public = match &expr.annotated_type {
                    Some(a) => a.is_public(),
                    None => false,
                };
                if !public && has_side_effect_call_exec(&e, effects) {
                    return Err(TypeError::SideEffectInPrivateExpr);
                }
            },
            _ => {
                if sets && has_side_effect_call_exec(&e, effects) {
                    return Err(TypeError::SideEffectInPrivateExpr);
                }
            },
        }
        let is_reclassify = match &e.kind {
            ExprKind::Reclassify { .. } => true,
            _ => false,
        };
        let Expr { id, kind, annotated_type, evaluate_privately: _, line, column, parent, statement, namespace } = e;
        let new_kind = match kind {
            ExprKind::Index { arr, key } => {
                let a = self.check_expr(*arr, co, analysis, effects)?;
                let k = self.check_expr(*key, if cur { Some(false) } else { co }, analysis, effects)?;
                ExprKind::Index { arr: Box::new(a), key: Box::new(k) }
            },
            ExprKind::MemberAccess { expr, member, target } => {
                let x = self.check_expr(*expr, co, analysis, effects)?;
                ExprKind::MemberAccess { expr: Box::new(x), member, target }
            },
            ExprKind::FunctionCall { func, args } => {
                let new_func = match func {
                    Callee::Builtin(b) => Callee::Builtin(b),
                    Callee::Location(l) => Callee::Location(Box::new(self.check_expr(*l, co, analysis, effects)?)),
                };
                proof {
                    assert(decreases_to!(ge => ge.kind));
                    assert(decreases_to!(ge.kind => ge.kind->FunctionCall_args));
                }
                ExprKind::FunctionCall { func: new_func, args: self.check_exprs(args, co, analysis, effects, Ghost(ge))? }
            },
            ExprKind::PrimitiveCast { elem_type, expr, is_implicit } => {
                let x = self.check_expr(*expr, co, analysis, effects)?;
                ExprKind::PrimitiveCast { elem_type, expr: Box::new(x), is_implicit }
            },
            ExprKind::Reclassify { expr, privacy, homomorphism, is_rehom } => {
                let x = self.check_expr(*expr, co, analysis, effects)?;
                ExprKind::Reclassify { expr: Box::new(x), privacy, homomorphism, is_rehom }
            },
            ExprKind::Tuple(elems) => {
                proof {
                    assert(decreases_to!(ge => ge.kind));
                    assert(decreases_to!(ge.kind => ge.kind->Tuple_0));
                }
                ExprKind::Tuple(self.check_exprs(elems, co, analysis, effects, Ghost(ge))?)
            },
            ExprKind::New { ty, args } => {
                proof {
                    assert(decreases_to!(ge => ge.kind));
                    assert(decreases_to!(ge.kind => ge.kind->New_args));
                }
                ExprKind::New { ty, args: self.check_exprs(args, co, analysis, effects, Ghost(ge))? }
            },
            other => other,
        };
        Ok(Expr {
            id,
            kind: new_kind,
            annotated_type,
            evaluate_privately: cur || sets || is_reclassify,
            line,
            column,
            parent,
            statement,
            namespace,
        })
    }

    /// An index access: where it is evaluated privately its key must be
    /// public and is evaluated publicly; then its children are checked.
    pub fn visitIndexExpr(
        &self,
        ast: Expr,
        over: Option<bool>,
        analysis: Option<&PartitionState>,
        effects: &Vec<bool>,
    ) -> (r: Result<Expr, TypeError>)
        requires
            ast.kind is Index,
            ast.spec_typed(),
        ensures
            r is Err <==> compliance_error(ast, over, self.inside_privif_stmt, analysis, effects@, self.opt_eval_constexpr_in_circuit),
            r matches Ok(x) ==> compliance_rel(ast, x, over, effects@, self.opt_eval_constexpr_in_circuit),
            r matches Err(k) ==> compliance_error_kind(
                ast,
                over,
                self.inside_privif_stmt,
                analysis,
                effects@,
                self.opt_eval_constexpr_in_circuit,
            ) == Some(k),
    {
        self.check_expr(ast, over, analysis, effects)
    }

    /// A reclassification: inside a private `if` it may only reveal to `me`;
    /// it is evaluated privately, its operand privately unless it is public
    /// and not worth evaluating in the circuit; then the operand is checked.
    pub fn visitReclassifyExpr(
        &self,
        ast: Expr,
        over: Option<bool>,
        analysis: Option<&PartitionState>,
        effects: &Vec<bool>,
    ) -> (r: Result<Expr, TypeError>)
        requires
            ast.kind is Reclassify,
            ast.spec_typed(),
        ensures
            r is Err <==> compliance_error(ast, over, self.inside_privif_stmt, analysis, effects@, self.opt_eval_constexpr_in_circuit),
            r matches Ok(x) ==> compliance_rel(ast, x, over, effects@, self.opt_eval_constexpr_in_circuit),
            r matches Err(k) ==> compliance_error_kind(
                ast,
                over,
                self.inside_privif_stmt,
                analysis,
                effects@,
                self.opt_eval_constexpr_in_circuit,
            ) == Some(k),
    {
        self.check_expr(ast, over, analysis, effects)
    }

    /// A call: a private built-in call or a cast to a private type is
    /// evaluated privately, and then must not call functions with side
    /// effects; then its children are checked.
    pub fn visitFunctionCallExpr(
        &self,
        ast: Expr,
        over: Option<bool>,
        analysis: Option<&PartitionState>,
        effects: &Vec<bool>,
    ) -> (r: Result<Expr, TypeError>)
        requires
            ast.kind is FunctionCall,
            ast.spec_typed(),
        ensures
            r is Err <==> compliance_error(ast, over, self.inside_privif_stmt, analysis, effects@, self.opt_eval_constexpr_in_circuit),
            r matches Ok(x) ==> compliance_rel(ast, x, over, effects@, self.opt_eval_constexpr_in_circuit),
            r matches Err(k) ==> compliance_error_kind(
                ast,
                over,
                self.inside_privif_stmt,
                analysis,
                effects@,
                self.opt_eval_constexpr_in_circuit,
            ) == Some(k),
    {
        self.check_expr(ast, over, analysis, effects)
    }

    /// A cast of a private value is evaluated privately, and then must not
    /// call functions with side effects; then its operand is checked.
    pub fn visitPrimitiveCastExpr(
        &self,
        ast: Expr,
        over: Option<bool>,
        analysis: Option<&PartitionState>,
        effects: &Vec<bool>,
    ) -> (r: Result<Expr, TypeError>)
        requires
            ast.kind is PrimitiveCast,
            ast.spec_typed(),
        ensures
            r is Err <==> compliance_error(ast, over, self.inside_privif_stmt, analysis, effects@, self.opt_eval_constexpr_in_circuit),
            r matches Ok(x) ==> compliance_rel(ast, x, over, effects@, self.opt_eval_constexpr_in_circuit),
            r matches Err(k) ==> compliance_error_kind(
                ast,
                over,
                self.inside_privif_stmt,
                analysis,
                effects@,
                self.opt_eval_constexpr_in_circuit,
            ) == Some(k),
    {
        self.check_expr(ast, over, analysis, effects)
    }

    fn check_exprs(
        &self,
        args: Vec<Expr>,
        over: Option<bool>,
        analysis: Option<&PartitionState>,
        effects: &Vec<bool>,
        Ghost(whole): Ghost<Expr>,
    ) -> (r: Result<Vec<Expr>, TypeError>)
        requires
            decreases_to!(whole => args),
            forall|i: int| 0 <= i < args.len() ==> (#[trigger] args@[i]).spec_typed(),
        ensures
            r is Err <==> exists|i: int|
                0 <= i < args.len() && compliance_error(
                    #[trigger] args@[i],
                    over,
                    self.inside_privif_stmt,
                    analysis,
                    effects@,
                    self.opt_eval_constexpr_in_circuit,
                ),
            r matches Ok(v) ==> v.len() == args.len() && forall|i: int|
                0 <= i < args.len() ==> compliance_rel(#[trigger] args@[i], v@[i], over, effects@, self.opt_eval_constexpr_in_circuit),
            r matches Err(k) ==> exprs_error_kind(
                args@,
                over,
                self.inside_privif_stmt,
                analysis,
                effects@,
                self.opt_eval_constexpr_in_circuit,
            ) == Some(k),
        decreases whole, 0nat,
    {
        let ghost old_args = args;
        let mut rest = args;
        let mut out: Vec<Expr> = Vec::new();
        assert(old_args@.subrange(0, old_args.len() as int) =~= old_args@);
        while rest.len() > 0
            invariant
                out.len() + rest.len() == old_args.len(),
                rest@ == old_args@.subrange(out.len() as int, old_args.len() as int),
                decreases_to!(whole => old_args),
                old_args == args,
                exprs_error_kind(old_args@, over, self.inside_privif_stmt, analysis, effects@, self.opt_eval_constexpr_in_circuit)
                    == exprs_error_kind(
                    old_args@.subrange(out.len() as int, old_args.len() as int),
                    over,
                    self.inside_privif_stmt,
                    analysis,
                    effects@,
                    self.opt_eval_constexpr_in_circuit,
                ),
                forall|j: int| 0 <= j < old_args.len() ==> (#[trigger] old_args@[j]).spec_typed(),
                forall|j: int|
                    0 <= j < out.len() ==> compliance_rel(#[trigger] old_args@[j], out@[j], over, effects@, self.opt_eval_constexpr_in_circuit),
                forall|j: int|
                    0 <= j < out.len() ==> !compliance_error(
                        #[trigger] old_args@[j],
                        over,
                        self.inside_privif_stmt,
                        analysis,
                        effects@,
                        self.opt_eval_constexpr_in_circuit,
                    ),
            decreases rest.len(),
        {
            let k = rest.remove(0);
            let ghost i = out.len() as int;
            proof {
                assert(k == old_args@[i]);
                vstd::std_specs::vec::axiom_vec_index_decreases(old_args, i);
            }
            let ghost sub = old_args@.subrange(i, old_args.len() as int);
            proof {
                assert(sub[0] == k);
                assert(sub.subrange(1, sub.len() as int) =~= old_args@.subrange(i + 1, old_args.len() as int));
                lemma_error_kind(k, over, self.inside_privif_stmt, analysis, effects@, self.opt_eval_constexpr_in_circuit);
            }
            match self.check_expr(k, over, analysis, effects) {
                Ok(x) => out.push(x),
                Err(e) => {
                    proof {
                        assert(compliance_error(args@[i], over, self.inside_privif_stmt, analysis, effects@, self.opt_eval_constexpr_in_circuit));
                    }
                    return Err(e);
                },
            }
        }
        Ok(out)
    }
}

/// The partition state before the statement.
pub open spec fn analysis_of<'a>(s: &'a Stmt) -> Option<&'a PartitionState> {
    match &s.before_analysis {
        Some(a) => Some(a),
        None => None,
    }
}

/// Some expression in the statement calls a function with side effects.
pub open spec fn stmt_has_side_effect_call(s: Stmt, effects: Seq<bool>) -> bool
    decreases s,
{
    match s.kind {
        StmtKind::Block(ss) => exists|i: int| 0 <= i < ss.len() && stmt_has_side_effect_call(#[trigger] ss@[i], effects),
        StmtKind::StatementList(ss) => exists|i: int| 0 <= i < ss.len() && stmt_has_side_effect_call(#[trigger] ss@[i], effects),
        StmtKind::If { condition, then_branch, else_branch } => {
            ||| has_side_effect_call(condition, effects)
            ||| stmt_has_side_effect_call(*then_branch, effects)
            ||| (else_branch matches Some(e) && stmt_has_side_effect_call(*e, effects))
        },
        StmtKind::While { condition, body } => has_side_effect_call(condition, effects) || stmt_has_side_effect_call(*body, effects),
        StmtKind::For { init, condition, update, body } => {
            ||| (init matches Some(x) && stmt_has_side_effect_call(*x, effects))
            ||| has_side_effect_call(condition, effects)
            ||| (update matches Some(x) && stmt_has_side_effect_call(*x, effects))
            ||| stmt_has_side_effect_call(*body, effects)
        },
        StmtKind::Assignment { lhs, rhs } => has_side_effect_call(lhs, effects) || has_side_effect_call(rhs, effects),
        StmtKind::VariableDeclaration { expr, .. } => expr matches Some(e) && has_side_effect_call(e, effects),
        StmtKind::Return(e) => e matches Some(x) && has_side_effect_call(x, effects),
        StmtKind::Require(e) => has_side_effect_call(e, effects),
        StmtKind::ExpressionStatement(e) => has_side_effect_call(e, effects),
        _ => false,
    }
}

/// A private `if` may write the value: it has a primitive type, and if it is
/// in scope at the `if`, it is owned by `me`.
pub open spec fn private_if_write_ok(v: ModifiedValue, analysis: Option<&PartitionState>) -> bool {
    &&& v.target_type.ty.spec_is_primitive_type()
    &&& v.in_scope ==> (v.target_type.privacy_annotation matches Some(l) && labels_equal(analysis, l, PrivacyLabel::Me))
}

/// The values that the branches of an `if` modify.
pub open spec fn if_modified_values(s: Stmt) -> Seq<ModifiedValue> {
    s.kind->If_then_branch.modified_values@ + match s.kind->If_else_branch {
        Some(e) => e.modified_values@,
        None => Seq::empty(),
    }
}

/// The statement is an `if` with a private condition.
pub open spec fn is_private_if(s: Stmt) -> bool {
    s.kind is If && s.kind->If_condition.ty().spec_is_private()
}

/// The statement's own violation: a private `if` that writes a value it may
/// not write or contains a call with side effects.
pub open spec fn stmt_node_error(s: Stmt, effects: Seq<bool>) -> bool {
    &&& is_private_if(s)
    &&& {
        ||| exists|i: int|
            0 <= i < if_modified_values(s).len() && !private_if_write_ok(
                #[trigger] if_modified_values(s)[i],
                analysis_of(&s),
            )
        ||| stmt_has_side_effect_call(s, effects)
    }
}

/// The compliance check fails somewhere in the statement.
pub open spec fn stmt_compliance_error(
    s: Stmt,
    over: Option<bool>,
    inside_privif: bool,
    effects: Seq<bool>,
    opt: bool,
) -> bool
    decreases s, 1nat,
{
    let o = if is_private_if(s) { Some(true) } else { over };
    let p = inside_privif || is_private_if(s);
    stmt_node_error(s, effects) || stmt_children_error(s, o, p, effects, opt)
}

/// The compliance check fails in a part of the statement, checked below `o`
/// (inside a private `if` where `p`).
pub open spec fn stmt_children_error(
    s: Stmt,
    o: Option<bool>,
    p: bool,
    effects: Seq<bool>,
    opt: bool,
) -> bool
    decreases s, 0nat,
{
    let an = analysis_of(&s);
    match s.kind {
        StmtKind::Block(ss) => exists|i: int| 0 <= i < ss.len() && stmt_compliance_error(#[trigger] ss@[i], o, p, effects, opt),
        StmtKind::StatementList(ss) => exists|i: int|
            0 <= i < ss.len() && stmt_compliance_error(#[trigger] ss@[i], o, p, effects, opt),
        StmtKind::If { condition, then_branch, else_branch } => {
            ||| compliance_error(condition, o, p, an, effects, opt)
            ||| stmt_compliance_error(*then_branch, o, p, effects, opt)
            ||| (else_branch matches Some(e) && stmt_compliance_error(*e, o, p, effects, opt))
        },
        StmtKind::While { condition, body } => compliance_error(condition, o, p, an, effects, opt) || stmt_compliance_error(
            *body,
            o,
            p,
            effects,
            opt,
        ),
        StmtKind::For { init, condition, update, body } => {
            ||| (init matches Some(x) && stmt_compliance_error(*x, o, p, effects, opt))
            ||| compliance_error(condition, o, p, an, effects, opt)
            ||| (update matches Some(x) && stmt_compliance_error(*x, o, p, effects, opt))
            ||| stmt_compliance_error(*body, o, p, effects, opt)
        },
        StmtKind::Assignment { lhs, rhs } => compliance_error(lhs, o, p, an, effects, opt) || compliance_error(rhs, o, p, an, effects, opt),
        StmtKind::VariableDeclaration { expr, .. } => expr matches Some(e) && compliance_error(e, o, p, an, effects, opt),
        StmtKind::Return(e) => e matches Some(x) && compliance_error(x, o, p, an, effects, opt),
        StmtKind::Require(e) => compliance_error(e, o, p, an, effects, opt),
        StmtKind::ExpressionStatement(e) => compliance_error(e, o, p, an, effects, opt),
        _ => false,
    }
}

/// The first of two findings.
pub open spec fn first_error(a: Option<TypeError>, b: Option<TypeError>) -> Option<TypeError> {
    if a is Some {
        a
    } else {
        b
    }
}

/// The node's own violation (see `compliance_node_error`) as the error
/// reported for it.
pub open spec fn node_error_kind(
    old: Expr,
    over: Option<bool>,
    inside_privif: bool,
    analysis: Option<&PartitionState>,
    effects: Seq<bool>,
) -> Option<TypeError> {
    match old.kind {
        ExprKind::Index { key, .. } => if current_evaluation(old, over) && !key.ty().spec_is_public() {
            Some(TypeError::PrivateArrayIndex)
        } else {
            None
        },
        ExprKind::Reclassify { expr, privacy, .. } => if inside_privif && !(privacy matches Some(l) && labels_equal(
            analysis,
            l,
            PrivacyLabel::Me,
        )) {
            Some(TypeError::RevealInPrivateIf)
        } else if !expr.ty().spec_is_public() && has_side_effect_call(old, effects) {
            Some(TypeError::SideEffectInPrivateExpr)
        } else {
            None
        },
        _ => if node_sets_private(old) && has_side_effect_call(old, effects) {
            Some(TypeError::SideEffectInPrivateExpr)
        } else {
            None
        },
    }
}

/// The error that the compliance check of `old` reports: the node's own
/// violation, or else the first one among its parts, in order.
pub open spec fn compliance_error_kind(
    old: Expr,
    over: Option<bool>,
    inside_privif: bool,
    analysis: Option<&PartitionState>,
    effects: Seq<bool>,
    opt: bool,
) -> Option<TypeError>
    decreases old, 1nat,
{
    let cur = current_evaluation(old, over);
    let co = children_override(old, over, effects, opt);
    first_error(
        node_error_kind(old, over, inside_privif, analysis, effects),
        match old.kind {
            ExprKind::Index { arr, key } => first_error(
                compliance_error_kind(*arr, co, inside_privif, analysis, effects, opt),
                compliance_error_kind(*key, if cur { Some(false) } else { co }, inside_privif, analysis, effects, opt),
            ),
            ExprKind::MemberAccess { expr, .. } => compliance_error_kind(*expr, co, inside_privif, analysis, effects, opt),
            ExprKind::FunctionCall { func, args } => first_error(
                match func {
                    Callee::Location(f) => compliance_error_kind(*f, co, inside_privif, analysis, effects, opt),
                    Callee::Builtin(_) => None,
                },
                exprs_error_kind(args@, co, inside_privif, analysis, effects, opt),
            ),
            ExprKind::PrimitiveCast { expr, .. } => compliance_error_kind(*expr, co, inside_privif, analysis, effects, opt),
            ExprKind::Reclassify { expr, .. } => compliance_error_kind(*expr, co, inside_privif, analysis, effects, opt),
            ExprKind::Tuple(elems) => exprs_error_kind(elems@, co, inside_privif, analysis, effects, opt),
            ExprKind::New { args, .. } => exprs_error_kind(args@, co, inside_privif, analysis, effects, opt),
            _ => None,
        },
    )
}

/// The error reported for the first of the expressions that has one.
pub open spec fn exprs_error_kind(
    es: Seq<Expr>,
    over: Option<bool>,
    inside_privif: bool,
    analysis: Option<&PartitionState>,
    effects: Seq<bool>,
    opt: bool,
) -> Option<TypeError>
    decreases es, 0nat,
{
    if es.len() == 0 {
        None
    } else {
        first_error(
            compliance_error_kind(es[0], over, inside_privif, analysis, effects, opt),
            exprs_error_kind(es.subrange(1, es.len() as int), over, inside_privif, analysis, effects, opt),
        )
    }
}

/// An error is reported exactly where the compliance check fails.
pub proof fn lemma_error_kind(
    old: Expr,
    over: Option<bool>,
    inside_privif: bool,
    analysis: Option<&PartitionState>,
    effects: Seq<bool>,
    opt: bool,
)
    ensures
        compliance_error_kind(old, over, inside_privif, analysis, effects, opt) is Some <==> compliance_error(
            old,
            over,
            inside_privif,
            analysis,
            effects,
            opt,
        ),
    decreases old, 1nat,
{
    let cur = current_evaluation(old, over);
    let co = children_override(old, over, effects, opt);
    match old.kind {
        ExprKind::Index { arr, key } => {
            lemma_error_kind(*arr, co, inside_privif, analysis, effects, opt);
            lemma_error_kind(*key, if cur { Some(false) } else { co }, inside_privif, analysis, effects, opt);
        },
        ExprKind::MemberAccess { expr, .. } => lemma_error_kind(*expr, co, inside_privif, analysis, effects, opt),
        ExprKind::FunctionCall { func, args } => {
            match func {
                Callee::Location(f) => lemma_error_kind(*f, co, inside_privif, analysis, effects, opt),
                Callee::Builtin(_) => {},
            }
            lemma_exprs_error_kind(args@, co, inside_privif, analysis, effects, opt);
        },
        ExprKind::PrimitiveCast { expr, .. } => lemma_error_kind(*expr, co, inside_privif, analysis, effects, opt),
        ExprKind::Reclassify { expr, .. } => lemma_error_kind(*expr, co, inside_privif, analysis, effects, opt),
        ExprKind::Tuple(elems) => lemma_exprs_error_kind(elems@, co, inside_privif, analysis, effects, opt),
        ExprKind::New { args, .. } => lemma_exprs_error_kind(args@, co, inside_privif, analysis, effects, opt),
        _ => {},
    }
}

/// An error is reported for a list exactly where one of its expressions fails.
pub proof fn lemma_exprs_error_kind(
    es: Seq<Expr>,
    over: Option<bool>,
    inside_privif: bool,
    analysis: Option<&PartitionState>,
    effects: Seq<bool>,
    opt: bool,
)
    ensures
        exprs_error_kind(es, over, inside_privif, analysis, effects, opt) is Some <==> exists|i: int|
            0 <= i < es.len() && compliance_error(#[trigger] es[i], over, inside_privif, analysis, effects, opt),
    decreases es, 0nat,
{
    if es.len() > 0 {
        let rest = es.subrange(1, es.len() as int);
        lemma_error_kind(es[0], over, inside_privif, analysis, effects, opt);
        lemma_exprs_error_kind(rest, over, inside_privif, analysis, effects, opt);
        if exprs_error_kind(rest, over, inside_privif, analysis, effects, opt) is Some {
            let j = choose|j: int| 0 <= j < rest.len() && compliance_error(#[trigger] rest[j], over, inside_privif, analysis, effects, opt);
            assert(es[j + 1] == rest[j]);
        }
        if exists|i: int| 0 <= i < es.len() && compliance_error(#[trigger] es[i], over, inside_privif, analysis, effects, opt) {
            let i = choose|i: int| 0 <= i < es.len() && compliance_error(#[trigger] es[i], over, inside_privif, analysis, effects, opt);
            if i > 0 {
                assert(rest[i - 1] == es[i]);
            }
        }
    }
}

/// The statement's own violation (see `stmt_node_error`) as the error
/// reported for it: the first value the private `if` may not write, else a
/// call with side effects.
pub open spec fn stmt_node_error_kind(s: Stmt, effects: Seq<bool>) -> Option<TypeError> {
    if is_private_if(s) {
        first_error(
            first_write_error(if_modified_values(s), analysis_of(&s)),
            if stmt_has_side_effect_call(s, effects) {
                Some(TypeError::SideEffectInPrivateExpr)
            } else {
                None
            },
        )
    } else {
        None
    }
}

/// The error that the compliance check of a statement reports: its own
/// violation, or else the first one among its parts, in order.
pub open spec fn stmt_error_kind(s: Stmt, over: Option<bool>, inside_privif: bool, effects: Seq<bool>, opt: bool) -> Option<
    TypeError,
>
    decreases s, 1nat,
{
    let o = if is_private_if(s) { Some(true) } else { over };
    let p = inside_privif || is_private_if(s);
    first_error(stmt_node_error_kind(s, effects), stmt_children_error_kind(s, o, p, effects, opt))
}

/// The error reported for the first part of the statement that has one.
pub open spec fn stmt_children_error_kind(s: Stmt, o: Option<bool>, p: bool, effects: Seq<bool>, opt: bool) -> Option<TypeError>
    decreases s, 0nat,
{
    let an = analysis_of(&s);
    match s.kind {
        StmtKind::Block(ss) => stmts_error_kind(ss@, o, p, effects, opt),
        StmtKind::StatementList(ss) => stmts_error_kind(ss@, o, p, effects, opt),
        StmtKind::If { condition, then_branch, else_branch } => first_error(
            compliance_error_kind(condition, o, p, an, effects, opt),
            first_error(
                stmt_error_kind(*then_branch, o, p, effects, opt),
                match else_branch {
                    Some(e) => stmt_error_kind(*e, o, p, effects, opt),
                    None => None,
                },
            ),
        ),
        StmtKind::While { condition, body } => first_error(
            compliance_error_kind(condition, o, p, an, effects, opt),
            stmt_error_kind(*body, o, p, effects, opt),
        ),
        StmtKind::For { init, condition, update, body } => first_error(
            match init {
                Some(x) => stmt_error_kind(*x, o, p, effects, opt),
                None => None,
            },
            first_error(
                compliance_error_kind(condition, o, p, an, effects, opt),
                first_error(
                    match update {
                        Some(x) => stmt_error_kind(*x, o, p, effects, opt),
                        None => None,
                    },
                    stmt_error_kind(*body, o, p, effects, opt),
                ),
            ),
        ),
        StmtKind::Assignment { lhs, rhs } => first_error(
            compliance_error_kind(lhs, o, p, an, effects, opt),
            compliance_error_kind(rhs, o, p, an, effects, opt),
        ),
        StmtKind::VariableDeclaration { expr, .. } => match expr {
            Some(e) => compliance_error_kind(e, o, p, an, effects, opt),
            None => None,
        },
        StmtKind::Return(e) => match e {
            Some(x) => compliance_error_kind(x, o, p, an, effects, opt),
            None => None,
        },
        StmtKind::Require(e) => compliance_error_kind(e, o, p, an, effects, opt),
        StmtKind::ExpressionStatement(e) => compliance_error_kind(e, o, p, an, effects, opt),
        _ => None,
    }
}

/// The error reported for the first of the statements that has one.
pub open spec fn stmts_error_kind(ss: Seq<Stmt>, o: Option<bool>, p: bool, effects: Seq<bool>, opt: bool) -> Option<TypeError>
    decreases ss, 0nat,
{
    if ss.len() == 0 {
        None
    } else {
        first_error(stmt_error_kind(ss[0], o, p, effects, opt), stmts_error_kind(ss.subrange(1, ss.len() as int), o, p, effects, opt))
    }
}

/// An error is reported for a statement exactly where its check fails.
pub proof fn lemma_stmt_error_kind(s: Stmt, over: Option<bool>, inside_privif: bool, effects: Seq<bool>, opt: bool)
    ensures
        stmt_error_kind(s, over, inside_privif, effects, opt) is Some <==> stmt_compliance_error(s, over, inside_privif, effects, opt),
    decreases s, 1nat,
{
    let o = if is_private_if(s) { Some(true) } else { over };
    let p = inside_privif || is_private_if(s);
    if is_private_if(s) {
        lemma_first_write_error_none(if_modified_values(s), analysis_of(&s));
    }
    lemma_stmt_children_error_kind(s, o, p, effects, opt);
}

proof fn lemma_stmt_children_error_kind(s: Stmt, o: Option<bool>, p: bool, effects: Seq<bool>, opt: bool)
    ensures
        stmt_children_error_kind(s, o, p, effects, opt) is Some <==> stmt_children_error(s, o, p, effects, opt),
    decreases s, 0nat,
{
    let an = analysis_of(&s);
    match s.kind {
        StmtKind::Block(ss) => lemma_stmts_error_kind(ss@, o, p, effects, opt),
        StmtKind::StatementList(ss) => lemma_stmts_error_kind(ss@, o, p, effects, opt),
        StmtKind::If { condition, then_branch, else_branch } => {
            lemma_error_kind(condition, o, p, an, effects, opt);
            lemma_stmt_error_kind(*then_branch, o, p, effects, opt);
            if let Some(e) = else_branch {
                lemma_stmt_error_kind(*e, o, p, effects, opt);
            }
        },
        StmtKind::While { condition, body } => {
            lemma_error_kind(condition, o, p, an, effects, opt);
            lemma_stmt_error_kind(*body, o, p, effects, opt);
        },
        StmtKind::For { init, condition, update, body } => {
            if let Some(x) = init {
                lemma_stmt_error_kind(*x, o, p, effects, opt);
            }
            lemma_error_kind(condition, o, p, an, effects, opt);
            if let Some(x) = update {
                lemma_stmt_error_kind(*x, o, p, effects, opt);
            }
            lemma_stmt_error_kind(*body, o, p, effects, opt);
        },
        StmtKind::Assignment { lhs, rhs } => {
            lemma_error_kind(lhs, o, p, an, effects, opt);
            lemma_error_kind(rhs, o, p, an, effects, opt);
        },
        StmtKind::VariableDeclaration { expr, .. } => {
            if let Some(e) = expr {
                lemma_error_kind(e, o, p, an, effects, opt);
            }
        },
        StmtKind::Return(e) => {
            if let Some(x) = e {
                lemma_error_kind(x, o, p, an, effects, opt);
            }
        },
        StmtKind::Require(e) => lemma_error_kind(e, o, p, an, effects, opt),
        StmtKind::ExpressionStatement(e) => lemma_error_kind(e, o, p, an, effects, opt),
        _ => {},
    }
}

proof fn lemma_stmts_error_kind(ss: Seq<Stmt>, o: Option<bool>, p: bool, effects: Seq<bool>, opt: bool)
    ensures
        stmts_error_kind(ss, o, p, effects, opt) is Some <==> exists|i: int|
            0 <= i < ss.len() && stmt_compliance_error(#[trigger] ss[i], o, p, effects, opt),
    decreases ss, 0nat,
{
    if ss.len() > 0 {
        let rest = ss.subrange(1, ss.len() as int);
        lemma_stmt_error_kind(ss[0], o, p, effects, opt);
        lemma_stmts_error_kind(rest, o, p, effects, opt);
        if stmts_error_kind(rest, o, p, effects, opt) is Some {
            let j = choose|j: int| 0 <= j < rest.len() && stmt_compliance_error(#[trigger] rest[j], o, p, effects, opt);
            assert(ss[j + 1] == rest[j]);
        }
        if exists|i: int| 0 <= i < ss.len() && stmt_compliance_error(#[trigger] ss[i], o, p, effects, opt) {
            let i = choose|i: int| 0 <= i < ss.len() && stmt_compliance_error(#[trigger] ss[i], o, p, effects, opt);
            if i > 0 {
                assert(rest[i - 1] == ss[i]);
            }
        }
    }
}

/// What the compliance check makes of a statement: its expressions are
/// checked (see `compliance_rel`), those of a private `if` as evaluated
/// privately; nothing else changes.
pub open spec fn stmt_compliance_rel(
    old: Stmt,
    new: Stmt,
    over: Option<bool>,
    effects: Seq<bool>,
    opt: bool,
) -> bool
    decreases old, 1nat,
{
    let o = if is_private_if(old) { Some(true) } else { over };
    &&& new == Stmt { kind: new.kind, ..old }
    &&& stmt_children_rel(old, new, o, effects, opt)
}

/// The parts of `new` are those of `old` checked below `o`.
pub open spec fn stmt_children_rel(
    old: Stmt,
    new: Stmt,
    o: Option<bool>,
    effects: Seq<bool>,
    opt: bool,
) -> bool
    decreases old, 0nat,
{
    match (old.kind, new.kind) {
        (StmtKind::Block(a), StmtKind::Block(b)) => a.len() == b.len() && forall|i: int|
            0 <= i < a.len() ==> stmt_compliance_rel(#[trigger] a@[i], b@[i], o, effects, opt),
        (StmtKind::StatementList(a), StmtKind::StatementList(b)) => a.len() == b.len() && forall|i: int|
            0 <= i < a.len() ==> stmt_compliance_rel(#[trigger] a@[i], b@[i], o, effects, opt),
        (
            StmtKind::If { condition: c1, then_branch: t1, else_branch: e1 },
            StmtKind::If { condition: c2, then_branch: t2, else_branch: e2 },
        ) => {
            &&& compliance_rel(c1, c2, o, effects, opt)
            &&& stmt_compliance_rel(*t1, *t2, o, effects, opt)
            &&& match (e1, e2) {
                (None, None) => true,
                (Some(x), Some(y)) => stmt_compliance_rel(*x, *y, o, effects, opt),
                _ => false,
            }
        },
        (StmtKind::While { condition: c1, body: b1 }, StmtKind::While { condition: c2, body: b2 }) => compliance_rel(
            c1,
            c2,
            o,
            effects,
            opt,
        ) && stmt_compliance_rel(*b1, *b2, o, effects, opt),
        (
            StmtKind::For { init: i1, condition: c1, update: u1, body: b1 },
            StmtKind::For { init: i2, condition: c2, update: u2, body: b2 },
        ) => {
            &&& match (i1, i2) {
                (None, None) => true,
                (Some(x), Some(y)) => stmt_compliance_rel(*x, *y, o, effects, opt),
                _ => false,
            }
            &&& compliance_rel(c1, c2, o, effects, opt)
            &&& match (u1, u2) {
                (None, None) => true,
                (Some(x), Some(y)) => stmt_compliance_rel(*x, *y, o, effects, opt),
                _ => false,
            }
            &&& stmt_compliance_rel(*b1, *b2, o, effects, opt)
        },
        (StmtKind::Assignment { lhs: l1, rhs: r1 }, StmtKind::Assignment { lhs: l2, rhs: r2 }) => compliance_rel(
            l1,
            l2,
            o,
            effects,
            opt,
        ) && compliance_rel(r1, r2, o, effects, opt),
        (
            StmtKind::VariableDeclaration { decl: d1, expr: x1 },
            StmtKind::VariableDeclaration { decl: d2, expr: x2 },
        ) => d1 == d2 && match (x1, x2) {
            (None, None) => true,
            (Some(x), Some(y)) => compliance_rel(x, y, o, effects, opt),
            _ => false,
        },
        (StmtKind::Return(x1), StmtKind::Return(x2)) => match (x1, x2) {
            (None, None) => true,
            (Some(x), Some(y)) => compliance_rel(x, y, o, effects, opt),
            _ => false,
        },
        (StmtKind::Require(x), StmtKind::Require(y)) => compliance_rel(x, y, o, effects, opt),
        (StmtKind::ExpressionStatement(x), StmtKind::ExpressionStatement(y)) => compliance_rel(x, y, o, effects, opt),
        (StmtKind::Break, StmtKind::Break) => true,
        (StmtKind::Continue, StmtKind::Continue) => true,
        _ => false,
    }
}

/// Whether some expression in the statement calls a function with side effects.
pub fn stmt_has_side_effect_call_exec(s: &Stmt, effects: &Vec<bool>) -> (r: bool)
    ensures
        r == stmt_has_side_effect_call(*s, effects@),
    decreases s, 1nat,
{
    match &s.kind {
        StmtKind::Block(ss) => {
            proof {
                assert(decreases_to!(*s => s.kind));
                assert(decreases_to!(s.kind => s.kind->Block_0));
            }
            any_stmt_side_effect_call(ss, effects, Ghost(*s))
        },
        StmtKind::StatementList(ss) => {
            proof {
                assert(decreases_to!(*s => s.kind));
                assert(decreases_to!(s.kind => s.kind->StatementList_0));
            }
            any_stmt_side_effect_call(ss, effects, Ghost(*s))
        },
        StmtKind::If { condition, then_branch, else_branch } => {
            has_side_effect_call_exec(condition, effects) || stmt_has_side_effect_call_exec(then_branch, effects) || match else_branch {
                Some(e) => stmt_has_side_effect_call_exec(e, effects),
                None => false,
            }
        },
        StmtKind::While { condition, body } => has_side_effect_call_exec(condition, effects) || stmt_has_side_effect_call_exec(
            body,
            effects,
        ),
        StmtKind::For { init, condition, update, body } => {
            let a = match init {
                Some(x) => stmt_has_side_effect_call_exec(x, effects),
                None => false,
            };
            let b = match update {
                Some(x) => stmt_has_side_effect_call_exec(x, effects),
                None => false,
            };
            a || has_side_effect_call_exec(condition, effects) || b || stmt_has_side_effect_call_exec(body, effects)
        },
        StmtKind::Assignment { lhs, rhs } => has_side_effect_call_exec(lhs, effects) || has_side_effect_call_exec(rhs, effects),
        StmtKind::VariableDeclaration { expr, .. } => match expr {
            Some(e) => has_side_effect_call_exec(e, effects),
            None => false,
        },
        StmtKind::Return(e) => match e {
            Some(x) => has_side_effect_call_exec(x, effects),
            None => false,
        },
        StmtKind::Require(e) => has_side_effect_call_exec(e, effects),
        StmtKind::ExpressionStatement(e) => has_side_effect_call_exec(e, effects),
        _ => false,
    }
}

fn any_stmt_side_effect_call(ss: &Vec<Stmt>, effects: &Vec<bool>, Ghost(whole): Ghost<Stmt>) -> (r: bool)
    requires
        decreases_to!(whole => *ss),
    ensures
        r == exists|i: int| 0 <= i < ss.len() && stmt_has_side_effect_call(#[trigger] ss@[i], effects@),
    decreases whole, 0nat,
{
    let mut i: usize = 0;
    while i < ss.len()
        invariant
            i <= ss.len(),
            decreases_to!(whole => *ss),
            forall|j: int| 0 <= j < i ==> !stmt_has_side_effect_call(#[trigger] ss@[j], effects@),
        decreases ss.len() - i,
    {
        proof {
            vstd::std_specs::vec::axiom_vec_index_decreases(*ss, i as int);
        }
        if stmt_has_side_effect_call_exec(&ss[i], effects) {
            return true;
        }
        i = i + 1;
    }
    false
}

fn private_if_write_ok_exec(v: &ModifiedValue, analysis: Option<&PartitionState>) -> (r: bool)
    ensures
        r == private_if_write_ok(*v, analysis),
{
    if !v.target_type.ty.is_primitive_type() {
        return false;
    }
    if v.in_scope {
        match v.target_type.privacy_annotation {
            Some(l) => labels_equal_exec(analysis, l, PrivacyLabel::Me),
            None => false,
        }
    } else {
        true
    }
}

/// The error of the first value that a private `if` may not write: one of a
/// type that is not primitive, or one in scope not owned by `me`.
pub open spec fn first_write_error(vs: Seq<ModifiedValue>, analysis: Option<&PartitionState>) -> Option<TypeError>
    decreases vs.len(),
{
    if vs.len() == 0 {
        None
    } else if !private_if_write_ok(vs[0], analysis) {
        Some(
            if !vs[0].target_type.ty.spec_is_primitive_type() {
                TypeError::PrivateIfNonPrimitiveWrite
            } else {
                TypeError::PrivateIfForeignWrite
            },
        )
    } else {
        first_write_error(vs.drop_first(), analysis)
    }
}

proof fn lemma_first_write_error_none(vs: Seq<ModifiedValue>, analysis: Option<&PartitionState>)
    ensures
        first_write_error(vs, analysis) is None <==> forall|i: int| 0 <= i < vs.len() ==> private_if_write_ok(#[trigger] vs[i], analysis),
    decreases vs.len(),
{
    if vs.len() > 0 {
        lemma_first_write_error_none(vs.drop_first(), analysis);
        if private_if_write_ok(vs[0], analysis) {
            assert forall|i: int| 0 <= i < vs.len() && (forall|j: int| 0 <= j < vs.drop_first().len() ==> private_if_write_ok(#[trigger] vs.drop_first()[j], analysis)) implies private_if_write_ok(#[trigger] vs[i], analysis) by {
                if i > 0 {
                    assert(vs[i] == vs.drop_first()[i - 1]);
                }
            }
            assert forall|j: int| 0 <= j < vs.drop_first().len() && (forall|i: int| 0 <= i < vs.len() ==> private_if_write_ok(#[trigger] vs[i], analysis)) implies private_if_write_ok(#[trigger] vs.drop_first()[j], analysis) by {
                assert(vs.drop_first()[j] == vs[j + 1]);
            }
        }
    }
}

proof fn lemma_first_write_error_concat(a: Seq<ModifiedValue>, b: Seq<ModifiedValue>, analysis: Option<&PartitionState>)
    ensures
        first_write_error(a + b, analysis) == if first_write_error(a, analysis) is Some {
            first_write_error(a, analysis)
        } else {
            first_write_error(b, analysis)
        },
    decreases a.len(),
{
    if a.len() == 0 {
        assert(a + b =~= b);
    } else {
        assert((a + b)[0] == a[0]);
        assert((a + b).drop_first() =~= a.drop_first() + b);
        lemma_first_write_error_concat(a.drop_first(), b, analysis);
    }
}

fn write_error(vs: &Vec<ModifiedValue>, analysis: Option<&PartitionState>) -> (r: Option<TypeError>)
    ensures
        r == first_write_error(vs@, analysis),
{
    let mut i: usize = 0;
    assert(vs@.subrange(0, vs.len() as int) =~= vs@);
    while i < vs.len()
        invariant
            i <= vs.len(),
            first_write_error(vs@, analysis) == first_write_error(vs@.subrange(i as int, vs.len() as int), analysis),
        decreases vs.len() - i,
    {
        let ghost sub = vs@.subrange(i as int, vs.len() as int);
        assert(sub[0] == vs@[i as int]);
        if !private_if_write_ok_exec(&vs[i], analysis) {
            if !vs[i].target_type.ty.is_primitive_type() {
                return Some(TypeError::PrivateIfNonPrimitiveWrite);
            } else {
                return Some(TypeError::PrivateIfForeignWrite);
            }
        }
        assert(sub.drop_first() =~= vs@.subrange(i + 1, vs.len() as int));
        i = i + 1;
    }
    assert(vs@.subrange(i as int, vs.len() as int) =~= Seq::<ModifiedValue>::empty());
    None
}

impl CircuitComplianceChecker {
    /// The compliance check of an `if` (see `stmt_compliance_rel`).
    pub fn visitIfStatement(&mut self, ast: Stmt, effects: &Vec<bool>) -> (r: Result<Stmt, TypeError>)
        requires
            ast.kind is If,
            ast.spec_typed(),
        ensures
            *final(self) == *old(self),
            r is Err <==> stmt_compliance_error(ast, None, old(self).inside_privif_stmt, effects@, old(self).opt_eval_constexpr_in_circuit),
            r matches Ok(x) ==> stmt_compliance_rel(ast, x, None, effects@, old(self).opt_eval_constexpr_in_circuit),
            is_private_if(ast) && first_write_error(if_modified_values(ast), analysis_of(&ast)) is Some ==> r == Err::<
                Stmt,
                TypeError,
            >(first_write_error(if_modified_values(ast), analysis_of(&ast)).unwrap()),
            r matches Err(k) ==> stmt_error_kind(ast, None, old(self).inside_privif_stmt, effects@, old(self).opt_eval_constexpr_in_circuit)
                == Some(k),
    {
        self.check_stmt(ast, None, effects)
    }

    /// The compliance check of a statement below an evaluation `over` set
    /// from above.
    fn check_stmt(&mut self, s: Stmt, over: Option<bool>, effects: &Vec<bool>) -> (r: Result<Stmt, TypeError>)
        requires
            s.spec_typed(),
        ensures
            *final(self) == *old(self),
            r is Err <==> stmt_compliance_error(s, over, old(self).inside_privif_stmt, effects@, old(self).opt_eval_constexpr_in_circuit),
            r matches Ok(x) ==> stmt_compliance_rel(s, x, over, effects@, old(self).opt_eval_constexpr_in_circuit),
            is_private_if(s) && first_write_error(if_modified_values(s), analysis_of(&s)) is Some ==> r == Err::<
                Stmt,
                TypeError,
            >(first_write_error(if_modified_values(s), analysis_of(&s)).unwrap()),
            r matches Err(k) ==> stmt_error_kind(s, over, old(self).inside_privif_stmt, effects@, old(self).opt_eval_constexpr_in_circuit)
                == Some(k),
        decreases s, 2nat,
    {
        let ghost gs = s;
        let private_if = match &s.kind {
            StmtKind::If { condition, .. } => match &condition.annotated_type {
                Some(a) => a.is_private(),
                None => false,
            },
            _ => false,
        };
        let old_inside = self.inside_privif_stmt;
        if private_if {
            let err = match &s.kind {
                StmtKind::If { then_branch, else_branch, .. } => {
                    let a = write_error(&then_branch.modified_values, s.before_analysis.as_ref());
                    let e = match a {
                        Some(x) => Some(x),
                        None => match else_branch {
                            Some(e) => write_error(&e.modified_values, s.before_analysis.as_ref()),
                            None => None,
                        },
                    };
                    proof {
                        let ev = match else_branch {
                            Some(e) => e.modified_values@,
                            None => Seq::<ModifiedValue>::empty(),
                        };
                        assert(if_modified_values(s) == then_branch.modified_values@ + ev);
                        lemma_first_write_error_concat(then_branch.modified_values@, ev, analysis_of(&s));
                        assert(first_write_error(Seq::<ModifiedValue>::empty(), analysis_of(&s)) is None);
                        lemma_first_write_error_none(if_modified_values(s), analysis_of(&s));
                    }
                    e
                },
                _ => None,
            };
            if let Some(e) = err {
                return Err(e);
            }
            if stmt_has_side_effect_call_exec(&s, effects) {
                return Err(TypeError::SideEffectInPrivateExpr);
            }
            self.inside_privif_stmt = true;
        }
        let o = if private_if {
            Some(true)
        } else {
            over
        };
        let r = self.check_stmt_children(s, o, effects);
        self.inside_privif_stmt = old_inside;
        proof {
            assert(*self == *old(self));
        }
        r
    }
}

impl CircuitComplianceChecker {
    fn check_stmt_children(&mut self, s: Stmt, o: Option<bool>, effects: &Vec<bool>) -> (r: Result<
        Stmt,
        TypeError,
    >)
        requires
            s.spec_typed(),
        ensures
            *final(self) == *old(self),
            r is Err <==> stmt_children_error(s, o, old(self).inside_privif_stmt, effects@, old(self).opt_eval_constexpr_in_circuit),
            r matches Ok(x) ==> x == (Stmt { kind: x.kind, ..s }) && stmt_children_rel(s, x, o, effects@, old(self).opt_eval_constexpr_in_circuit),
            r matches Err(k) ==> stmt_children_error_kind(
                s,
                o,
                old(self).inside_privif_stmt,
                effects@,
                old(self).opt_eval_constexpr_in_circuit,
            ) == Some(k),
        decreases s, 1nat,
    {
        let ghost gs = s;
        proof {
            let ins = self.inside_privif_stmt;
            let op = self.opt_eval_constexpr_in_circuit;
            let an_s = analysis_of(&gs);
            match gs.kind {
                StmtKind::If { condition, then_branch, else_branch } => {
                    lemma_error_kind(condition, o, ins, an_s, effects@, op);
                    lemma_stmt_error_kind(*then_branch, o, ins, effects@, op);
                },
                StmtKind::While { condition, .. } => lemma_error_kind(condition, o, ins, an_s, effects@, op),
                StmtKind::For { init, condition, update, .. } => {
                    if let Some(x) = init {
                        lemma_stmt_error_kind(*x, o, ins, effects@, op);
                    }
                    lemma_error_kind(condition, o, ins, an_s, effects@, op);
                    if let Some(x) = update {
                        lemma_stmt_error_kind(*x, o, ins, effects@, op);
                    }
                },
                StmtKind::Assignment { lhs, .. } => lemma_error_kind(lhs, o, ins, an_s, effects@, op),
                _ => {},
            }
        }
        let Stmt { id, kind, line, column, parent, function, namespace, before_analysis, modified_values } = s;
        let an = before_analysis.as_ref();
        let new_kind = match kind {
            StmtKind::Block(ss) => {
                proof {
                    assert(decreases_to!(gs => gs.kind));
                    assert(decreases_to!(gs.kind => gs.kind->Block_0));
                }
                StmtKind::Block(self.check_stmts(ss, o, effects, Ghost(gs))?)
            },
            StmtKind::StatementList(ss) => {
                proof {
                    assert(decreases_to!(gs => gs.kind));
                    assert(decreases_to!(gs.kind => gs.kind->StatementList_0));
                }
                StmtKind::StatementList(self.check_stmts(ss, o, effects, Ghost(gs))?)
            },
            StmtKind::If { condition, then_branch, else_branch } => {
                let c = self.check_expr(condition, o, an, effects)?;
                let t = self.check_stmt(*then_branch, o, effects)?;
                let e = match else_branch {
                    Some(x) => Some(Box::new(self.check_stmt(*x, o, effects)?)),
                    None => None,
                };
                StmtKind::If { condition: c, then_branch: Box::new(t), else_branch: e }
            },
            StmtKind::While { condition, body } => {
                let c = self.check_expr(condition, o, an, effects)?;
                let b = self.check_stmt(*body, o, effects)?;
                StmtKind::While { condition: c, body: Box::new(b) }
            },
            StmtKind::For { init, condition, update, body } => {
                let i = match init {
                    Some(x) => Some(Box::new(self.check_stmt(*x, o, effects)?)),
                    None => None,
                };
                let c = self.check_expr(condition, o, an, effects)?;
                let u = match update {
                    Some(x) => Some(Box::new(self.check_stmt(*x, o, effects)?)),
                    None => None,
                };
                let b = self.check_stmt(*body, o, effects)?;
                StmtKind::For { init: i, condition: c, update: u, body: Box::new(b) }
            },
            StmtKind::Assignment { lhs, rhs } => {
                let l = self.check_expr(lhs, o, an, effects)?;
                let r = self.check_expr(rhs, o, an, effects)?;
                StmtKind::Assignment { lhs: l, rhs: r }
            },
            StmtKind::VariableDeclaration { decl, expr } => {
                let e = match expr {
                    Some(x) => Some(self.check_expr(x, o, an, effects)?),
                    None => None,
                };
                StmtKind::VariableDeclaration { decl, expr: e }
            },
            StmtKind::Return(e) => {
                let e = match e {
                    Some(x) => Some(self.check_expr(x, o, an, effects)?),
                    None => None,
                };
                StmtKind::Return(e)
            },
            StmtKind::Require(e) => StmtKind::Require(self.check_expr(e, o, an, effects)?),
            StmtKind::ExpressionStatement(e) => StmtKind::ExpressionStatement(self.check_expr(e, o, an, effects)?),
            StmtKind::Break => StmtKind::Break,
            StmtKind::Continue => StmtKind::Continue,
        };
        Ok(Stmt { id, kind: new_kind, line, column, parent, function, namespace, before_analysis, modified_values })
    }

    fn check_stmts(
        &mut self,
        ss: Vec<Stmt>,
        o: Option<bool>,
        effects: &Vec<bool>,
        Ghost(whole): Ghost<Stmt>,
    ) -> (r: Result<Vec<Stmt>, TypeError>)
        requires
            decreases_to!(whole => ss),
            forall|i: int| 0 <= i < ss.len() ==> (#[trigger] ss@[i]).spec_typed(),
        ensures
            *final(self) == *old(self),
            r is Err <==> exists|i: int|
                0 <= i < ss.len() && stmt_compliance_error(
                    #[trigger] ss@[i],
                    o,
                    old(self).inside_privif_stmt,
                    effects@,
                    old(self).opt_eval_constexpr_in_circuit,
                ),
            r matches Ok(v) ==> v.len() == ss.len() && forall|i: int|
                0 <= i < ss.len() ==> stmt_compliance_rel(#[trigger] ss@[i], v@[i], o, effects@, old(self).opt_eval_constexpr_in_circuit),
            r matches Err(k) ==> stmts_error_kind(ss@, o, old(self).inside_privif_stmt, effects@, old(self).opt_eval_constexpr_in_circuit)
                == Some(k),
        decreases whole, 0nat,
    {
        let ghost old_ss = ss;
        let mut rest = ss;
        let mut out: Vec<Stmt> = Vec::new();
        assert(old_ss@.subrange(0, old_ss.len() as int) =~= old_ss@);
        while rest.len() > 0
            invariant
                out.len() + rest.len() == old_ss.len(),
                rest@ == old_ss@.subrange(out.len() as int, old_ss.len() as int),
                decreases_to!(whole => old_ss),
                old_ss == ss,
                *self == *old(self),
                stmts_error_kind(old_ss@, o, self.inside_privif_stmt, effects@, self.opt_eval_constexpr_in_circuit) == stmts_error_kind(
                    old_ss@.subrange(out.len() as int, old_ss.len() as int),
                    o,
                    self.inside_privif_stmt,
                    effects@,
                    self.opt_eval_constexpr_in_circuit,
                ),
                forall|j: int| 0 <= j < old_ss.len() ==> (#[trigger] old_ss@[j]).spec_typed(),
                forall|j: int|
                    0 <= j < out.len() ==> stmt_compliance_rel(#[trigger] old_ss@[j], out@[j], o, effects@, self.opt_eval_constexpr_in_circuit),
                forall|j: int|
                    0 <= j < out.len() ==> !stmt_compliance_error(
                        #[trigger] old_ss@[j],
                        o,
                        self.inside_privif_stmt,
                        effects@,
                        self.opt_eval_constexpr_in_circuit,
                    ),
            decreases rest.len(),
        {
            let k = rest.remove(0);
            let ghost i = out.len() as int;
            let ghost sub = old_ss@.subrange(i, old_ss.len() as int);
            proof {
                assert(k == old_ss@[i]);
                vstd::std_specs::vec::axiom_vec_index_decreases(old_ss, i);
                assert(sub[0] == k);
                assert(sub.subrange(1, sub.len() as int) =~= old_ss@.subrange(i + 1, old_ss.len() as int));
                lemma_stmt_error_kind(k, o, self.inside_privif_stmt, effects@, self.opt_eval_constexpr_in_circuit);
            }
            match self.check_stmt(k, o, effects) {
                Ok(x) => out.push(x),
                Err(e) => {
                    proof {
                        assert(stmt_compliance_error(ss@[i], o, self.inside_privif_stmt, effects@, self.opt_eval_constexpr_in_circuit));
                    }
                    return Err(e);
                },
            }
        }
        Ok(out)
    }
}

/// Some expression in the statement has a call that cannot be inlined into a
/// circuit (see `has_call_violation`).
pub open spec fn stmt_has_call_violation(s: Stmt, fns: Seq<ConstructorOrFunctionDefinition>) -> bool
    decreases s,
{
    match s.kind {
        StmtKind::Block(ss) => exists|i: int| 0 <= i < ss.len() && stmt_has_call_violation(#[trigger] ss@[i], fns),
        StmtKind::StatementList(ss) => exists|i: int| 0 <= i < ss.len() && stmt_has_call_violation(#[trigger] ss@[i], fns),
        StmtKind::If { condition, then_branch, else_branch } => {
            ||| has_call_violation(condition, fns)
            ||| stmt_has_call_violation(*then_branch, fns)
            ||| (else_branch matches Some(e) && stmt_has_call_violation(*e, fns))
        },
        StmtKind::While { condition, body } => has_call_violation(condition, fns) || stmt_has_call_violation(*body, fns),
        StmtKind::For { init, condition, update, body } => {
            ||| (init matches Some(x) && stmt_has_call_violation(*x, fns))
            ||| has_call_violation(condition, fns)
            ||| (update matches Some(x) && stmt_has_call_violation(*x, fns))
            ||| stmt_has_call_violation(*body, fns)
        },
        StmtKind::Assignment { lhs, rhs } => has_call_violation(lhs, fns) || has_call_violation(rhs, fns),
        StmtKind::VariableDeclaration { expr, .. } => expr matches Some(e) && has_call_violation(e, fns),
        StmtKind::Return(e) => e matches Some(x) && has_call_violation(x, fns),
        StmtKind::Require(e) => has_call_violation(e, fns),
        StmtKind::ExpressionStatement(e) => has_call_violation(e, fns),
        _ => false,
    }
}

/// The violation reported for a statement: the first one among its parts.
pub open spec fn stmt_first_call_violation(s: Stmt, fns: Seq<ConstructorOrFunctionDefinition>) -> Option<TypeError>
    decreases s, 1nat,
{
    match s.kind {
        StmtKind::Block(ss) => stmts_first_call_violation(ss@, fns),
        StmtKind::StatementList(ss) => stmts_first_call_violation(ss@, fns),
        StmtKind::If { condition, then_branch, else_branch } => first_error(
            first_call_violation(condition, fns),
            first_error(
                stmt_first_call_violation(*then_branch, fns),
                match else_branch {
                    Some(e) => stmt_first_call_violation(*e, fns),
                    None => None,
                },
            ),
        ),
        StmtKind::While { condition, body } => first_error(first_call_violation(condition, fns), stmt_first_call_violation(*body, fns)),
        StmtKind::For { init, condition, update, body } => first_error(
            match init {
                Some(x) => stmt_first_call_violation(*x, fns),
                None => None,
            },
            first_error(
                first_call_violation(condition, fns),
                first_error(
                    match update {
                        Some(x) => stmt_first_call_violation(*x, fns),
                        None => None,
                    },
                    stmt_first_call_violation(*body, fns),
                ),
            ),
        ),
        StmtKind::Assignment { lhs, rhs } => first_error(first_call_violation(lhs, fns), first_call_violation(rhs, fns)),
        StmtKind::VariableDeclaration { expr, .. } => match expr {
            Some(e) => first_call_violation(e, fns),
            None => None,
        },
        StmtKind::Return(e) => match e {
            Some(x) => first_call_violation(x, fns),
            None => None,
        },
        StmtKind::Require(e) => first_call_violation(e, fns),
        StmtKind::ExpressionStatement(e) => first_call_violation(e, fns),
        _ => None,
    }
}

/// The violation reported for the first of the statements that has one.
pub open spec fn stmts_first_call_violation(ss: Seq<Stmt>, fns: Seq<ConstructorOrFunctionDefinition>) -> Option<TypeError>
    decreases ss, 0nat,
{
    if ss.len() == 0 {
        None
    } else {
        first_error(stmt_first_call_violation(ss[0], fns), stmts_first_call_violation(ss.subrange(1, ss.len() as int), fns))
    }
}

/// A violation is reported for a statement exactly where one of its calls has one.
pub proof fn lemma_stmt_first_call_violation(s: Stmt, fns: Seq<ConstructorOrFunctionDefinition>)
    ensures
        stmt_first_call_violation(s, fns) is Some <==> stmt_has_call_violation(s, fns),
    decreases s, 1nat,
{
    match s.kind {
        StmtKind::Block(ss) => lemma_stmts_first_call_violation(ss@, fns),
        StmtKind::StatementList(ss) => lemma_stmts_first_call_violation(ss@, fns),
        StmtKind::If { condition, then_branch, else_branch } => {
            lemma_first_call_violation(condition, fns);
            lemma_stmt_first_call_violation(*then_branch, fns);
            if let Some(e) = else_branch {
                lemma_stmt_first_call_violation(*e, fns);
            }
        },
        StmtKind::While { condition, body } => {
            lemma_first_call_violation(condition, fns);
            lemma_stmt_first_call_violation(*body, fns);
        },
        StmtKind::For { init, condition, update, body } => {
            if let Some(x) = init {
                lemma_stmt_first_call_violation(*x, fns);
            }
            lemma_first_call_violation(condition, fns);
            if let Some(x) = update {
                lemma_stmt_first_call_violation(*x, fns);
            }
            lemma_stmt_first_call_violation(*body, fns);
        },
        StmtKind::Assignment { lhs, rhs } => {
            lemma_first_call_violation(lhs, fns);
            lemma_first_call_violation(rhs, fns);
        },
        StmtKind::VariableDeclaration { expr, .. } => {
            if let Some(e) = expr {
                lemma_first_call_violation(e, fns);
            }
        },
        StmtKind::Return(e) => {
            if let Some(x) = e {
                lemma_first_call_violation(x, fns);
            }
        },
        StmtKind::Require(e) => lemma_first_call_violation(e, fns),
        StmtKind::ExpressionStatement(e) => lemma_first_call_violation(e, fns),
        _ => {},
    }
}

proof fn lemma_stmts_first_call_violation(ss: Seq<Stmt>, fns: Seq<ConstructorOrFunctionDefinition>)
    ensures
        stmts_first_call_violation(ss, fns) is Some <==> exists|i: int| 0 <= i < ss.len() && stmt_has_call_violation(#[trigger] ss[i], fns),
    decreases ss, 0nat,
{
    if ss.len() > 0 {
        let rest = ss.subrange(1, ss.len() as int);
        lemma_stmt_first_call_violation(ss[0], fns);
        lemma_stmts_first_call_violation(rest, fns);
        if stmts_first_call_violation(rest, fns) is Some {
            let j = choose|j: int| 0 <= j < rest.len() && stmt_has_call_violation(#[trigger] rest[j], fns);
            assert(ss[j + 1] == rest[j]);
        }
        if exists|i: int| 0 <= i < ss.len() && stmt_has_call_violation(#[trigger] ss[i], fns) {
            let i = choose|i: int| 0 <= i < ss.len() && stmt_has_call_violation(#[trigger] ss[i], fns);
            if i > 0 {
                assert(rest[i - 1] == ss[i]);
            }
        }
    }
}

impl NonstaticOrIncompatibilityDetector {
    /// Checks every call in the statement.
    pub fn visitStatement(&self, ast: &Stmt, fns: &Vec<ConstructorOrFunctionDefinition>) -> (r: Result<(), TypeError>)
        requires
            ast.spec_typed(),
        ensures
            r is Ok <==> !stmt_has_call_violation(*ast, fns@),
            r == match stmt_first_call_violation(*ast, fns@) {
                Some(x) => Err::<(), TypeError>(x),
                None => Ok(()),
            },
        decreases ast, 1nat,
    {
        proof {
            lemma_stmt_first_call_violation(*ast, fns@);
            let ga = *ast;
            match ga.kind {
                StmtKind::If { condition, then_branch, .. } => {
                    lemma_first_call_violation(condition, fns@);
                    lemma_stmt_first_call_violation(*then_branch, fns@);
                },
                StmtKind::While { condition, .. } => lemma_first_call_violation(condition, fns@),
                StmtKind::For { init, condition, update, .. } => {
                    if let Some(x) = init {
                        lemma_stmt_first_call_violation(*x, fns@);
                    }
                    lemma_first_call_violation(condition, fns@);
                    if let Some(x) = update {
                        lemma_stmt_first_call_violation(*x, fns@);
                    }
                },
                StmtKind::Assignment { lhs, .. } => lemma_first_call_violation(lhs, fns@),
                _ => {},
            }
        }
        match &ast.kind {
            StmtKind::Block(ss) => {
                proof {
                    assert(decreases_to!(*ast => ast.kind));
                    assert(decreases_to!(ast.kind => ast.kind->Block_0));
                }
                self.visit_stmts(ss, fns, Ghost(*ast))
            },
            StmtKind::StatementList(ss) => {
                proof {
                    assert(decreases_to!(*ast => ast.kind));
                    assert(decreases_to!(ast.kind => ast.kind->StatementList_0));
                }
                self.visit_stmts(ss, fns, Ghost(*ast))
            },
            StmtKind::If { condition, then_branch, else_branch } => {
                self.visitExpression(condition, fns)?;
                self.visitStatement(then_branch, fns)?;
                match else_branch {
                    Some(e) => self.visitStatement(e, fns),
                    None => Ok(()),
                }
            },
            StmtKind::While { condition, body } => {
                self.visitExpression(condition, fns)?;
                self.visitStatement(body, fns)
            },
            StmtKind::For { init, condition, update, body } => {
                if let Some(x) = init {
                    self.visitStatement(x, fns)?;
                }
                self.visitExpression(condition, fns)?;
                if let Some(x) = update {
                    self.visitStatement(x, fns)?;
                }
                self.visitStatement(body, fns)
            },
            StmtKind::Assignment { lhs, rhs } => {
                self.visitExpression(lhs, fns)?;
                self.visitExpression(rhs, fns)
            },
            StmtKind::VariableDeclaration { expr, .. } => match expr {
                Some(e) => self.visitExpression(e, fns),
                None => Ok(()),
            },
            StmtKind::Return(e) => match e {
                Some(x) => self.visitExpression(x, fns),
                None => Ok(()),
            },
            StmtKind::Require(e) => self.visitExpression(e, fns),
            StmtKind::ExpressionStatement(e) => self.visitExpression(e, fns),
            _ => Ok(()),
        }
    }

    fn visit_stmts(&self, ss: &Vec<Stmt>, fns: &Vec<ConstructorOrFunctionDefinition>, Ghost(whole): Ghost<Stmt>) -> (r: Result<
        (),
        TypeError,
    >)
        requires
            decreases_to!(whole => *ss),
            forall|i: int| 0 <= i < ss.len() ==> (#[trigger] ss@[i]).spec_typed(),
        ensures
            r is Ok <==> !(exists|i: int| 0 <= i < ss.len() && stmt_has_call_violation(#[trigger] ss@[i], fns@)),
            r == match stmts_first_call_violation(ss@, fns@) {
                Some(x) => Err::<(), TypeError>(x),
                None => Ok(()),
            },
        decreases whole, 0nat,
    {
        let mut i: usize = 0;
        assert(ss@.subrange(0, ss.len() as int) =~= ss@);
        while i < ss.len()
            invariant
                i <= ss.len(),
                decreases_to!(whole => *ss),
                forall|j: int| 0 <= j < ss.len() ==> (#[trigger] ss@[j]).spec_typed(),
                forall|j: int| 0 <= j < i ==> !stmt_has_call_violation(#[trigger] ss@[j], fns@),
                stmts_first_call_violation(ss@, fns@) == stmts_first_call_violation(ss@.subrange(i as int, ss.len() as int), fns@),
            decreases ss.len() - i,
        {
            proof {
                vstd::std_specs::vec::axiom_vec_index_decreases(*ss, i as int);
                let sub = ss@.subrange(i as int, ss.len() as int);
                assert(sub[0] == ss@[i as int]);
                assert(sub.subrange(1, sub.len() as int) =~= ss@.subrange(i + 1, ss.len() as int));
                lemma_stmt_first_call_violation(ss@[i as int], fns@);
            }
            let r = self.visitStatement(&ss[i], fns);
            if r.is_err() {
                return r;
            }
            i = i + 1;
        }
        Ok(())
    }
}

/// Whether each function has side effects.
pub open spec fn side_effect_flags(fs: Seq<ConstructorOrFunctionDefinition>) -> Seq<bool> {
    Seq::new(fs.len(), |i: int| fs[i].has_side_effects)
}

fn side_effect_flags_exec(fs: &Vec<ConstructorOrFunctionDefinition>) -> (r: Vec<bool>)
    ensures
        r@ == side_effect_flags(fs@),
{
    let mut r: Vec<bool> = Vec::new();
    let mut i: usize = 0;
    while i < fs.len()
        invariant
            i <= fs.len(),
            r@ == side_effect_flags(fs@).subrange(0, i as int),
        decreases fs.len() - i,
    {
        r.push(fs[i].has_side_effects);
        i = i + 1;
        proof {
            assert(r@ =~= side_effect_flags(fs@).subrange(0, i as int));
        }
    }
    proof {
        assert(r@ =~= side_effect_flags(fs@));
    }
    r
}

/// The body of the function is typed.
pub open spec fn body_typed(f: ConstructorOrFunctionDefinition) -> bool {
    f.body matches Some(b) ==> b.spec_typed()
}

/// Every body of the contract is typed.
pub open spec fn contract_bodies_typed(c: ContractDefinition) -> bool {
    &&& forall|i: int| 0 <= i < c.constructor_definitions.len() ==> body_typed(#[trigger] c.constructor_definitions@[i])
    &&& forall|i: int| 0 <= i < c.function_definitions.len() ==> body_typed(#[trigger] c.function_definitions@[i])
}

/// The function after the direct detection (see
/// `DirectCanBePrivateDetector::visitConstructorOrFunctionDefinition`).
pub open spec fn direct_private_applied(f: ConstructorOrFunctionDefinition) -> ConstructorOrFunctionDefinition {
    ConstructorOrFunctionDefinition {
        can_be_private: f.can_be_private && (f.body matches Some(b) ==> direct_stmt_ok(b)),
        ..f
    }
}

/// The function's body after the compliance check (see `stmt_compliance_rel`).
pub open spec fn body_checked(old: ConstructorOrFunctionDefinition, new: ConstructorOrFunctionDefinition, effects: Seq<bool>, opt: bool) -> bool {
    &&& new == ConstructorOrFunctionDefinition { body: new.body, ..old }
    &&& match (old.body, new.body) {
        (None, None) => true,
        (Some(a), Some(b)) => stmt_compliance_rel(a, b, None, effects, opt),
        _ => false,
    }
}

impl CircuitComplianceChecker {
    /// The compliance check of a function's body.
    pub fn check_function(
        &mut self,
        f: &mut ConstructorOrFunctionDefinition,
        effects: &Vec<bool>,
    ) -> (r: Result<(), TypeError>)
        requires
            body_typed(*old(f)),
        ensures
            *final(self) == *old(self),
            *final(f) == (ConstructorOrFunctionDefinition { body: final(f).body, ..*old(f) }),
            r is Err <==> (old(f).body matches Some(b) && stmt_compliance_error(
                b,
                None,
                old(self).inside_privif_stmt,
                effects@,
                old(self).opt_eval_constexpr_in_circuit,
            )),
            r is Ok ==> body_checked(*old(f), *final(f), effects@, old(self).opt_eval_constexpr_in_circuit),
            r matches Err(k) ==> old(f).body matches Some(b) && stmt_error_kind(
                b,
                None,
                old(self).inside_privif_stmt,
                effects@,
                old(self).opt_eval_constexpr_in_circuit,
            ) == Some(k),
    {
        let b = f.body.take();
        match b {
            Some(b) => {
                match self.check_stmt(b, None, effects) {
                    Ok(nb) => {
                        f.body = Some(nb);
                        Ok(())
                    },
                    Err(e) => Err(e),
                }
            },
            None => Ok(()),
        }
    }
}

/// Function `k` after the direct and the indirect detection of `can_be_private`.
pub open spec fn private_flags_applied(fs: Seq<ConstructorOrFunctionDefinition>, k: int) -> ConstructorOrFunctionDefinition {
    let mf = Seq::new(fs.len(), |j: int| direct_private_applied(fs[j]));
    ConstructorOrFunctionDefinition { can_be_private: indirect_pass(mf, mf.len() as nat)[k], ..fs[k] }
}

/// After the detection of `can_be_private`, a function whose body holds a
/// `require`, a loop, an expression statement, `break` or `continue` at any
/// depth cannot be private.
pub proof fn law_unsupported_statement_function_not_private(fs: Seq<ConstructorOrFunctionDefinition>, k: int, sub: Stmt)
    requires
        0 <= k < fs.len(),
        fs[k].body is Some,
        stmt_contains_stmt(fs[k].body.unwrap(), sub),
        is_unsupported_in_circuit(sub),
    ensures
        !private_flags_applied(fs, k).can_be_private,
{
    lemma_unsupported_stmt_not_ok(fs[k].body.unwrap(), sub);
    let mf = Seq::new(fs.len(), |j: int| direct_private_applied(fs[j]));
    assert(!mf[k].can_be_private);
    if indirect_pass(mf, mf.len() as nat)[k] {
        lemma_pass_only_clears(mf, mf.len() as nat, k);
    }
}

/// After the detection of `can_be_private`, a constructor whose body holds a
/// `require`, a loop, an expression statement, `break` or `continue` at any
/// depth cannot be private.
pub proof fn law_unsupported_statement_constructor_not_private(
    c: ConstructorOrFunctionDefinition,
    fs: Seq<ConstructorOrFunctionDefinition>,
    sub: Stmt,
)
    requires
        c.body is Some,
        stmt_contains_stmt(c.body.unwrap(), sub),
        is_unsupported_in_circuit(sub),
    ensures
        !private_flags_applied_ctor(c, fs).can_be_private,
{
    lemma_unsupported_stmt_not_ok(c.body.unwrap(), sub);
}

/// After the detection of `can_be_private`, a function whose body holds,
/// outside the callees of calls, a node that cannot be part of a circuit
/// (see `blocks_circuit`) cannot be private.
pub proof fn law_blocking_expression_function_not_private(fs: Seq<ConstructorOrFunctionDefinition>, k: int, sub: Expr)
    requires
        0 <= k < fs.len(),
        fs[k].body is Some,
        stmt_contains_outside_callees(fs[k].body.unwrap(), sub),
        blocks_circuit(sub),
    ensures
        !private_flags_applied(fs, k).can_be_private,
{
    lemma_blocking_node_in_stmt(fs[k].body.unwrap(), sub);
    let mf = Seq::new(fs.len(), |j: int| direct_private_applied(fs[j]));
    assert(!mf[k].can_be_private);
    if indirect_pass(mf, mf.len() as nat)[k] {
        lemma_pass_only_clears(mf, mf.len() as nat, k);
    }
}

/// After the detection of `can_be_private`, a constructor whose body holds,
/// outside the callees of calls, a node that cannot be part of a circuit
/// (see `blocks_circuit`) cannot be private.
pub proof fn law_blocking_expression_constructor_not_private(
    c: ConstructorOrFunctionDefinition,
    fs: Seq<ConstructorOrFunctionDefinition>,
    sub: Expr,
)
    requires
        c.body is Some,
        stmt_contains_outside_callees(c.body.unwrap(), sub),
        blocks_circuit(sub),
    ensures
        !private_flags_applied_ctor(c, fs).can_be_private,
{
    lemma_blocking_node_in_stmt(c.body.unwrap(), sub);
}

/// Constructor `c` after the direct and the indirect detection, with the functions `fs`.
pub open spec fn private_flags_applied_ctor(
    c: ConstructorOrFunctionDefinition,
    fs: Seq<ConstructorOrFunctionDefinition>,
) -> ConstructorOrFunctionDefinition {
    let mf = Seq::new(fs.len(), |j: int| direct_private_applied(fs[j]));
    let d = direct_private_applied(c);
    ConstructorOrFunctionDefinition {
        can_be_private: d.can_be_private && calls_only_private(c.called_functions@, fn_flags(mf)),
        ..c
    }
}

/// No body of the functions has a call that cannot be inlined into a circuit.
pub open spec fn no_call_violation(fs: Seq<ConstructorOrFunctionDefinition>, table: Seq<ConstructorOrFunctionDefinition>) -> bool {
    forall|k: int| 0 <= k < fs.len() ==> ((#[trigger] fs[k]).body matches Some(b) ==> !stmt_has_call_violation(b, table))
}

/// The call violation reported for the bodies: the first one, body by body.
pub open spec fn bodies_first_call_violation(
    fs: Seq<ConstructorOrFunctionDefinition>,
    table: Seq<ConstructorOrFunctionDefinition>,
) -> Option<TypeError>
    decreases fs.len(),
{
    if fs.len() == 0 {
        None
    } else {
        first_error(
            match fs[0].body {
                Some(b) => stmt_first_call_violation(b, table),
                None => None,
            },
            bodies_first_call_violation(fs.subrange(1, fs.len() as int), table),
        )
    }
}

/// The compliance error reported for the bodies: the first one, body by body.
pub open spec fn bodies_error_kind(fs: Seq<ConstructorOrFunctionDefinition>, effects: Seq<bool>, opt: bool) -> Option<TypeError>
    decreases fs.len(),
{
    if fs.len() == 0 {
        None
    } else {
        first_error(
            match fs[0].body {
                Some(b) => stmt_error_kind(b, None, false, effects, opt),
                None => None,
            },
            bodies_error_kind(fs.subrange(1, fs.len() as int), effects, opt),
        )
    }
}

fn check_bodies_calls(
    fs: &Vec<ConstructorOrFunctionDefinition>,
    table: &Vec<ConstructorOrFunctionDefinition>,
) -> (r: Result<(), TypeError>)
    requires
        forall|k: int| 0 <= k < fs.len() ==> body_typed(#[trigger] fs@[k]),
    ensures
        r is Ok <==> no_call_violation(fs@, table@),
        r == match bodies_first_call_violation(fs@, table@) {
            Some(x) => Err::<(), TypeError>(x),
            None => Ok(()),
        },
{
    let d = NonstaticOrIncompatibilityDetector::new();
    let mut k: usize = 0;
    assert(fs@.subrange(0, fs.len() as int) =~= fs@);
    while k < fs.len()
        invariant
            k <= fs.len(),
            forall|j: int| 0 <= j < fs.len() ==> body_typed(#[trigger] fs@[j]),
            forall|j: int| 0 <= j < k ==> ((#[trigger] fs@[j]).body matches Some(b) ==> !stmt_has_call_violation(b, table@)),
            bodies_first_call_violation(fs@, table@) == bodies_first_call_violation(fs@.subrange(k as int, fs.len() as int), table@),
        decreases fs.len() - k,
    {
        proof {
            assert(body_typed(fs@[k as int]));
            let sub = fs@.subrange(k as int, fs.len() as int);
            assert(sub[0] == fs@[k as int]);
            assert(sub.subrange(1, sub.len() as int) =~= fs@.subrange(k + 1, fs.len() as int));
            if let Some(b) = fs@[k as int].body {
                lemma_stmt_first_call_violation(b, table@);
            }
        }
        match &fs[k].body {
            Some(b) => {
                let r = d.visitStatement(b, table);
                if r.is_err() {
                    return r;
                }
            },
            None => {},
        }
        k = k + 1;
    }
    assert(fs@.subrange(k as int, fs.len() as int) =~= Seq::<ConstructorOrFunctionDefinition>::empty());
    Ok(())
}

/// The compliance check keeps an expression typed.
pub proof fn lemma_compliance_rel_typed(old: Expr, new: Expr, over: Option<bool>, effects: Seq<bool>, opt: bool)
    requires
        compliance_rel(old, new, over, effects, opt),
    ensures
        new.spec_typed() == old.spec_typed(),
    decreases old,
{
    let co = children_override(old, over, effects, opt);
    let cur = current_evaluation(old, over);
    match (old.kind, new.kind) {
        (ExprKind::Index { arr: a1, key: k1 }, ExprKind::Index { arr: a2, key: k2 }) => {
            lemma_compliance_rel_typed(*a1, *a2, co, effects, opt);
            lemma_compliance_rel_typed(*k1, *k2, if cur { Some(false) } else { co }, effects, opt);
        },
        (ExprKind::MemberAccess { expr: e1, .. }, ExprKind::MemberAccess { expr: e2, .. }) => {
            lemma_compliance_rel_typed(*e1, *e2, co, effects, opt);
        },
        (ExprKind::FunctionCall { func: f1, args: a1 }, ExprKind::FunctionCall { func: f2, args: a2 }) => {
            match (f1, f2) {
                (Callee::Location(l1), Callee::Location(l2)) => {
                    lemma_compliance_rel_typed(*l1, *l2, co, effects, opt);
                },
                _ => {},
            }
            assert forall|i: int| #![trigger a1@[i]] #![trigger a2@[i]] 0 <= i < a1.len() implies a1@[i].spec_typed() == a2@[i].spec_typed() by {
                lemma_compliance_rel_typed(a1@[i], a2@[i], co, effects, opt);
            }
        },
        (ExprKind::PrimitiveCast { expr: e1, .. }, ExprKind::PrimitiveCast { expr: e2, .. }) => {
            lemma_compliance_rel_typed(*e1, *e2, co, effects, opt);
        },
        (ExprKind::Reclassify { expr: e1, .. }, ExprKind::Reclassify { expr: e2, .. }) => {
            lemma_compliance_rel_typed(*e1, *e2, co, effects, opt);
        },
        (ExprKind::Tuple(a1), ExprKind::Tuple(a2)) => {
            assert forall|i: int| #![trigger a1@[i]] #![trigger a2@[i]] 0 <= i < a1.len() implies a1@[i].spec_typed() == a2@[i].spec_typed() by {
                lemma_compliance_rel_typed(a1@[i], a2@[i], co, effects, opt);
            }
        },
        (ExprKind::New { args: a1, .. }, ExprKind::New { args: a2, .. }) => {
            assert forall|i: int| #![trigger a1@[i]] #![trigger a2@[i]] 0 <= i < a1.len() implies a1@[i].spec_typed() == a2@[i].spec_typed() by {
                lemma_compliance_rel_typed(a1@[i], a2@[i], co, effects, opt);
            }
        },
        _ => {},
    }
}

/// The compliance check keeps a statement typed.
pub proof fn lemma_stmt_compliance_rel_typed(old: Stmt, new: Stmt, over: Option<bool>, effects: Seq<bool>, opt: bool)
    requires
        stmt_compliance_rel(old, new, over, effects, opt),
    ensures
        new.spec_typed() == old.spec_typed(),
    decreases old,
{
    let o = if is_private_if(old) { Some(true) } else { over };
    match (old.kind, new.kind) {
        (StmtKind::Block(a), StmtKind::Block(b)) => {
            assert forall|i: int| #![trigger a@[i]] #![trigger b@[i]] 0 <= i < a.len() implies a@[i].spec_typed() == b@[i].spec_typed() by {
                lemma_stmt_compliance_rel_typed(a@[i], b@[i], o, effects, opt);
            }
        },
        (StmtKind::StatementList(a), StmtKind::StatementList(b)) => {
            assert forall|i: int| #![trigger a@[i]] #![trigger b@[i]] 0 <= i < a.len() implies a@[i].spec_typed() == b@[i].spec_typed() by {
                lemma_stmt_compliance_rel_typed(a@[i], b@[i], o, effects, opt);
            }
        },
        (
            StmtKind::If { condition: c1, then_branch: t1, else_branch: e1 },
            StmtKind::If { condition: c2, then_branch: t2, else_branch: e2 },
        ) => {
            lemma_compliance_rel_typed(c1, c2, o, effects, opt);
            lemma_stmt_compliance_rel_typed(*t1, *t2, o, effects, opt);
            match (e1, e2) {
                (Some(x), Some(y)) => lemma_stmt_compliance_rel_typed(*x, *y, o, effects, opt),
                _ => {},
            }
        },
        (StmtKind::While { condition: c1, body: b1 }, StmtKind::While { condition: c2, body: b2 }) => {
            lemma_compliance_rel_typed(c1, c2, o, effects, opt);
            lemma_stmt_compliance_rel_typed(*b1, *b2, o, effects, opt);
        },
        (
            StmtKind::For { init: i1, condition: c1, update: u1, body: b1 },
            StmtKind::For { init: i2, condition: c2, update: u2, body: b2 },
        ) => {
            match (i1, i2) {
                (Some(x), Some(y)) => lemma_stmt_compliance_rel_typed(*x, *y, o, effects, opt),
                _ => {},
            }
            lemma_compliance_rel_typed(c1, c2, o, effects, opt);
            match (u1, u2) {
                (Some(x), Some(y)) => lemma_stmt_compliance_rel_typed(*x, *y, o, effects, opt),
                _ => {},
            }
            lemma_stmt_compliance_rel_typed(*b1, *b2, o, effects, opt);
        },
        (StmtKind::Assignment { lhs: l1, rhs: r1 }, StmtKind::Assignment { lhs: l2, rhs: r2 }) => {
            lemma_compliance_rel_typed(l1, l2, o, effects, opt);
            lemma_compliance_rel_typed(r1, r2, o, effects, opt);
        },
        (StmtKind::VariableDeclaration { expr: x1, .. }, StmtKind::VariableDeclaration { expr: x2, .. }) => {
            match (x1, x2) {
                (Some(x), Some(y)) => lemma_compliance_rel_typed(x, y, o, effects, opt),
                _ => {},
            }
        },
        (StmtKind::Return(x1), StmtKind::Return(x2)) => {
            match (x1, x2) {
                (Some(x), Some(y)) => lemma_compliance_rel_typed(x, y, o, effects, opt),
                _ => {},
            }
        },
        (StmtKind::Require(x), StmtKind::Require(y)) => lemma_compliance_rel_typed(x, y, o, effects, opt),
        (StmtKind::ExpressionStatement(x), StmtKind::ExpressionStatement(y)) => lemma_compliance_rel_typed(x, y, o, effects, opt),
        _ => {},
    }
}

/// The compliance check keeps a function's body typed.
pub proof fn lemma_compliance_keeps_body_typed(
    old: ConstructorOrFunctionDefinition,
    new: ConstructorOrFunctionDefinition,
    effects: Seq<bool>,
    opt: bool,
)
    requires
        body_checked(old, new, effects, opt),
        body_typed(old),
    ensures
        body_typed(new),
{
    match (old.body, new.body) {
        (Some(a), Some(b)) => lemma_stmt_compliance_rel_typed(a, b, None, effects, opt),
        _ => {},
    }
}

/// The compliance check fails in the body of `f`.
pub open spec fn body_error(f: ConstructorOrFunctionDefinition, effects: Seq<bool>, opt: bool) -> bool {
    f.body matches Some(b) && stmt_compliance_error(b, None, false, effects, opt)
}

/// The compliance check fails in the body of a constructor or function of
/// `c`, each with the flags that the detectors give it.
pub open spec fn compliance_body_error(c: ContractDefinition, opt: bool) -> bool {
    let effects = side_effect_flags(c.function_definitions@);
    ||| exists|k: int|
        0 <= k < c.constructor_definitions.len() && body_error(
            private_flags_applied_ctor(#[trigger] c.constructor_definitions@[k], c.function_definitions@),
            effects,
            opt,
        )
    ||| exists|k: int|
        0 <= k < c.function_definitions.len() && body_error(
            #[trigger] private_flags_applied(c.function_definitions@, k),
            effects,
            opt,
        )
}

/// The constructors of `c` with the flags that the detectors give them.
pub open spec fn applied_constructors(c: ContractDefinition) -> Seq<ConstructorOrFunctionDefinition> {
    Seq::new(c.constructor_definitions.len() as nat, |k: int| private_flags_applied_ctor(c.constructor_definitions@[k], c.function_definitions@))
}

/// The functions of `c` with the flags that the detectors give them.
pub open spec fn applied_functions(c: ContractDefinition) -> Seq<ConstructorOrFunctionDefinition> {
    Seq::new(c.function_definitions.len() as nat, |k: int| private_flags_applied(c.function_definitions@, k))
}

/// Determines for every function of the contract whether it can be used
/// inside a circuit (directly, then through the functions it calls), decides
/// which expressions are evaluated privately, and rejects private parts that
/// cannot be in a circuit.
pub fn check_circuit_compliance(c: &mut ContractDefinition, opt_eval_constexpr_in_circuit: bool) -> (r: Result<(), TypeError>)
    requires
        contract_calls_in_range(*old(c)),
        contract_bodies_typed(*old(c)),
    ensures
        final(c).function_definitions.len() == old(c).function_definitions.len(),
        final(c).constructor_definitions.len() == old(c).constructor_definitions.len(),
        forall|k: int| 0 <= k < old(c).function_definitions.len() ==> (#[trigger] final(c).function_definitions@[k]).can_be_private
            == private_flags_applied(old(c).function_definitions@, k).can_be_private,
        forall|k: int| 0 <= k < old(c).constructor_definitions.len() ==> (#[trigger] final(c).constructor_definitions@[k]).can_be_private
            == private_flags_applied_ctor(old(c).constructor_definitions@[k], old(c).function_definitions@).can_be_private,
        r is Ok <==> !compliance_body_error(*old(c), opt_eval_constexpr_in_circuit) && no_call_violation(
            final(c).constructor_definitions@,
            final(c).function_definitions@,
        ) && no_call_violation(final(c).function_definitions@, final(c).function_definitions@),
        r matches Err(k) ==> Some(k) == first_error(
            first_error(
                bodies_error_kind(applied_constructors(*old(c)), side_effect_flags(old(c).function_definitions@), opt_eval_constexpr_in_circuit),
                bodies_error_kind(applied_functions(*old(c)), side_effect_flags(old(c).function_definitions@), opt_eval_constexpr_in_circuit),
            ),
            first_error(
                bodies_first_call_violation(final(c).constructor_definitions@, final(c).function_definitions@),
                bodies_first_call_violation(final(c).function_definitions@, final(c).function_definitions@),
            ),
        ),
        r is Ok ==> {
            &&& forall|k: int| 0 <= k < old(c).function_definitions.len() ==> body_checked(
                private_flags_applied(old(c).function_definitions@, k),
                #[trigger] final(c).function_definitions@[k],
                side_effect_flags(old(c).function_definitions@),
                opt_eval_constexpr_in_circuit,
            )
            &&& forall|k: int| 0 <= k < old(c).constructor_definitions.len() ==> body_checked(
                private_flags_applied_ctor(old(c).constructor_definitions@[k], old(c).function_definitions@),
                #[trigger] final(c).constructor_definitions@[k],
                side_effect_flags(old(c).function_definitions@),
                opt_eval_constexpr_in_circuit,
            )
            &&& no_call_violation(final(c).constructor_definitions@, final(c).function_definitions@)
            &&& no_call_violation(final(c).function_definitions@, final(c).function_definitions@)
        },
{
    let ghost c0 = *c;
    let ghost mf = Seq::new(c0.function_definitions@.len(), |j: int| direct_private_applied(c0.function_definitions@[j]));
    let direct = DirectCanBePrivateDetector::new();
    let m = c.constructor_definitions.len();
    let mut j: usize = 0;
    while j < m
        invariant
            j <= m,
            m == c.constructor_definitions.len(),
            m == c0.constructor_definitions.len(),
            contract_bodies_typed(c0),
            forall|k: int| 0 <= k < j ==> #[trigger] c.constructor_definitions@[k] == direct_private_applied(c0.constructor_definitions@[k]),
            forall|k: int| j <= k < m ==> #[trigger] c.constructor_definitions@[k] == c0.constructor_definitions@[k],
            c.function_definitions == c0.function_definitions,
        decreases m - j,
    {
        proof {
            assert(body_typed(c0.constructor_definitions@[j as int]));
        }
        direct.visitConstructorOrFunctionDefinition(&mut c.constructor_definitions[j]);
        j = j + 1;
    }
    let n = c.function_definitions.len();
    let mut i: usize = 0;
    while i < n
        invariant
            i <= n,
            n == c.function_definitions.len(),
            n == c0.function_definitions.len(),
            c.constructor_definitions.len() == m,
            m == c0.constructor_definitions.len(),
            contract_bodies_typed(c0),
            forall|k: int| 0 <= k < m ==> #[trigger] c.constructor_definitions@[k] == direct_private_applied(c0.constructor_definitions@[k]),
            forall|k: int| 0 <= k < i ==> #[trigger] c.function_definitions@[k] == direct_private_applied(c0.function_definitions@[k]),
            forall|k: int| i <= k < n ==> #[trigger] c.function_definitions@[k] == c0.function_definitions@[k],
        decreases n - i,
    {
        proof {
            assert(body_typed(c0.function_definitions@[i as int]));
        }
        direct.visitConstructorOrFunctionDefinition(&mut c.function_definitions[i]);
        i = i + 1;
    }
    proof {
        assert(c.function_definitions@ =~= mf);
        assert(contract_calls_in_range(*c)) by {
            assert forall|k: int| 0 <= k < c.constructor_definitions.len() implies calls_in_range(
                (#[trigger] c.constructor_definitions@[k]).called_functions@,
                c.function_definitions.len() as int,
            ) by {
                assert(c.constructor_definitions@[k].called_functions == c0.constructor_definitions@[k].called_functions);
            }
            assert forall|k: int| 0 <= k < c.function_definitions.len() implies calls_in_range(
                (#[trigger] c.function_definitions@[k]).called_functions@,
                c.function_definitions.len() as int,
            ) by {
                assert(c.function_definitions@[k].called_functions == c0.function_definitions@[k].called_functions);
            }
        }
    }
    let ghost c1 = *c;
    IndirectCanBePrivateDetector::new().visitContractDefinition(c);
    let ghost c2 = *c;
    proof {
        assert forall|k: int| 0 <= k < n implies #[trigger] c2.function_definitions@[k] == private_flags_applied(c0.function_definitions@, k) by {
            assert(c1.function_definitions@[k] == mf[k]);
        }
        assert forall|k: int| 0 <= k < m implies #[trigger] c2.constructor_definitions@[k] == private_flags_applied_ctor(
            c0.constructor_definitions@[k],
            c0.function_definitions@,
        ) by {
            assert(c1.constructor_definitions@[k] == direct_private_applied(c0.constructor_definitions@[k]));
            assert(fn_flags(c1.function_definitions@) =~= fn_flags(mf));
        }
    }
    let effects = side_effect_flags_exec(&c.function_definitions);
    proof {
        assert(effects@ =~= side_effect_flags(c0.function_definitions@));
    }
    let mut checker = CircuitComplianceChecker::new(opt_eval_constexpr_in_circuit);
    proof {
        assert(c2.constructor_definitions@ =~= applied_constructors(c0));
        assert(c2.function_definitions@ =~= applied_functions(c0));
        assert(applied_constructors(c0).subrange(0, m as int) =~= applied_constructors(c0));
    }
    let mut j: usize = 0;
    while j < m
        invariant
            j <= m,
            m == c.constructor_definitions.len(),
            m == c0.constructor_definitions.len(),
            n == c.function_definitions.len(),
            n == c0.function_definitions.len(),
            c.function_definitions == c2.function_definitions,
            contract_bodies_typed(c0),
            !checker.inside_privif_stmt,
            checker.opt_eval_constexpr_in_circuit == opt_eval_constexpr_in_circuit,
            effects@ == side_effect_flags(c0.function_definitions@),
            c0 == *old(c),
            c2.constructor_definitions.len() == m,
            c2.function_definitions.len() == n,
            forall|k: int| 0 <= k < m ==> (#[trigger] c.constructor_definitions@[k]).can_be_private == c2.constructor_definitions@[k].can_be_private,
            forall|k: int| 0 <= k < n ==> (#[trigger] c.function_definitions@[k]).can_be_private == c2.function_definitions@[k].can_be_private,
            forall|k: int| 0 <= k < n ==> #[trigger] c2.function_definitions@[k] == private_flags_applied(c0.function_definitions@, k),
            forall|k: int| 0 <= k < m ==> #[trigger] c2.constructor_definitions@[k] == private_flags_applied_ctor(
                c0.constructor_definitions@[k],
                c0.function_definitions@,
            ),
            forall|k: int| 0 <= k < j ==> body_checked(
                c2.constructor_definitions@[k],
                #[trigger] c.constructor_definitions@[k],
                effects@,
                opt_eval_constexpr_in_circuit,
            ),
            forall|k: int| j <= k < m ==> #[trigger] c.constructor_definitions@[k] == c2.constructor_definitions@[k],
            forall|k: int| 0 <= k < j ==> !body_error(#[trigger] c2.constructor_definitions@[k], effects@, opt_eval_constexpr_in_circuit),
            c2.constructor_definitions@ == applied_constructors(c0),
            bodies_error_kind(applied_constructors(c0), effects@, opt_eval_constexpr_in_circuit) == bodies_error_kind(
                applied_constructors(c0).subrange(j as int, m as int),
                effects@,
                opt_eval_constexpr_in_circuit,
            ),
        decreases m - j,
    {
        proof {
            assert(body_typed(c0.constructor_definitions@[j as int]));
            assert(c.constructor_definitions@[j as int].body == c0.constructor_definitions@[j as int].body);
            let sub = applied_constructors(c0).subrange(j as int, m as int);
            assert(sub[0] == c2.constructor_definitions@[j as int]);
            assert(sub.subrange(1, sub.len() as int) =~= applied_constructors(c0).subrange(j + 1, m as int));
            if let Some(b) = c2.constructor_definitions@[j as int].body {
                lemma_stmt_error_kind(b, None, false, effects@, opt_eval_constexpr_in_circuit);
            }
        }
        match checker.check_function(&mut c.constructor_definitions[j], &effects) {
            Ok(()) => {},
            Err(e) => {
                proof {
                    assert(body_error(c2.constructor_definitions@[j as int], effects@, opt_eval_constexpr_in_circuit));
                    assert(c2.constructor_definitions@[j as int] == private_flags_applied_ctor(
                        c0.constructor_definitions@[j as int],
                        c0.function_definitions@,
                    ));
                }
                return Err(e);
            },
        }
        j = j + 1;
    }
    proof {
        assert(applied_constructors(c0).subrange(m as int, m as int) =~= Seq::<ConstructorOrFunctionDefinition>::empty());
        assert(applied_functions(c0).subrange(0, n as int) =~= applied_functions(c0));
    }
    let mut i: usize = 0;
    while i < n
        invariant
            i <= n,
            m == c.constructor_definitions.len(),
            m == c0.constructor_definitions.len(),
            n == c.function_definitions.len(),
            n == c0.function_definitions.len(),
            contract_bodies_typed(c0),
            !checker.inside_privif_stmt,
            checker.opt_eval_constexpr_in_circuit == opt_eval_constexpr_in_circuit,
            effects@ == side_effect_flags(c0.function_definitions@),
            c0 == *old(c),
            c2.constructor_definitions.len() == m,
            c2.function_definitions.len() == n,
            forall|k: int| 0 <= k < m ==> (#[trigger] c.constructor_definitions@[k]).can_be_private == c2.constructor_definitions@[k].can_be_private,
            forall|k: int| 0 <= k < n ==> (#[trigger] c.function_definitions@[k]).can_be_private == c2.function_definitions@[k].can_be_private,
            forall|k: int| 0 <= k < n ==> #[trigger] c2.function_definitions@[k] == private_flags_applied(c0.function_definitions@, k),
            forall|k: int| 0 <= k < m ==> #[trigger] c2.constructor_definitions@[k] == private_flags_applied_ctor(
                c0.constructor_definitions@[k],
                c0.function_definitions@,
            ),
            forall|k: int| 0 <= k < m ==> body_checked(
                c2.constructor_definitions@[k],
                #[trigger] c.constructor_definitions@[k],
                effects@,
                opt_eval_constexpr_in_circuit,
            ),
            forall|k: int| 0 <= k < i ==> body_checked(
                c2.function_definitions@[k],
                #[trigger] c.function_definitions@[k],
                effects@,
                opt_eval_constexpr_in_circuit,
            ),
            forall|k: int| i <= k < n ==> #[trigger] c.function_definitions@[k] == c2.function_definitions@[k],
            forall|k: int| 0 <= k < m ==> !body_error(#[trigger] c2.constructor_definitions@[k], effects@, opt_eval_constexpr_in_circuit),
            forall|k: int| 0 <= k < i ==> !body_error(#[trigger] c2.function_definitions@[k], effects@, opt_eval_constexpr_in_circuit),
            c2.function_definitions@ == applied_functions(c0),
            bodies_error_kind(applied_constructors(c0), effects@, opt_eval_constexpr_in_circuit) is None,
            bodies_error_kind(applied_functions(c0), effects@, opt_eval_constexpr_in_circuit) == bodies_error_kind(
                applied_functions(c0).subrange(i as int, n as int),
                effects@,
                opt_eval_constexpr_in_circuit,
            ),
        decreases n - i,
    {
        proof {
            assert(body_typed(c0.function_definitions@[i as int]));
            assert(c.function_definitions@[i as int].body == c0.function_definitions@[i as int].body);
            let sub = applied_functions(c0).subrange(i as int, n as int);
            assert(sub[0] == c2.function_definitions@[i as int]);
            assert(sub.subrange(1, sub.len() as int) =~= applied_functions(c0).subrange(i + 1, n as int));
            if let Some(b) = c2.function_definitions@[i as int].body {
                lemma_stmt_error_kind(b, None, false, effects@, opt_eval_constexpr_in_circuit);
            }
        }
        match checker.check_function(&mut c.function_definitions[i], &effects) {
            Ok(()) => {},
            Err(e) => {
                proof {
                    assert(body_error(c2.function_definitions@[i as int], effects@, opt_eval_constexpr_in_circuit));
                    assert(c2.function_definitions@[i as int] == private_flags_applied(c0.function_definitions@, i as int));
                }
                return Err(e);
            },
        }
        i = i + 1;
    }
    proof {
        assert(applied_functions(c0).subrange(n as int, n as int) =~= Seq::<ConstructorOrFunctionDefinition>::empty());
    }
    proof {
        assert forall|k: int| 0 <= k < m implies body_typed(#[trigger] c.constructor_definitions@[k]) by {
            assert(body_typed(c0.constructor_definitions@[k]));
            lemma_compliance_keeps_body_typed(c2.constructor_definitions@[k], c.constructor_definitions@[k], effects@, opt_eval_constexpr_in_circuit);
        }
        assert forall|k: int| 0 <= k < n implies body_typed(#[trigger] c.function_definitions@[k]) by {
            assert(body_typed(c0.function_definitions@[k]));
            lemma_compliance_keeps_body_typed(c2.function_definitions@[k], c.function_definitions@[k], effects@, opt_eval_constexpr_in_circuit);
        }
    }
    proof {
        if compliance_body_error(c0, opt_eval_constexpr_in_circuit) {
            let effects0 = side_effect_flags(c0.function_definitions@);
            if exists|k: int|
                0 <= k < c0.constructor_definitions.len() && body_error(
                    private_flags_applied_ctor(#[trigger] c0.constructor_definitions@[k], c0.function_definitions@),
                    effects0,
                    opt_eval_constexpr_in_circuit,
                ) {
                let k = choose|k: int|
                    0 <= k < c0.constructor_definitions.len() && body_error(
                        private_flags_applied_ctor(#[trigger] c0.constructor_definitions@[k], c0.function_definitions@),
                        effects0,
                        opt_eval_constexpr_in_circuit,
                    );
                assert(!body_error(c2.constructor_definitions@[k], effects@, opt_eval_constexpr_in_circuit));
            } else {
                let k = choose|k: int|
                    0 <= k < c0.function_definitions.len() && body_error(
                        #[trigger] private_flags_applied(c0.function_definitions@, k),
                        effects0,
                        opt_eval_constexpr_in_circuit,
                    );
                assert(!body_error(c2.function_definitions@[k], effects@, opt_eval_constexpr_in_circuit));
            }
        }
    }
    check_bodies_calls(&c.constructor_definitions, &c.function_definitions)?;
    check_bodies_calls(&c.function_definitions, &c.function_definitions)
}

} // verus!
