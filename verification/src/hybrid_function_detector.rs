//! Marks the functions whose execution needs a zero-knowledge proof.
use vstd::prelude::*;
use crate::ast::{
    expr_contains, is_private_builtin_call, stmt_contains_expr, Callee, ConstructorOrFunctionDefinition, ContractDefinition, DeclKind, Declaration, Expr, ExprKind, Stmt, StmtKind,
};
use crate::circuit_compatibility::{call_graph_closed, calls_closed, calls_in_range, contract_calls_in_range};
use crate::expression_types::{is_cast_callee, location_target};
use crate::type_checker::TypeError;
use crate::ast::SourceUnit;
use crate::visitor::ASTType;

verus! {

/// Whether `e` makes its function need verification: it contains a
/// reclassification, a cast of a privately evaluated value, a private call of
/// a built-in, or a privately evaluated cast to an enum.
pub open spec fn expr_needs_verification(e: Expr) -> bool
    decreases e,
{
    match e.kind {
        ExprKind::Reclassify { .. } => true,
        ExprKind::PrimitiveCast { expr, .. } => expr.evaluate_privately || expr_needs_verification(*expr),
        ExprKind::FunctionCall { func, args } => {
            ||| (func matches Callee::Builtin(b) && b.is_private)
            ||| (func matches Callee::Location(f) && is_cast_callee(*f) && e.evaluate_privately)
            ||| (func matches Callee::Location(f) && expr_needs_verification(*f))
            ||| exists|i: int| 0 <= i < args.len() && expr_needs_verification(#[trigger] args@[i])
        },
        ExprKind::Index { arr, key } => expr_needs_verification(*arr) || expr_needs_verification(*key),
        ExprKind::MemberAccess { expr, .. } => expr_needs_verification(*expr),
        ExprKind::Tuple(elems) => exists|i: int| 0 <= i < elems.len() && expr_needs_verification(#[trigger] elems@[i]),
        ExprKind::New { args, .. } => exists|i: int| 0 <= i < args.len() && expr_needs_verification(#[trigger] args@[i]),
        _ => false,
    }
}

/// Whether some expression in the statement makes its function need verification.
pub open spec fn stmt_needs_verification(s: Stmt) -> bool
    decreases s,
{
    match s.kind {
        StmtKind::Block(ss) => exists|i: int| 0 <= i < ss.len() && stmt_needs_verification(#[trigger] ss@[i]),
        StmtKind::StatementList(ss) => exists|i: int| 0 <= i < ss.len() && stmt_needs_verification(#[trigger] ss@[i]),
        StmtKind::If { condition, then_branch, else_branch } => {
            ||| expr_needs_verification(condition)
            ||| stmt_needs_verification(*then_branch)
            ||| (else_branch matches Some(e) && stmt_needs_verification(*e))
        },
        StmtKind::While { condition, body } => expr_needs_verification(condition) || stmt_needs_verification(*body),
        StmtKind::For { init, condition, update, body } => {
            ||| (init matches Some(x) && stmt_needs_verification(*x))
            ||| expr_needs_verification(condition)
            ||| (update matches Some(x) && stmt_needs_verification(*x))
            ||| stmt_needs_verification(*body)
        },
        StmtKind::Assignment { lhs, rhs } => expr_needs_verification(lhs) || expr_needs_verification(rhs),
        StmtKind::VariableDeclaration { expr, .. } => expr matches Some(e) && expr_needs_verification(e),
        StmtKind::Return(e) => e matches Some(x) && expr_needs_verification(x),
        StmtKind::Require(e) => expr_needs_verification(e),
        StmtKind::ExpressionStatement(e) => expr_needs_verification(e),
        _ => false,
    }
}

/// A node that by itself makes its function need a proof: a private call of
/// a built-in, a reclassification, a cast of a privately evaluated value, or
/// a privately evaluated cast to an enum or contract.
pub open spec fn forces_verification(e: Expr) -> bool {
    ||| is_private_builtin_call(e)
    ||| e.kind is Reclassify
    ||| (e.kind matches ExprKind::PrimitiveCast { expr, .. } && expr.evaluate_privately)
    ||| (e.kind matches ExprKind::FunctionCall { func: Callee::Location(f), .. } && is_cast_callee(*f) && e.evaluate_privately)
}

/// An expression that holds a node that forces verification needs verification.
pub proof fn lemma_forcing_node_in_expr(e: Expr, sub: Expr)
    requires
        expr_contains(e, sub),
        forces_verification(sub),
    ensures
        expr_needs_verification(e),
    decreases e,
{
    if e != sub {
        match e.kind {
            ExprKind::Index { arr, key } => {
                if expr_contains(*arr, sub) {
                    lemma_forcing_node_in_expr(*arr, sub);
                } else {
                    lemma_forcing_node_in_expr(*key, sub);
                }
            },
            ExprKind::MemberAccess { expr, .. } => lemma_forcing_node_in_expr(*expr, sub),
            ExprKind::PrimitiveCast { expr, .. } => lemma_forcing_node_in_expr(*expr, sub),
            ExprKind::Reclassify { .. } => {},
            ExprKind::FunctionCall { func, args } => {
                let in_callee = match func {
                    Callee::Location(f) => expr_contains(*f, sub),
                    Callee::Builtin(_) => false,
                };
                if in_callee {
                    match func {
                        Callee::Location(f) => lemma_forcing_node_in_expr(*f, sub),
                        Callee::Builtin(_) => {},
                    }
                } else {
                    let i = choose|i: int| 0 <= i < args.len() && expr_contains(#[trigger] args@[i], sub);
                    vstd::std_specs::vec::axiom_vec_index_decreases(args, i);
                    lemma_forcing_node_in_expr(args@[i], sub);
                    assert(expr_needs_verification(args@[i]));
                }
            },
            ExprKind::Tuple(elems) => {
                let i = choose|i: int| 0 <= i < elems.len() && expr_contains(#[trigger] elems@[i], sub);
                vstd::std_specs::vec::axiom_vec_index_decreases(elems, i);
                lemma_forcing_node_in_expr(elems@[i], sub);
                assert(expr_needs_verification(elems@[i]));
            },
            ExprKind::New { args, .. } => {
                let i = choose|i: int| 0 <= i < args.len() && expr_contains(#[trigger] args@[i], sub);
                vstd::std_specs::vec::axiom_vec_index_decreases(args, i);
                lemma_forcing_node_in_expr(args@[i], sub);
                assert(expr_needs_verification(args@[i]));
            },
            _ => {},
        }
    }
}

/// A statement that holds a node that forces verification needs verification.
pub proof fn lemma_forcing_node_in_stmt(s: Stmt, sub: Expr)
    requires
        stmt_contains_expr(s, sub),
        forces_verification(sub),
    ensures
        stmt_needs_verification(s),
    decreases s,
{
    match s.kind {
        StmtKind::Block(ss) => {
            let i = choose|i: int| 0 <= i < ss.len() && stmt_contains_expr(#[trigger] ss@[i], sub);
            vstd::std_specs::vec::axiom_vec_index_decreases(ss, i);
            lemma_forcing_node_in_stmt(ss@[i], sub);
            assert(stmt_needs_verification(ss@[i]));
        },
        StmtKind::StatementList(ss) => {
            let i = choose|i: int| 0 <= i < ss.len() && stmt_contains_expr(#[trigger] ss@[i], sub);
            vstd::std_specs::vec::axiom_vec_index_decreases(ss, i);
            lemma_forcing_node_in_stmt(ss@[i], sub);
            assert(stmt_needs_verification(ss@[i]));
        },
        StmtKind::If { condition, then_branch, else_branch } => {
            if expr_contains(condition, sub) {
                lemma_forcing_node_in_expr(condition, sub);
            } else if stmt_contains_expr(*then_branch, sub) {
                lemma_forcing_node_in_stmt(*then_branch, sub);
            } else {
                match else_branch {
                    Some(e) => lemma_forcing_node_in_stmt(*e, sub),
                    None => {},
                }
            }
        },
        StmtKind::While { condition, body } => {
            if expr_contains(condition, sub) {
                lemma_forcing_node_in_expr(condition, sub);
            } else {
                lemma_forcing_node_in_stmt(*body, sub);
            }
        },
        StmtKind::For { init, condition, update, body } => {
            let in_init = match init {
                Some(x) => stmt_contains_expr(*x, sub),
                None => false,
            };
            let in_update = match update {
                Some(x) => stmt_contains_expr(*x, sub),
                None => false,
            };
            if in_init {
                match init {
                    Some(x) => lemma_forcing_node_in_stmt(*x, sub),
                    None => {},
                }
            } else if expr_contains(condition, sub) {
                lemma_forcing_node_in_expr(condition, sub);
            } else if in_update {
                match update {
                    Some(x) => lemma_forcing_node_in_stmt(*x, sub),
                    None => {},
                }
            } else {
                lemma_forcing_node_in_stmt(*body, sub);
            }
        },
        StmtKind::Assignment { lhs, rhs } => {
            if expr_contains(lhs, sub) {
                lemma_forcing_node_in_expr(lhs, sub);
            } else {
                lemma_forcing_node_in_expr(rhs, sub);
            }
        },
        StmtKind::VariableDeclaration { expr, .. } => {
            match expr {
                Some(e) => lemma_forcing_node_in_expr(e, sub),
                None => {},
            }
        },
        StmtKind::Return(e) => {
            match e {
                Some(x) => lemma_forcing_node_in_expr(x, sub),
                None => {},
            }
        },
        StmtKind::Require(e) => lemma_forcing_node_in_expr(e, sub),
        StmtKind::ExpressionStatement(e) => lemma_forcing_node_in_expr(e, sub),
        _ => {},
    }
}

/// Some parameter has a private type.
pub open spec fn has_private_parameter(ps: Seq<Declaration>) -> bool {
    exists|i: int| 0 <= i < ps.len() && (#[trigger] ps[i]).annotated_type.spec_is_private()
}

/// Finds the functions that need verification because of their own body.
pub struct DirectHybridFunctionDetectionVisitor {}

impl DirectHybridFunctionDetectionVisitor {
    /// The kinds of nodes this visitor has visit functions for.
    pub fn has_attr(&self, c: ASTType) -> (r: bool)
        ensures
            r == (c == ASTType::ReclassifyExpr || c == ASTType::PrimitiveCastExpr || c == ASTType::AllExpr || c
                == ASTType::FunctionCallExpr || c == ASTType::NewExpr || c == ASTType::ConstructorOrFunctionDefinition),
    {
        match c {
            ASTType::ReclassifyExpr | ASTType::PrimitiveCastExpr | ASTType::AllExpr | ASTType::FunctionCallExpr
            | ASTType::NewExpr | ASTType::ConstructorOrFunctionDefinition => true,
            _ => false,
        }
    }

    pub fn new() -> (r: DirectHybridFunctionDetectionVisitor) {
        DirectHybridFunctionDetectionVisitor {  }
    }

    /// Whether the expression makes its function need verification.
    pub fn visitExpression(&self, ast: &Expr) -> (r: bool)
        ensures
            r == expr_needs_verification(*ast),
        decreases ast, 2nat,
    {
        match &ast.kind {
            ExprKind::Reclassify { .. } => self.visitReclassifyExpr(ast),
            ExprKind::PrimitiveCast { .. } => self.visitPrimitiveCastExpr(ast),
            ExprKind::All => self.visitAllExpr(ast),
            ExprKind::FunctionCall { .. } => self.visitFunctionCallExpr(ast),
            ExprKind::Index { arr, key } => self.visitExpression(arr) || self.visitExpression(key),
            ExprKind::MemberAccess { expr, .. } => self.visitExpression(expr),
            ExprKind::Tuple(elems) => self.visit_all(elems, Ghost(*ast)),
            ExprKind::New { args, .. } => self.visit_all(args, Ghost(*ast)),
            _ => false,
        }
    }

    fn visit_all(&self, es: &Vec<Expr>, Ghost(whole): Ghost<Expr>) -> (r: bool)
        requires
            decreases_to!(whole => *es),
        ensures
            r == exists|i: int| 0 <= i < es.len() && expr_needs_verification(#[trigger] es@[i]),
        decreases whole, 0nat,
    {
        let mut i: usize = 0;
        while i < es.len()
            invariant
                i <= es.len(),
                decreases_to!(whole => *es),
                forall|j: int| 0 <= j < i ==> !expr_needs_verification(#[trigger] es@[j]),
            decreases es.len() - i,
        {
            proof {
                vstd::std_specs::vec::axiom_vec_index_decreases(*es, i as int);
            }
            if self.visitExpression(&es[i]) {
                return true;
            }
            i = i + 1;
        }
        false
    }

    /// A reclassification always needs verification.
    pub fn visitReclassifyExpr(&self, ast: &Expr) -> (r: bool)
        requires
            ast.kind is Reclassify,
        ensures
            r == expr_needs_verification(*ast),
        decreases ast, 1nat,
    {
        true
    }

    /// A cast needs verification if its argument is evaluated privately.
    pub fn visitPrimitiveCastExpr(&self, ast: &Expr) -> (r: bool)
        requires
            ast.kind is PrimitiveCast,
        ensures
            r == expr_needs_verification(*ast),
        decreases ast, 1nat,
    {
        match &ast.kind {
            ExprKind::PrimitiveCast { expr, .. } => expr.evaluate_privately || self.visitExpression(expr),
            _ => false,
        }
    }

    /// `all` needs nothing.
    pub fn visitAllExpr(&self, ast: &Expr) -> (r: bool)
        requires
            ast.kind is All,
        ensures
            r == expr_needs_verification(*ast),
            !r,
    {
        false
    }

    /// A private call of a built-in, or a private cast to an enum, needs
    /// verification; other calls need it if their parts do.
    pub fn visitFunctionCallExpr(&self, ast: &Expr) -> (r: bool)
        requires
            ast.kind is FunctionCall,
        ensures
            r == expr_needs_verification(*ast),
        decreases ast, 1nat,
    {
        match &ast.kind {
            ExprKind::FunctionCall { func, args } => {
                match func {
                    Callee::Builtin(b) => {
                        if b.is_private {
                            return true;
                        }
                    },
                    Callee::Location(f) => {
                        let target = match &f.kind {
                            ExprKind::Identifier { target, .. } => target,
                            ExprKind::MemberAccess { target, .. } => target,
                            _ => &None,
                        };
                        let cast = match target {
                            Some(t) => t.kind == DeclKind::Enum || t.kind == DeclKind::Contract,
                            None => false,
                        };
                        if cast && ast.evaluate_privately {
                            return true;
                        }
                        if self.visitExpression(f) {
                            return true;
                        }
                    },
                }
                proof {
                    assert(decreases_to!(*ast => ast.kind));
                    assert(decreases_to!(ast.kind => ast.kind->FunctionCall_args));
                }
                self.visit_all(args, Ghost(*ast))
            },
            _ => false,
        }
    }

    /// Whether some expression in the statement needs verification.
    pub fn visitStatement(&self, ast: &Stmt) -> (r: bool)
        ensures
            r == stmt_needs_verification(*ast),
        decreases ast, 1nat,
    {
        match &ast.kind {
            StmtKind::Block(ss) => {
                proof {
                    assert(decreases_to!(*ast => ast.kind));
                    assert(decreases_to!(ast.kind => ast.kind->Block_0));
                }
                self.visit_stmts(ss, Ghost(*ast))
            },
            StmtKind::StatementList(ss) => {
                proof {
                    assert(decreases_to!(*ast => ast.kind));
                    assert(decreases_to!(ast.kind => ast.kind->StatementList_0));
                }
                self.visit_stmts(ss, Ghost(*ast))
            },
            StmtKind::If { condition, then_branch, else_branch } => {
                self.visitExpression(condition) || self.visitStatement(then_branch) || match else_branch {
                    Some(e) => self.visitStatement(e),
                    None => false,
                }
            },
            StmtKind::While { condition, body } => self.visitExpression(condition) || self.visitStatement(body),
            StmtKind::For { init, condition, update, body } => {
                let a = match init {
                    Some(x) => self.visitStatement(x),
                    None => false,
                };
                let b = match update {
                    Some(x) => self.visitStatement(x),
                    None => false,
                };
                a || self.visitExpression(condition) || b || self.visitStatement(body)
            },
            StmtKind::Assignment { lhs, rhs } => self.visitExpression(lhs) || self.visitExpression(rhs),
            StmtKind::VariableDeclaration { expr, .. } => match expr {
                Some(e) => self.visitExpression(e),
                None => false,
            },
            StmtKind::Return(e) => match e {
                Some(x) => self.visitExpression(x),
                None => false,
            },
            StmtKind::Require(e) => self.visitExpression(e),
            StmtKind::ExpressionStatement(e) => self.visitExpression(e),
            _ => false,
        }
    }

    fn visit_stmts(&self, ss: &Vec<Stmt>, Ghost(whole): Ghost<Stmt>) -> (r: bool)
        requires
            decreases_to!(whole => *ss),
        ensures
            r == exists|i: int| 0 <= i < ss.len() && stmt_needs_verification(#[trigger] ss@[i]),
        decreases whole, 0nat,
    {
        let mut i: usize = 0;
        while i < ss.len()
            invariant
                i <= ss.len(),
                decreases_to!(whole => *ss),
                forall|j: int| 0 <= j < i ==> !stmt_needs_verification(#[trigger] ss@[j]),
            decreases ss.len() - i,
        {
            proof {
                vstd::std_specs::vec::axiom_vec_index_decreases(*ss, i as int);
            }
            if self.visitStatement(&ss[i]) {
                return true;
            }
            i = i + 1;
        }
        false
    }

    /// A function needs verification if its body does; a function callable
    /// from outside then needs it when called from outside, and so does one
    /// with a private parameter.
    pub fn visitConstructorOrFunctionDefinition(&self, ast: &mut ConstructorOrFunctionDefinition)
        ensures
            ({
                let rv = old(ast).requires_verification || (old(ast).body matches Some(b) && stmt_needs_verification(b));
                *final(ast) == (ConstructorOrFunctionDefinition {
                    requires_verification: rv,
                    requires_verification_when_external: old(ast).requires_verification_when_external || (
                    old(ast).can_be_external && (rv || has_private_parameter(old(ast).parameters@))),
                    ..*old(ast)
                })
            }),
            forall|e: Expr|
                old(ast).body is Some && #[trigger] stmt_contains_expr(old(ast).body.unwrap(), e)
                    && forces_verification(e) ==> final(ast).requires_verification && (old(ast).can_be_external
                    ==> final(ast).requires_verification_when_external),
    {
        proof {
            assert forall|e: Expr|
                old(ast).body is Some && #[trigger] stmt_contains_expr(old(ast).body.unwrap(), e)
                    && forces_verification(e) implies stmt_needs_verification(old(ast).body.unwrap()) by {
                lemma_forcing_node_in_stmt(old(ast).body.unwrap(), e);
            }
        }
        let needs = match &ast.body {
            Some(b) => self.visitStatement(b),
            None => false,
        };
        if needs {
            ast.requires_verification = true;
        }
        if ast.can_be_external {
            if ast.requires_verification {
                ast.requires_verification_when_external = true;
            } else if has_private_parameter_exec(&ast.parameters) {
                ast.requires_verification_when_external = true;
            }
        }
    }
}

fn has_private_parameter_exec(ps: &Vec<Declaration>) -> (r: bool)
    ensures
        r == has_private_parameter(ps@),
{
    let mut i: usize = 0;
    while i < ps.len()
        invariant
            i <= ps.len(),
            forall|j: int| 0 <= j < i ==> !(#[trigger] ps@[j]).annotated_type.spec_is_private(),
        decreases ps.len() - i,
    {
        if ps[i].annotated_type.is_private() {
            return true;
        }
        i = i + 1;
    }
    false
}

/// The `requires_verification` flags of the functions.
pub open spec fn rv_flags(fs: Seq<ConstructorOrFunctionDefinition>) -> Seq<bool> {
    Seq::new(fs.len(), |i: int| fs[i].requires_verification)
}

/// Some called function needs verification according to `flags`.
pub open spec fn calls_some_verified(called: Seq<usize>, flags: Seq<bool>) -> bool {
    exists|i: int| 0 <= i < called.len() && #[trigger] flags[called[i] as int]
}

/// The flags after the first `k` functions, in order, came to need
/// verification where they call a function that needs it (as the flags stand
/// when they are looked at).
pub open spec fn rv_pass(fs: Seq<ConstructorOrFunctionDefinition>, k: nat) -> Seq<bool>
    decreases k,
{
    if k == 0 || k > fs.len() {
        rv_flags(fs)
    } else {
        let prev = rv_pass(fs, (k - 1) as nat);
        prev.update(k - 1, prev[k - 1] || calls_some_verified(fs[k - 1].called_functions@, prev))
    }
}

/// The pass keeps the length, and the functions not looked at yet keep their flag.
pub proof fn lemma_rv_pass_unprocessed(fs: Seq<ConstructorOrFunctionDefinition>, k: nat, j: int)
    requires
        k <= j < fs.len(),
    ensures
        rv_pass(fs, k).len() == fs.len(),
        rv_pass(fs, k)[j] == fs[j].requires_verification,
    decreases k,
{
    if k > 0 {
        lemma_rv_pass_unprocessed(fs, (k - 1) as nat, j);
    }
}

proof fn lemma_rv_pass_processed(fs: Seq<ConstructorOrFunctionDefinition>, k: nat, j: int)
    requires
        0 <= j < k <= fs.len(),
    ensures
        rv_pass(fs, k)[j] == rv_pass(fs, (j + 1) as nat)[j],
    decreases k,
{
    if k > j + 1 {
        lemma_rv_pass_unprocessed(fs, (k - 1) as nat, (k - 1) as int);
        lemma_rv_pass_processed(fs, (k - 1) as nat, j);
    }
}

proof fn lemma_rv_pass_only_sets(fs: Seq<ConstructorOrFunctionDefinition>, k: nat, j: int)
    requires
        0 <= j < fs.len(),
        fs[j].requires_verification,
    ensures
        rv_pass(fs, k)[j],
    decreases k,
{
    if k > 0 && k <= fs.len() {
        lemma_rv_pass_unprocessed(fs, (k - 1) as nat, (k - 1) as int);
        lemma_rv_pass_only_sets(fs, (k - 1) as nat, j);
    }
}

/// A function reachable through a closed set of calls that needs
/// verification after the pass needs it because some function of the set
/// needed it from the start.
proof fn lemma_verified_through_calls(fs: Seq<ConstructorOrFunctionDefinition>, c: Seq<usize>, g: int)
    requires
        call_graph_closed(fs),
        calls_in_range(c, fs.len() as int),
        calls_closed(c, fs),
        0 <= g < fs.len(),
        exists|x: int| 0 <= x < c.len() && #[trigger] c[x] as int == g,
        rv_pass(fs, fs.len() as nat)[g],
    ensures
        calls_some_verified(c, rv_flags(fs)),
    decreases g,
{
    let n = fs.len() as nat;
    lemma_rv_pass_processed(fs, n, g);
    lemma_rv_pass_unprocessed(fs, g as nat, g);
    let prev = rv_pass(fs, g as nat);
    let called = fs[g].called_functions@;
    let xg = choose|x: int| 0 <= x < c.len() && #[trigger] c[x] as int == g;
    if fs[g].requires_verification {
        assert(rv_flags(fs)[c[xg] as int]);
    } else {
        let i = choose|i: int| 0 <= i < called.len() && #[trigger] prev[called[i] as int];
        let h = called[i] as int;
        assert(calls_in_range(called, fs.len() as int));
        assert(fs[c[xg] as int].called_functions@[i] == called[i]);
        assert(c.contains(fs[c[xg] as int].called_functions@[i]));
        let xh = choose|x: int| 0 <= x < c.len() && c[x] == called[i];
        if h >= g {
            lemma_rv_pass_unprocessed(fs, g as nat, h);
            assert(rv_flags(fs)[c[xh] as int]);
        } else {
            lemma_rv_pass_processed(fs, g as nat, h);
            lemma_rv_pass_processed(fs, n, h);
            assert(c[xh] as int == h);
            lemma_verified_through_calls(fs, c, h);
        }
    }
}

/// After the pass over a contract's functions, with calls as the call graph
/// analysis leaves them, a function that calls one needing verification
/// needs verification too.
pub proof fn law_callers_of_verified_functions_need_verification(
    fs: Seq<ConstructorOrFunctionDefinition>,
    f: int,
    i: int,
)
    requires
        call_graph_closed(fs),
        0 <= f < fs.len(),
        0 <= i < fs[f].called_functions.len(),
        rv_pass(fs, fs.len() as nat)[fs[f].called_functions@[i] as int],
    ensures
        rv_pass(fs, fs.len() as nat)[f],
{
    let n = fs.len() as nat;
    let called = fs[f].called_functions@;
    assert(calls_in_range(called, fs.len() as int) && calls_closed(called, fs));
    assert(called[i] as int == called[i] as int);
    lemma_verified_through_calls(fs, called, called[i] as int);
    let x = choose|x: int| 0 <= x < called.len() && #[trigger] rv_flags(fs)[called[x] as int];
    lemma_rv_pass_only_sets(fs, f as nat, called[x] as int);
    lemma_rv_pass_unprocessed(fs, f as nat, f);
    lemma_rv_pass_processed(fs, n, f);
}

/// After the pass, a constructor that calls a function needing verification
/// needs verification too (its flag as the pass leaves it, see
/// `visitContractDefinition`), with calls as the call graph analysis leaves
/// them.
pub proof fn law_constructors_calling_verified_functions_need_verification(
    fs: Seq<ConstructorOrFunctionDefinition>,
    ctor: ConstructorOrFunctionDefinition,
    i: int,
)
    requires
        call_graph_closed(fs),
        calls_in_range(ctor.called_functions@, fs.len() as int),
        calls_closed(ctor.called_functions@, fs),
        0 <= i < ctor.called_functions.len(),
        rv_pass(fs, fs.len() as nat)[ctor.called_functions@[i] as int],
    ensures
        ctor.requires_verification || calls_some_verified(ctor.called_functions@, rv_flags(fs)),
{
    let called = ctor.called_functions@;
    assert(called[i] as int == called[i] as int);
    lemma_verified_through_calls(fs, called, called[i] as int);
}

/// A function that needs verification only through the functions it calls.
pub struct IndirectHybridFunctionDetectionVisitor {}

impl IndirectHybridFunctionDetectionVisitor {
    /// The kinds of nodes this visitor has visit functions for.
    pub fn has_attr(&self, c: ASTType) -> (r: bool)
        ensures
            r == (c == ASTType::ConstructorOrFunctionDefinition),
    {
        match c {
            ASTType::ConstructorOrFunctionDefinition => true,
            _ => false,
        }
    }

    pub fn new() -> (r: IndirectHybridFunctionDetectionVisitor) {
        IndirectHybridFunctionDetectionVisitor {  }
    }

    /// A function that calls one needing verification (by `flags`) needs it
    /// too, and, if callable from outside, needs it when called from outside.
    pub fn visitConstructorOrFunctionDefinition(&self, ast: &mut ConstructorOrFunctionDefinition, flags: &Vec<bool>)
        requires
            calls_in_range(old(ast).called_functions@, flags.len() as int),
        ensures
            ({
                let now = !old(ast).requires_verification && calls_some_verified(old(ast).called_functions@, flags@);
                *final(ast) == (ConstructorOrFunctionDefinition {
                    requires_verification: old(ast).requires_verification || now,
                    requires_verification_when_external: old(ast).requires_verification_when_external || (now
                        && old(ast).can_be_external),
                    ..*old(ast)
                })
            }),
    {
        if !ast.requires_verification {
            let mut i: usize = 0;
            let mut found = false;
            while i < ast.called_functions.len()
                invariant
                    i <= ast.called_functions.len(),
                    calls_in_range(ast.called_functions@, flags.len() as int),
                    found == exists|j: int| 0 <= j < i && #[trigger] flags@[ast.called_functions@[j] as int],
                decreases ast.called_functions.len() - i,
            {
                let idx = ast.called_functions[i];
                proof {
                    assert(ast.called_functions@[i as int] < flags.len());
                }
                if flags[idx] {
                    found = true;
                }
                i = i + 1;
            }
            if found {
                ast.requires_verification = true;
                if ast.can_be_external {
                    ast.requires_verification_when_external = true;
                }
            }
        }
    }

    /// Runs over the constructors, then the functions of a contract in order.
    pub fn visitContractDefinition(&self, c: &mut ContractDefinition)
        requires
            contract_calls_in_range(*old(c)),
        ensures
            ({
                let fs = old(c).function_definitions@;
                let cs = old(c).constructor_definitions@;
                let fin = rv_pass(fs, fs.len() as nat);
                &&& final(c).function_definitions.len() == fs.len()
                &&& final(c).constructor_definitions.len() == cs.len()
                &&& forall|i: int| 0 <= i < cs.len() ==> (#[trigger] final(c).constructor_definitions@[i]) == ({
                    let now = !cs[i].requires_verification && calls_some_verified(cs[i].called_functions@, rv_flags(fs));
                    ConstructorOrFunctionDefinition {
                        requires_verification: cs[i].requires_verification || now,
                        requires_verification_when_external: cs[i].requires_verification_when_external || (now
                            && cs[i].can_be_external),
                        ..cs[i]
                    }
                })
                &&& forall|i: int| 0 <= i < fs.len() ==> (#[trigger] final(c).function_definitions@[i]) == (
                ConstructorOrFunctionDefinition {
                    requires_verification: fin[i],
                    requires_verification_when_external: fs[i].requires_verification_when_external || (fs[i].can_be_external
                        && !fs[i].requires_verification && fin[i]),
                    ..fs[i]
                })
            }),
            final(c).id == old(c).id,
            final(c).idf == old(c).idf,
            final(c).state_variable_declarations == old(c).state_variable_declarations,
            final(c).enum_definitions == old(c).enum_definitions,
            final(c).parent == old(c).parent,
            final(c).namespace == old(c).namespace,
    {
        let ghost fs0 = c.function_definitions@;
        let ghost cs0 = c.constructor_definitions@;
        let n = c.function_definitions.len();
        let mut flags: Vec<bool> = Vec::new();
        let mut i: usize = 0;
        while i < n
            invariant
                i <= n,
                n == c.function_definitions.len(),
                c.function_definitions@ == fs0,
                flags@ == rv_flags(fs0).subrange(0, i as int),
            decreases n - i,
        {
            flags.push(c.function_definitions[i].requires_verification);
            i = i + 1;
            proof {
                assert(flags@ =~= rv_flags(fs0).subrange(0, i as int));
            }
        }
        proof {
            assert(flags@ =~= rv_flags(fs0));
        }
        let m = c.constructor_definitions.len();
        let mut j: usize = 0;
        while j < m
            invariant
                j <= m,
                m == c.constructor_definitions.len(),
                m == cs0.len(),
                flags@ == rv_flags(fs0),
                fs0.len() == n,
                c.function_definitions@ == fs0,
                contract_calls_in_range(*old(c)),
                cs0 == old(c).constructor_definitions@,
                fs0 == old(c).function_definitions@,
                forall|k: int| j <= k < m ==> #[trigger] c.constructor_definitions@[k] == cs0[k],
                forall|k: int| 0 <= k < j ==> (#[trigger] c.constructor_definitions@[k]) == ({
                    let now = !cs0[k].requires_verification && calls_some_verified(cs0[k].called_functions@, rv_flags(fs0));
                    ConstructorOrFunctionDefinition {
                        requires_verification: cs0[k].requires_verification || now,
                        requires_verification_when_external: cs0[k].requires_verification_when_external || (now
                            && cs0[k].can_be_external),
                        ..cs0[k]
                    }
                }),
                c.id == old(c).id,
                c.idf == old(c).idf,
                c.state_variable_declarations == old(c).state_variable_declarations,
                c.enum_definitions == old(c).enum_definitions,
                c.parent == old(c).parent,
                c.namespace == old(c).namespace,
            decreases m - j,
        {
            proof {
                assert(calls_in_range(cs0[j as int].called_functions@, n as int));
            }
            self.visitConstructorOrFunctionDefinition(&mut c.constructor_definitions[j], &flags);
            j = j + 1;
        }
        let mut i: usize = 0;
        while i < n
            invariant
                i <= n,
                n == c.function_definitions.len(),
                fs0.len() == n,
                contract_calls_in_range(*old(c)),
                fs0 == old(c).function_definitions@,
                flags@ == rv_pass(fs0, i as nat),
                flags.len() == n,
                forall|k: int| 0 <= k < i ==> (#[trigger] c.function_definitions@[k]) == (ConstructorOrFunctionDefinition {
                    requires_verification: flags@[k],
                    requires_verification_when_external: fs0[k].requires_verification_when_external || (fs0[k].can_be_external
                        && !fs0[k].requires_verification && flags@[k]),
                    ..fs0[k]
                }),
                forall|k: int| i <= k < n ==> #[trigger] c.function_definitions@[k] == fs0[k],
                c.constructor_definitions.len() == old(c).constructor_definitions.len(),
                forall|k: int| 0 <= k < old(c).constructor_definitions.len() ==> (#[trigger] c.constructor_definitions@[k]) == ({
                    let cs = old(c).constructor_definitions@;
                    let now = !cs[k].requires_verification && calls_some_verified(
                        cs[k].called_functions@,
                        rv_flags(old(c).function_definitions@),
                    );
                    ConstructorOrFunctionDefinition {
                        requires_verification: cs[k].requires_verification || now,
                        requires_verification_when_external: cs[k].requires_verification_when_external || (now
                            && cs[k].can_be_external),
                        ..cs[k]
                    }
                }),
                c.id == old(c).id,
                c.idf == old(c).idf,
                c.state_variable_declarations == old(c).state_variable_declarations,
                c.enum_definitions == old(c).enum_definitions,
                c.parent == old(c).parent,
                c.namespace == old(c).namespace,
            decreases n - i,
        {
            proof {
                lemma_rv_pass_unprocessed(fs0, i as nat, i as int);
                assert(calls_in_range(fs0[i as int].called_functions@, n as int));
            }
            self.visitConstructorOrFunctionDefinition(&mut c.function_definitions[i], &flags);
            let v = c.function_definitions[i].requires_verification;
            flags.set(i, v);
            i = i + 1;
            proof {
                assert(flags@ =~= rv_pass(fs0, i as nat));
                assert forall|k: int| i <= k < n implies #[trigger] c.function_definitions@[k] == fs0[k] by {}
            }
        }
    }
}

/// The call `e` calls, not inlined, a recursive function that needs verification.
pub open spec fn noninlineable_call(e: Expr, fns: Seq<ConstructorOrFunctionDefinition>) -> bool {
    &&& e.kind matches ExprKind::FunctionCall { func: Callee::Location(f), .. }
    &&& !is_cast_callee(*e.kind->FunctionCall_func->Location_0)
    &&& location_target(*e.kind->FunctionCall_func->Location_0) matches Some(t)
    &&& t.kind matches DeclKind::Function(idx)
    &&& idx < fns.len()
    &&& fns[idx as int].requires_verification
    &&& fns[idx as int].is_recursive
}

/// Some call in `e` is such a call (see `noninlineable_call`).
pub open spec fn has_noninlineable_call(e: Expr, fns: Seq<ConstructorOrFunctionDefinition>) -> bool
    decreases e,
{
    ||| noninlineable_call(e, fns)
    ||| match e.kind {
        ExprKind::Index { arr, key } => has_noninlineable_call(*arr, fns) || has_noninlineable_call(*key, fns),
        ExprKind::MemberAccess { expr, .. } => has_noninlineable_call(*expr, fns),
        ExprKind::FunctionCall { func, args } => {
            ||| (func matches Callee::Location(f) && has_noninlineable_call(*f, fns))
            ||| exists|i: int| 0 <= i < args.len() && has_noninlineable_call(#[trigger] args@[i], fns)
        },
        ExprKind::PrimitiveCast { expr, .. } => has_noninlineable_call(*expr, fns),
        ExprKind::Reclassify { expr, .. } => has_noninlineable_call(*expr, fns),
        ExprKind::Tuple(elems) => exists|i: int| 0 <= i < elems.len() && has_noninlineable_call(#[trigger] elems@[i], fns),
        ExprKind::New { args, .. } => exists|i: int| 0 <= i < args.len() && has_noninlineable_call(#[trigger] args@[i], fns),
        _ => false,
    }
}

/// Some expression in the statement has such a call.
pub open spec fn stmt_has_noninlineable_call(s: Stmt, fns: Seq<ConstructorOrFunctionDefinition>) -> bool
    decreases s,
{
    match s.kind {
        StmtKind::Block(ss) => exists|i: int| 0 <= i < ss.len() && stmt_has_noninlineable_call(#[trigger] ss@[i], fns),
        StmtKind::StatementList(ss) => exists|i: int| 0 <= i < ss.len() && stmt_has_noninlineable_call(#[trigger] ss@[i], fns),
        StmtKind::If { condition, then_branch, else_branch } => {
            ||| has_noninlineable_call(condition, fns)
            ||| stmt_has_noninlineable_call(*then_branch, fns)
            ||| (else_branch matches Some(e) && stmt_has_noninlineable_call(*e, fns))
        },
        StmtKind::While { condition, body } => has_noninlineable_call(condition, fns) || stmt_has_noninlineable_call(*body, fns),
        StmtKind::For { init, condition, update, body } => {
            ||| (init matches Some(x) && stmt_has_noninlineable_call(*x, fns))
            ||| has_noninlineable_call(condition, fns)
            ||| (update matches Some(x) && stmt_has_noninlineable_call(*x, fns))
            ||| stmt_has_noninlineable_call(*body, fns)
        },
        StmtKind::Assignment { lhs, rhs } => has_noninlineable_call(lhs, fns) || has_noninlineable_call(rhs, fns),
        StmtKind::VariableDeclaration { expr, .. } => expr matches Some(e) && has_noninlineable_call(e, fns),
        StmtKind::Return(e) => e matches Some(x) && has_noninlineable_call(x, fns),
        StmtKind::Require(e) => has_noninlineable_call(e, fns),
        StmtKind::ExpressionStatement(e) => has_noninlineable_call(e, fns),
        _ => false,
    }
}

/// Rejects calls of recursive functions that need verification, which
/// cannot be inlined.
pub struct NonInlineableCallDetector {}

impl NonInlineableCallDetector {
    /// The kinds of nodes this visitor has visit functions for.
    pub fn has_attr(&self, c: ASTType) -> (r: bool)
        ensures
            r == (c == ASTType::FunctionCallExpr || c == ASTType::NewExpr),
    {
        match c {
            ASTType::FunctionCallExpr | ASTType::NewExpr => true,
            _ => false,
        }
    }

    pub fn new() -> (r: NonInlineableCallDetector) {
        NonInlineableCallDetector {  }
    }

    /// Whether the call itself cannot be inlined (see `noninlineable_call`).
    fn is_noninlineable(&self, ast: &Expr, fns: &Vec<ConstructorOrFunctionDefinition>) -> (r: bool)
        ensures
            r == noninlineable_call(*ast, fns@),
    {
        match &ast.kind {
            ExprKind::FunctionCall { func: Callee::Location(f), .. } => {
                let target = match &f.kind {
                    ExprKind::Identifier { target, .. } => target,
                    ExprKind::MemberAccess { target, .. } => target,
                    _ => &None,
                };
                match target {
                    Some(t) => match t.kind {
                        DeclKind::Function(idx) => idx < fns.len() && fns[idx].requires_verification && fns[idx].is_recursive,
                        _ => false,
                    },
                    None => false,
                }
            },
            _ => false,
        }
    }

    /// Whether the call, or a call in its callee or arguments, cannot be
    /// inlined (see `has_noninlineable_call`).
    pub fn visitFunctionCallExpr(&self, ast: &Expr, fns: &Vec<ConstructorOrFunctionDefinition>) -> (r: bool)
        requires
            ast.kind is FunctionCall,
        ensures
            r == has_noninlineable_call(*ast, fns@),
        decreases ast, 1nat,
    {
        if self.is_noninlineable(ast, fns) {
            return true;
        }
        match &ast.kind {
            ExprKind::FunctionCall { func, args } => {
                if let Callee::Location(f) = func {
                    if self.visitExpression(f, fns) {
                        return true;
                    }
                }
                proof {
                    assert(decreases_to!(*ast => ast.kind));
                    assert(decreases_to!(ast.kind => ast.kind->FunctionCall_args));
                }
                self.visit_all(args, fns, Ghost(*ast))
            },
            _ => false,
        }
    }

    /// Whether some call in the expression cannot be inlined.
    pub fn visitExpression(&self, ast: &Expr, fns: &Vec<ConstructorOrFunctionDefinition>) -> (r: bool)
        ensures
            r == has_noninlineable_call(*ast, fns@),
        decreases ast, 2nat,
    {
        match &ast.kind {
            ExprKind::Index { arr, key } => self.visitExpression(arr, fns) || self.visitExpression(key, fns),
            ExprKind::MemberAccess { expr, .. } => self.visitExpression(expr, fns),
            ExprKind::FunctionCall { .. } => self.visitFunctionCallExpr(ast, fns),
            ExprKind::PrimitiveCast { expr, .. } => self.visitExpression(expr, fns),
            ExprKind::Reclassify { expr, .. } => self.visitExpression(expr, fns),
            ExprKind::Tuple(elems) => {
                proof {
                    assert(decreases_to!(*ast => ast.kind));
                    assert(decreases_to!(ast.kind => ast.kind->Tuple_0));
                }
                self.visit_all(elems, fns, Ghost(*ast))
            },
            ExprKind::New { args, .. } => {
                proof {
                    assert(decreases_to!(*ast => ast.kind));
                    assert(decreases_to!(ast.kind => ast.kind->New_args));
                }
                self.visit_all(args, fns, Ghost(*ast))
            },
            _ => false,
        }
    }

    fn visit_all(&self, es: &Vec<Expr>, fns: &Vec<ConstructorOrFunctionDefinition>, Ghost(whole): Ghost<Expr>) -> (r: bool)
        requires
            decreases_to!(whole => *es),
        ensures
            r == exists|i: int| 0 <= i < es.len() && has_noninlineable_call(#[trigger] es@[i], fns@),
        decreases whole, 0nat,
    {
        let mut i: usize = 0;
        while i < es.len()
            invariant
                i <= es.len(),
                decreases_to!(whole => *es),
                forall|j: int| 0 <= j < i ==> !has_noninlineable_call(#[trigger] es@[j], fns@),
            decreases es.len() - i,
        {
            proof {
                vstd::std_specs::vec::axiom_vec_index_decreases(*es, i as int);
            }
            if self.visitExpression(&es[i], fns) {
                return true;
            }
            i = i + 1;
        }
        false
    }

    /// Whether some expression in the statement has such a call.
    pub fn visitStatement(&self, ast: &Stmt, fns: &Vec<ConstructorOrFunctionDefinition>) -> (r: bool)
        ensures
            r == stmt_has_noninlineable_call(*ast, fns@),
        decreases ast, 1nat,
    {
        match &ast.kind {
            StmtKind::Block(ss) => {
                proof {
                    assert(decreases_to!(*ast => ast.kind));
                    assert(decreases_to!(ast.kind => ast.kind->Block_0));
                }
                self.visit_stmts(ss, fns, Ghost(*ast))
            },
            StmtKind::StatementList(ss) => {
                proof {
                    assert(decreases_to!(*ast => ast.kind));
                    assert(decreases_to!(ast.kind => ast.kind->StatementList_0));
                }
                self.visit_stmts(ss, fns, Ghost(*ast))
            },
            StmtKind::If { condition, then_branch, else_branch } => {
                self.visitExpression(condition, fns) || self.visitStatement(then_branch, fns) || match else_branch {
                    Some(e) => self.visitStatement(e, fns),
                    None => false,
                }
            },
            StmtKind::While { condition, body } => self.visitExpression(condition, fns) || self.visitStatement(body, fns),
            StmtKind::For { init, condition, update, body } => {
                let a = match init {
                    Some(x) => self.visitStatement(x, fns),
                    None => false,
                };
                let b = match update {
                    Some(x) => self.visitStatement(x, fns),
                    None => false,
                };
                a || self.visitExpression(condition, fns) || b || self.visitStatement(body, fns)
            },
            StmtKind::Assignment { lhs, rhs } => self.visitExpression(lhs, fns) || self.visitExpression(rhs, fns),
            StmtKind::VariableDeclaration { expr, .. } => match expr {
                Some(e) => self.visitExpression(e, fns),
                None => false,
            },
            StmtKind::Return(e) => match e {
                Some(x) => self.visitExpression(x, fns),
                None => false,
            },
            StmtKind::Require(e) => self.visitExpression(e, fns),
            StmtKind::ExpressionStatement(e) => self.visitExpression(e, fns),
            _ => false,
        }
    }

    fn visit_stmts(&self, ss: &Vec<Stmt>, fns: &Vec<ConstructorOrFunctionDefinition>, Ghost(whole): Ghost<Stmt>) -> (r: bool)
        requires
            decreases_to!(whole => *ss),
        ensures
            r == exists|i: int| 0 <= i < ss.len() && stmt_has_noninlineable_call(#[trigger] ss@[i], fns@),
        decreases whole, 0nat,
    {
        let mut i: usize = 0;
        while i < ss.len()
            invariant
                i <= ss.len(),
                decreases_to!(whole => *ss),
                forall|j: int| 0 <= j < i ==> !stmt_has_noninlineable_call(#[trigger] ss@[j], fns@),
            decreases ss.len() - i,
        {
            proof {
                vstd::std_specs::vec::axiom_vec_index_decreases(*ss, i as int);
            }
            if self.visitStatement(&ss[i], fns) {
                return true;
            }
            i = i + 1;
        }
        false
    }
}

/// A function after the direct detection (see
/// `DirectHybridFunctionDetectionVisitor::visitConstructorOrFunctionDefinition`).
pub open spec fn direct_applied(f: ConstructorOrFunctionDefinition) -> ConstructorOrFunctionDefinition {
    let rv = f.requires_verification || (f.body matches Some(b) && stmt_needs_verification(b));
    ConstructorOrFunctionDefinition {
        requires_verification: rv,
        requires_verification_when_external: f.requires_verification_when_external || (f.can_be_external && (rv
            || has_private_parameter(f.parameters@))),
        ..f
    }
}

/// Function `k` of `fs` after the indirect detection over `fs`.
pub open spec fn indirect_applied(fs: Seq<ConstructorOrFunctionDefinition>, k: int) -> ConstructorOrFunctionDefinition {
    let fin = rv_pass(fs, fs.len() as nat);
    ConstructorOrFunctionDefinition {
        requires_verification: fin[k],
        requires_verification_when_external: fs[k].requires_verification_when_external || (fs[k].can_be_external
            && !fs[k].requires_verification && fin[k]),
        ..fs[k]
    }
}

/// A constructor after the indirect detection, with the functions `fs`.
pub open spec fn indirect_applied_ctor(
    c: ConstructorOrFunctionDefinition,
    fs: Seq<ConstructorOrFunctionDefinition>,
) -> ConstructorOrFunctionDefinition {
    let now = !c.requires_verification && calls_some_verified(c.called_functions@, rv_flags(fs));
    ConstructorOrFunctionDefinition {
        requires_verification: c.requires_verification || now,
        requires_verification_when_external: c.requires_verification_when_external || (now && c.can_be_external),
        ..c
    }
}

/// `new` is `old` after the direct, then the indirect detection.
pub open spec fn contract_detected(old: ContractDefinition, new: ContractDefinition) -> bool {
    let mf = Seq::new(old.function_definitions.len() as nat, |k: int| direct_applied(old.function_definitions@[k]));
    let mc = Seq::new(old.constructor_definitions.len() as nat, |k: int| direct_applied(old.constructor_definitions@[k]));
    &&& new.function_definitions.len() == old.function_definitions.len()
    &&& new.constructor_definitions.len() == old.constructor_definitions.len()
    &&& forall|k: int| 0 <= k < mf.len() ==> #[trigger] new.function_definitions@[k] == indirect_applied(mf, k)
    &&& forall|k: int| 0 <= k < mc.len() ==> #[trigger] new.constructor_definitions@[k] == indirect_applied_ctor(mc[k], mf)
    &&& new.id == old.id
    &&& new.idf == old.idf
    &&& new.state_variable_declarations == old.state_variable_declarations
    &&& new.enum_definitions == old.enum_definitions
    &&& new.parent == old.parent
    &&& new.namespace == old.namespace
}

/// After the detection over a contract, a function whose body holds a node
/// that forces verification (see `forces_verification`) anywhere needs
/// verification, and, where it can be called from outside, needs it when
/// called from outside too.
pub proof fn law_proof_nodes_mark_function(
    before: ContractDefinition,
    after: ContractDefinition,
    k: int,
    e: Expr,
)
    requires
        contract_detected(before, after),
        0 <= k < before.function_definitions.len(),
        before.function_definitions@[k].body is Some,
        stmt_contains_expr(before.function_definitions@[k].body.unwrap(), e),
        forces_verification(e),
    ensures
        after.function_definitions@[k].requires_verification,
        before.function_definitions@[k].can_be_external ==> after.function_definitions@[k].requires_verification_when_external,
{
    let f = before.function_definitions@[k];
    lemma_forcing_node_in_stmt(f.body.unwrap(), e);
    let mf = Seq::new(before.function_definitions.len() as nat, |j: int| direct_applied(before.function_definitions@[j]));
    assert(mf[k] == direct_applied(f));
    assert(mf[k].requires_verification);
    lemma_rv_pass_only_sets(mf, mf.len(), k);
    assert(after.function_definitions@[k] == indirect_applied(mf, k));
}

/// After the detection over a contract, a constructor whose body holds a node
/// that forces verification (see `forces_verification`) anywhere needs
/// verification, and, where it can be called from outside, needs it when
/// called from outside too.
pub proof fn law_proof_nodes_mark_constructor(
    before: ContractDefinition,
    after: ContractDefinition,
    k: int,
    e: Expr,
)
    requires
        contract_detected(before, after),
        0 <= k < before.constructor_definitions.len(),
        before.constructor_definitions@[k].body is Some,
        stmt_contains_expr(before.constructor_definitions@[k].body.unwrap(), e),
        forces_verification(e),
    ensures
        after.constructor_definitions@[k].requires_verification,
        before.constructor_definitions@[k].can_be_external ==> after.constructor_definitions@[k].requires_verification_when_external,
{
    let c = before.constructor_definitions@[k];
    lemma_forcing_node_in_stmt(c.body.unwrap(), e);
    let mf = Seq::new(before.function_definitions.len() as nat, |j: int| direct_applied(before.function_definitions@[j]));
    let mc = Seq::new(before.constructor_definitions.len() as nat, |j: int| direct_applied(before.constructor_definitions@[j]));
    assert(mc[k] == direct_applied(c));
    assert(after.constructor_definitions@[k] == indirect_applied_ctor(mc[k], mf));
}

/// The function's body has a call that cannot be inlined.
pub open spec fn body_has_noninlineable_call(f: ConstructorOrFunctionDefinition, fns: Seq<ConstructorOrFunctionDefinition>) -> bool {
    f.body matches Some(b) && stmt_has_noninlineable_call(b, fns)
}

/// Some body in the contract has a call that cannot be inlined.
pub open spec fn contract_has_noninlineable_call(c: ContractDefinition) -> bool {
    ||| exists|k: int|
        0 <= k < c.constructor_definitions.len() && body_has_noninlineable_call(
            #[trigger] c.constructor_definitions@[k],
            c.function_definitions@,
        )
    ||| exists|k: int|
        0 <= k < c.function_definitions.len() && body_has_noninlineable_call(
            #[trigger] c.function_definitions@[k],
            c.function_definitions@,
        )
}

/// The detection over the contract `c` rejects it: after the direct, then
/// the indirect detection, some body of a constructor or function has a call
/// that cannot be inlined.
pub open spec fn detection_rejects(c: ContractDefinition) -> bool {
    let mf = Seq::new(c.function_definitions.len() as nat, |k: int| direct_applied(c.function_definitions@[k]));
    let mc = Seq::new(c.constructor_definitions.len() as nat, |k: int| direct_applied(c.constructor_definitions@[k]));
    let nf = Seq::new(mf.len(), |k: int| indirect_applied(mf, k));
    let nc = Seq::new(mc.len(), |k: int| indirect_applied_ctor(mc[k], mf));
    ||| exists|k: int| 0 <= k < nc.len() && body_has_noninlineable_call(#[trigger] nc[k], nf)
    ||| exists|k: int| 0 <= k < nf.len() && body_has_noninlineable_call(#[trigger] nf[k], nf)
}

/// After the detection, the contract has a call that cannot be inlined
/// exactly when the detection rejects it.
pub proof fn lemma_detected_rejects(old: ContractDefinition, new: ContractDefinition)
    requires
        contract_detected(old, new),
    ensures
        contract_has_noninlineable_call(new) <==> detection_rejects(old),
{
    let mf = Seq::new(old.function_definitions.len() as nat, |k: int| direct_applied(old.function_definitions@[k]));
    let mc = Seq::new(old.constructor_definitions.len() as nat, |k: int| direct_applied(old.constructor_definitions@[k]));
    let nf = Seq::new(mf.len(), |k: int| indirect_applied(mf, k));
    let nc = Seq::new(mc.len(), |k: int| indirect_applied_ctor(mc[k], mf));
    assert(new.function_definitions@ =~= nf);
    assert(new.constructor_definitions@ =~= nc);
    if contract_has_noninlineable_call(new) {
        if exists|k: int|
            0 <= k < new.constructor_definitions.len() && body_has_noninlineable_call(
                #[trigger] new.constructor_definitions@[k],
                new.function_definitions@,
            ) {
            let k = choose|k: int|
                0 <= k < new.constructor_definitions.len() && body_has_noninlineable_call(
                    #[trigger] new.constructor_definitions@[k],
                    new.function_definitions@,
                );
            assert(body_has_noninlineable_call(nc[k], nf));
        } else {
            let k = choose|k: int|
                0 <= k < new.function_definitions.len() && body_has_noninlineable_call(
                    #[trigger] new.function_definitions@[k],
                    new.function_definitions@,
                );
            assert(body_has_noninlineable_call(nf[k], nf));
        }
    }
    if detection_rejects(old) {
        if exists|k: int| 0 <= k < nc.len() && body_has_noninlineable_call(#[trigger] nc[k], nf) {
            let k = choose|k: int| 0 <= k < nc.len() && body_has_noninlineable_call(#[trigger] nc[k], nf);
            assert(body_has_noninlineable_call(new.constructor_definitions@[k], new.function_definitions@));
        } else {
            let k = choose|k: int| 0 <= k < nf.len() && body_has_noninlineable_call(#[trigger] nf[k], nf);
            assert(body_has_noninlineable_call(new.function_definitions@[k], new.function_definitions@));
        }
    }
}

fn any_noninlineable_body(
    bodies: &Vec<ConstructorOrFunctionDefinition>,
    fns: &Vec<ConstructorOrFunctionDefinition>,
) -> (r: bool)
    ensures
        r == exists|k: int|
            0 <= k < bodies.len() && body_has_noninlineable_call(#[trigger] bodies@[k], fns@),
{
    let v = NonInlineableCallDetector::new();
    let mut k: usize = 0;
    while k < bodies.len()
        invariant
            k <= bodies.len(),
            forall|j: int|
                0 <= j < k ==> !body_has_noninlineable_call(#[trigger] bodies@[j], fns@),
        decreases bodies.len() - k,
    {
        let bad = match &bodies[k].body {
            Some(b) => v.visitStatement(b, fns),
            None => false,
        };
        if bad {
            return true;
        }
        k = k + 1;
    }
    false
}

/// Marks the functions of a contract that need verification (see
/// `contract_detected`), then rejects calls of recursive functions that need
/// verification.
pub fn detect_hybrid_functions_in_contract(c: &mut ContractDefinition) -> (r: Result<(), TypeError>)
    requires
        contract_calls_in_range(*old(c)),
    ensures
        contract_detected(*old(c), *final(c)),
        r is Err <==> contract_has_noninlineable_call(*final(c)),
        r is Err ==> r == Err::<(), TypeError>(TypeError::NonInlineableRecursiveCall),
{
    let ghost c0 = *c;
    let direct = DirectHybridFunctionDetectionVisitor::new();
    let m = c.constructor_definitions.len();
    let mut j: usize = 0;
    while j < m
        invariant
            j <= m,
            m == c.constructor_definitions.len(),
            m == c0.constructor_definitions.len(),
            forall|k: int| 0 <= k < j ==> #[trigger] c.constructor_definitions@[k] == direct_applied(c0.constructor_definitions@[k]),
            forall|k: int| j <= k < m ==> #[trigger] c.constructor_definitions@[k] == c0.constructor_definitions@[k],
            c.function_definitions == c0.function_definitions,
            c.id == c0.id,
            c.idf == c0.idf,
            c.state_variable_declarations == c0.state_variable_declarations,
            c.enum_definitions == c0.enum_definitions,
            c.parent == c0.parent,
            c.namespace == c0.namespace,
        decreases m - j,
    {
        direct.visitConstructorOrFunctionDefinition(&mut c.constructor_definitions[j]);
        j = j + 1;
    }
    let n = c.function_definitions.len();
    let mut i: usize = 0;
    while i < n
        invariant
            i <= n,
            n == c.function_definitions.len(),
            n == c0.function_definitions.len(),
            c.constructor_definitions.len() == m,
            m == c0.constructor_definitions.len(),
            forall|k: int| 0 <= k < m ==> #[trigger] c.constructor_definitions@[k] == direct_applied(c0.constructor_definitions@[k]),
            forall|k: int| 0 <= k < i ==> #[trigger] c.function_definitions@[k] == direct_applied(c0.function_definitions@[k]),
            forall|k: int| i <= k < n ==> #[trigger] c.function_definitions@[k] == c0.function_definitions@[k],
            c.id == c0.id,
            c.idf == c0.idf,
            c.state_variable_declarations == c0.state_variable_declarations,
            c.enum_definitions == c0.enum_definitions,
            c.parent == c0.parent,
            c.namespace == c0.namespace,
        decreases n - i,
    {
        direct.visitConstructorOrFunctionDefinition(&mut c.function_definitions[i]);
        i = i + 1;
    }
    let ghost mf = Seq::new(c0.function_definitions.len() as nat, |k: int| direct_applied(c0.function_definitions@[k]));
    let ghost mc = Seq::new(c0.constructor_definitions.len() as nat, |k: int| direct_applied(c0.constructor_definitions@[k]));
    proof {
        assert(c.function_definitions@ =~= mf);
        assert(c.constructor_definitions@ =~= mc);
        assert(contract_calls_in_range(*c)) by {
            assert forall|k: int| 0 <= k < c.constructor_definitions.len() implies crate::circuit_compatibility::calls_in_range(
                (#[trigger] c.constructor_definitions@[k]).called_functions@,
                c.function_definitions.len() as int,
            ) by {
                assert(c.constructor_definitions@[k].called_functions == c0.constructor_definitions@[k].called_functions);
            }
            assert forall|k: int| 0 <= k < c.function_definitions.len() implies crate::circuit_compatibility::calls_in_range(
                (#[trigger] c.function_definitions@[k]).called_functions@,
                c.function_definitions.len() as int,
            ) by {
                assert(c.function_definitions@[k].called_functions == c0.function_definitions@[k].called_functions);
            }
        }
    }
    IndirectHybridFunctionDetectionVisitor::new().visitContractDefinition(c);
    if any_noninlineable_body(&c.constructor_definitions, &c.function_definitions) || any_noninlineable_body(
        &c.function_definitions,
        &c.function_definitions,
    ) {
        return Err(TypeError::NonInlineableRecursiveCall);
    }
    Ok(())
}

/// Marks all functions that need verification and rejects calls that
/// cannot be inlined, contract by contract.
pub fn detect_hybrid_functions(ast: &mut SourceUnit) -> (r: Result<(), TypeError>)
    requires
        forall|i: int| 0 <= i < old(ast).contracts.len() ==> contract_calls_in_range(#[trigger] old(ast).contracts@[i]),
    ensures
        final(ast).id == old(ast).id,
        final(ast).namespace == old(ast).namespace,
        final(ast).contracts.len() == old(ast).contracts.len(),
        r is Ok ==> forall|i: int|
            0 <= i < old(ast).contracts.len() ==> contract_detected(old(ast).contracts@[i], #[trigger] final(ast).contracts@[i])
                && !contract_has_noninlineable_call(final(ast).contracts@[i]),
        r is Err <==> exists|i: int| 0 <= i < old(ast).contracts.len() && detection_rejects(#[trigger] old(ast).contracts@[i]),
        r is Err ==> r == Err::<(), TypeError>(TypeError::NonInlineableRecursiveCall),
        r is Err ==> exists|j: int|
            {
                &&& 0 <= j < old(ast).contracts.len()
                &&& detection_rejects(old(ast).contracts@[j])
                &&& forall|k: int| 0 <= k < j ==> !detection_rejects(#[trigger] old(ast).contracts@[k])
                &&& forall|k: int| 0 <= k <= j ==> contract_detected(old(ast).contracts@[k], #[trigger] final(ast).contracts@[k])
                &&& forall|k: int| j < k < old(ast).contracts.len() ==> #[trigger] final(ast).contracts@[k] == old(ast).contracts@[k]
            },
{
    let ghost a0 = *ast;
    let n = ast.contracts.len();
    let mut i: usize = 0;
    while i < n
        invariant
            i <= n,
            n == ast.contracts.len(),
            n == a0.contracts.len(),
            a0 == *old(ast),
            ast.id == a0.id,
            ast.namespace == a0.namespace,
            forall|k: int| 0 <= k < n ==> contract_calls_in_range(#[trigger] a0.contracts@[k]),
            forall|k: int| 0 <= k < i ==> contract_detected(a0.contracts@[k], #[trigger] ast.contracts@[k])
                && !contract_has_noninlineable_call(ast.contracts@[k]),
            forall|k: int| 0 <= k < i ==> !detection_rejects(#[trigger] a0.contracts@[k]),
            forall|k: int| i <= k < n ==> #[trigger] ast.contracts@[k] == a0.contracts@[k],
        decreases n - i,
    {
        proof {
            assert(contract_calls_in_range(a0.contracts@[i as int]));
        }
        let ghost before = ast.contracts@;
        let r = detect_hybrid_functions_in_contract(&mut ast.contracts[i]);
        proof {
            lemma_detected_rejects(a0.contracts@[i as int], ast.contracts@[i as int]);
            assert forall|k: int| 0 <= k < n && k != i implies #[trigger] ast.contracts@[k] == before[k] by {}
        }
        if r.is_err() {
            proof {
                assert(detection_rejects(a0.contracts@[i as int]));
            }
            return Err(TypeError::NonInlineableRecursiveCall);
        }
        i = i + 1;
    }
    proof {
        assert forall|k: int| 0 <= k < n implies !detection_rejects(#[trigger] a0.contracts@[k]) by {}
    }
    Ok(())
}

} // verus!
