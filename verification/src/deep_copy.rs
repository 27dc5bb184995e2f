//! Deep copies of AST nodes, and replacing one expression by another.
use vstd::prelude::*;
use crate::ast::{BuiltinFunction, Callee, Declaration, Expr, ExprKind, Identifier, ModifiedValue, Stmt, StmtKind};
use crate::parent_setter::{copy_names, expr_relinked, stmt_relinked};
use crate::types::{AnnotatedTypeName, PartitionState};
use crate::type_checker::same_fit_shape;

verus! {

/// `new` copies `old`: the same kind, position, privacy evaluation and, if
/// `with_types`, type (else no type); every subexpression is copied in the same
/// way. Links (parent, namespace, statement) are not part of a copy.
pub open spec fn expr_copied(old: Expr, new: Expr, with_types: bool) -> bool
    decreases old,
{
    &&& new.annotated_type == (if with_types { old.annotated_type } else { None })
    &&& new.evaluate_privately == old.evaluate_privately
    &&& new.line == old.line
    &&& new.column == old.column
    &&& expr_kind_copied(old, new, with_types)
}

/// The kinds of `old` and `new` agree, and their subexpressions are copies.
pub open spec fn expr_kind_copied(old: Expr, new: Expr, with_types: bool) -> bool
    decreases old, 0nat,
{
    match (old.kind, new.kind) {
        (ExprKind::Index { arr: a1, key: k1 }, ExprKind::Index { arr: a2, key: k2 }) => {
            expr_copied(*a1, *a2, with_types) && expr_copied(*k1, *k2, with_types)
        },
        (
            ExprKind::MemberAccess { expr: e1, member: m1, target: t1 },
            ExprKind::MemberAccess { expr: e2, member: m2, target: t2 },
        ) => m1@ == m2@ && t1 == t2 && expr_copied(*e1, *e2, with_types),
        (ExprKind::FunctionCall { func: f1, args: a1 }, ExprKind::FunctionCall { func: f2, args: a2 }) => {
            &&& match (f1, f2) {
                (Callee::Builtin(b1), Callee::Builtin(b2)) => b1 == b2,
                (Callee::Location(l1), Callee::Location(l2)) => expr_copied(*l1, *l2, with_types),
                _ => false,
            }
            &&& a1.len() == a2.len()
            &&& forall|i: int| 0 <= i < a1.len() ==> expr_copied(#[trigger] a1@[i], a2@[i], with_types)
        },
        (
            ExprKind::PrimitiveCast { elem_type: t1, expr: e1, is_implicit: i1 },
            ExprKind::PrimitiveCast { elem_type: t2, expr: e2, is_implicit: i2 },
        ) => t1 == t2 && i1 == i2 && expr_copied(*e1, *e2, with_types),
        (
            ExprKind::Reclassify { expr: e1, privacy: p1, homomorphism: h1, is_rehom: r1 },
            ExprKind::Reclassify { expr: e2, privacy: p2, homomorphism: h2, is_rehom: r2 },
        ) => p1 == p2 && h1 == h2 && r1 == r2 && expr_copied(*e1, *e2, with_types),
        (ExprKind::Tuple(a1), ExprKind::Tuple(a2)) => {
            &&& a1.len() == a2.len()
            &&& forall|i: int| 0 <= i < a1.len() ==> expr_copied(#[trigger] a1@[i], a2@[i], with_types)
        },
        (ExprKind::New { ty: t1, args: a1 }, ExprKind::New { ty: t2, args: a2 }) => {
            &&& t1 == t2
            &&& a1.len() == a2.len()
            &&& forall|i: int| 0 <= i < a1.len() ==> expr_copied(#[trigger] a1@[i], a2@[i], with_types)
        },
        (ExprKind::Identifier { name: n1, target: t1 }, ExprKind::Identifier { name: n2, target: t2 }) => {
            n1@ == n2@ && t1 == t2
        },
        (ExprKind::BooleanLiteral(a), ExprKind::BooleanLiteral(b)) => a == b,
        (ExprKind::NumberLiteral(a), ExprKind::NumberLiteral(b)) => a == b,
        (ExprKind::Me, ExprKind::Me) => true,
        (ExprKind::All, ExprKind::All) => true,
        _ => false,
    }
}

/// The counter after giving the nodes of `e` fresh ids from `start` on, one
/// node after another in pre-order.
pub open spec fn numbering_end(e: Expr, start: u64) -> u64
    decreases e,
{
    let next = start.wrapping_add(1);
    match e.kind {
        ExprKind::Index { arr, key } => numbering_end(*key, numbering_end(*arr, next)),
        ExprKind::MemberAccess { expr, .. } => numbering_end(*expr, next),
        ExprKind::FunctionCall { func, args } => numbering_list_end(
            args@,
            match func {
                Callee::Location(l) => numbering_end(*l, next),
                Callee::Builtin(_) => next,
            },
        ),
        ExprKind::PrimitiveCast { expr, .. } => numbering_end(*expr, next),
        ExprKind::Reclassify { expr, .. } => numbering_end(*expr, next),
        ExprKind::Tuple(elems) => numbering_list_end(elems@, next),
        ExprKind::New { args, .. } => numbering_list_end(args@, next),
        _ => next,
    }
}

/// The counter after numbering the expressions one after another.
pub open spec fn numbering_list_end(es: Seq<Expr>, start: u64) -> u64
    decreases es,
{
    if es.len() == 0 {
        start
    } else {
        numbering_end(es[es.len() - 1], numbering_list_end(es.subrange(0, es.len() - 1), start))
    }
}

/// The nodes of `e` carry fresh ids from the counter value `start` on, in
/// pre-order: the root `start`, then its children in turn.
pub open spec fn numbered(e: Expr, start: u64) -> bool
    decreases e,
{
    let next = start.wrapping_add(1);
    &&& e.id == start
    &&& match e.kind {
        ExprKind::Index { arr, key } => numbered(*arr, next) && numbered(*key, numbering_end(*arr, next)),
        ExprKind::MemberAccess { expr, .. } => numbered(*expr, next),
        ExprKind::FunctionCall { func, args } => match func {
            Callee::Location(l) => numbered(*l, next) && numbered_list(args@, numbering_end(*l, next)),
            Callee::Builtin(_) => numbered_list(args@, next),
        },
        ExprKind::PrimitiveCast { expr, .. } => numbered(*expr, next),
        ExprKind::Reclassify { expr, .. } => numbered(*expr, next),
        ExprKind::Tuple(elems) => numbered_list(elems@, next),
        ExprKind::New { args, .. } => numbered_list(args@, next),
        _ => true,
    }
}

/// The expressions are numbered one after another from `start` on.
pub open spec fn numbered_list(es: Seq<Expr>, start: u64) -> bool
    decreases es,
{
    if es.len() == 0 {
        true
    } else {
        let prefix = es.subrange(0, es.len() - 1);
        numbered_list(prefix, start) && numbered(es[es.len() - 1], numbering_list_end(prefix, start))
    }
}

/// The analysis of a statement copy: the original's if `with_analysis`, else none.
pub open spec fn analysis_copied(old: Option<PartitionState>, new: Option<PartitionState>, with_analysis: bool) -> bool {
    if with_analysis {
        match (old, new) {
            (None, None) => true,
            (Some(a), Some(b)) => b.me_aliases@ == a.me_aliases@,
            _ => false,
        }
    } else {
        new is None
    }
}

/// `new` copies the declaration `old`: the same id (identifiers keep
/// referring to it), name, type and flags, without links.
pub open spec fn declaration_copied(old: Declaration, new: Declaration) -> bool {
    &&& new.id == old.id
    &&& new.idf.id == old.idf.id
    &&& new.idf.name@ == old.idf.name@
    &&& new.idf.parent is None
    &&& new.idf.namespace is None
    &&& new.annotated_type == old.annotated_type
    &&& new.is_final == old.is_final
    &&& new.is_constant == old.is_constant
    &&& new.parent is None
    &&& new.namespace is None
}

/// `new` copies the statement `old`: the same kind and position, every
/// expression copied (see `expr_copied`) and every inner statement copied
/// in the same way; the analysis kept only `with_analysis`; no links and no
/// modified values.
pub open spec fn stmt_copied(old: Stmt, new: Stmt, with_types: bool, with_analysis: bool) -> bool
    decreases old,
{
    &&& new.line == old.line
    &&& new.column == old.column
    &&& new.parent is None
    &&& new.function is None
    &&& new.namespace is None
    &&& new.modified_values.len() == 0
    &&& analysis_copied(old.before_analysis, new.before_analysis, with_analysis)
    &&& match (old.kind, new.kind) {
        (StmtKind::Block(a), StmtKind::Block(b)) => {
            &&& a.len() == b.len()
            &&& forall|i: int| 0 <= i < a.len() ==> stmt_copied(#[trigger] a@[i], b@[i], with_types, with_analysis)
        },
        (StmtKind::StatementList(a), StmtKind::StatementList(b)) => {
            &&& a.len() == b.len()
            &&& forall|i: int| 0 <= i < a.len() ==> stmt_copied(#[trigger] a@[i], b@[i], with_types, with_analysis)
        },
        (
            StmtKind::If { condition: c1, then_branch: t1, else_branch: e1 },
            StmtKind::If { condition: c2, then_branch: t2, else_branch: e2 },
        ) => {
            &&& expr_copied(c1, c2, with_types)
            &&& stmt_copied(*t1, *t2, with_types, with_analysis)
            &&& match (e1, e2) {
                (None, None) => true,
                (Some(a), Some(b)) => stmt_copied(*a, *b, with_types, with_analysis),
                _ => false,
            }
        },
        (StmtKind::While { condition: c1, body: b1 }, StmtKind::While { condition: c2, body: b2 }) => {
            expr_copied(c1, c2, with_types) && stmt_copied(*b1, *b2, with_types, with_analysis)
        },
        (
            StmtKind::For { init: i1, condition: c1, update: u1, body: b1 },
            StmtKind::For { init: i2, condition: c2, update: u2, body: b2 },
        ) => {
            &&& match (i1, i2) {
                (None, None) => true,
                (Some(a), Some(b)) => stmt_copied(*a, *b, with_types, with_analysis),
                _ => false,
            }
            &&& expr_copied(c1, c2, with_types)
            &&& match (u1, u2) {
                (None, None) => true,
                (Some(a), Some(b)) => stmt_copied(*a, *b, with_types, with_analysis),
                _ => false,
            }
            &&& stmt_copied(*b1, *b2, with_types, with_analysis)
        },
        (StmtKind::Assignment { lhs: l1, rhs: r1 }, StmtKind::Assignment { lhs: l2, rhs: r2 }) => {
            expr_copied(l1, l2, with_types) && expr_copied(r1, r2, with_types)
        },
        (StmtKind::VariableDeclaration { decl: d1, expr: x1 }, StmtKind::VariableDeclaration { decl: d2, expr: x2 }) => {
            &&& declaration_copied(d1, d2)
            &&& match (x1, x2) {
                (None, None) => true,
                (Some(a), Some(b)) => expr_copied(a, b, with_types),
                _ => false,
            }
        },
        (StmtKind::Return(x1), StmtKind::Return(x2)) => match (x1, x2) {
            (None, None) => true,
            (Some(a), Some(b)) => expr_copied(a, b, with_types),
            _ => false,
        },
        (StmtKind::Require(a), StmtKind::Require(b)) => expr_copied(a, b, with_types),
        (StmtKind::ExpressionStatement(a), StmtKind::ExpressionStatement(b)) => expr_copied(a, b, with_types),
        (StmtKind::Break, StmtKind::Break) => true,
        (StmtKind::Continue, StmtKind::Continue) => true,
        _ => false,
    }
}

/// The general AST fields that a copy takes over: line and column.
pub open spec fn ast_fields_copied(old: Expr, new: Expr) -> bool {
    new.line == old.line && new.column == old.column
}

/// Visitor that deep-copies AST nodes.
pub struct DeepCopyVisitor {
    pub with_types: bool,
    pub with_analysis: bool,
}

pub fn new(with_types: bool, with_analysis: bool) -> (r: DeepCopyVisitor)
    ensures
        r.with_types == with_types,
        r.with_analysis == with_analysis,
{
    DeepCopyVisitor { with_types, with_analysis }
}

/// Copies line and column of `ast` to `ast_copy`.
pub fn copy_ast_fields(ast: &Expr, ast_copy: &mut Expr)
    ensures
        *final(ast_copy) == (Expr { line: ast.line, column: ast.column, ..*old(ast_copy) }),
{
    ast_copy.line = ast.line;
    ast_copy.column = ast.column;
}

fn copy_opt_type(t: &Option<AnnotatedTypeName>) -> (r: Option<AnnotatedTypeName>)
    ensures
        r == *t,
{
    match t {
        Some(x) => Some(x.copy()),
        None => None,
    }
}

impl DeepCopyVisitor {
    fn copy_exprs(&self, args: &Vec<Expr>, Ghost(whole): Ghost<Expr>, next_id: &mut u64) -> (r: Vec<Expr>)
        requires
            decreases_to!(whole => *args),
        ensures
            r.len() == args.len(),
            forall|i: int| 0 <= i < args.len() ==> expr_copied(#[trigger] args@[i], r@[i], self.with_types),
            numbered_list(r@, *old(next_id)),
            *final(next_id) == numbering_list_end(r@, *old(next_id)),
        decreases whole, 0nat,
    {
        let ghost start = *next_id;
        let mut out: Vec<Expr> = Vec::new();
        let mut i: usize = 0;
        proof {
            assert(out@ =~= Seq::<Expr>::empty());
        }
        while i < args.len()
            invariant
                i <= args.len(),
                out.len() == i,
                decreases_to!(whole => *args),
                forall|j: int| 0 <= j < i ==> expr_copied(#[trigger] args@[j], out@[j], self.with_types),
                numbered_list(out@, start),
                *next_id == numbering_list_end(out@, start),
            decreases args.len() - i,
        {
            proof {
                vstd::std_specs::vec::axiom_vec_index_decreases(*args, i as int);
            }
            let ghost before = out@;
            let c = self.visitExpression(&args[i], next_id);
            out.push(c);
            proof {
                assert(out@.subrange(0, out@.len() - 1) =~= before);
                assert(out@[out@.len() - 1] == c);
            }
            i = i + 1;
        }
        out
    }

    /// Copies a node and its children, giving every node of the copy a fresh
    /// id from the counter, in pre-order: the copy has no type, is not
    /// evaluated privately and has no links.
    pub fn visitChildren(&self, ast: &Expr, next_id: &mut u64) -> (r: Expr)
        ensures
            expr_kind_copied(*ast, r, self.with_types),
            numbered(r, *old(next_id)),
            *final(next_id) == numbering_end(r, *old(next_id)),
            ast_fields_copied(*ast, r),
            r.annotated_type is None,
            !r.evaluate_privately,
            r.parent is None,
            r.statement is None,
            r.namespace is None,
        decreases ast, 1nat,
    {
        let id = *next_id;
        *next_id = id.wrapping_add(1);
        let kind = match &ast.kind {
            ExprKind::BooleanLiteral(b) => ExprKind::BooleanLiteral(*b),
            ExprKind::NumberLiteral(v) => ExprKind::NumberLiteral(*v),
            ExprKind::Me => ExprKind::Me,
            ExprKind::All => ExprKind::All,
            ExprKind::Identifier { name, target } => ExprKind::Identifier {
                name: name.clone(),
                target: match target {
                    Some(t) => Some(crate::ast::DeclRef {
                        id: t.id,
                        kind: t.kind,
                        annotated_type: copy_opt_type(&t.annotated_type),
                        is_final: t.is_final,
                        is_constant: t.is_constant,
                    }),
                    None => None,
                },
            },
            ExprKind::Index { arr, key } => ExprKind::Index {
                arr: Box::new(self.visitExpression(arr, next_id)),
                key: Box::new(self.visitExpression(key, next_id)),
            },
            ExprKind::MemberAccess { expr, member, target } => ExprKind::MemberAccess {
                expr: Box::new(self.visitExpression(expr, next_id)),
                member: member.clone(),
                target: match target {
                    Some(t) => Some(crate::ast::DeclRef {
                        id: t.id,
                        kind: t.kind,
                        annotated_type: copy_opt_type(&t.annotated_type),
                        is_final: t.is_final,
                        is_constant: t.is_constant,
                    }),
                    None => None,
                },
            },
            ExprKind::FunctionCall { func, args } => {
                let f = match func {
                    Callee::Builtin(b) => Callee::Builtin(self.visitBuiltinFunction(b)),
                    Callee::Location(l) => Callee::Location(Box::new(self.visitExpression(l, next_id))),
                };
                proof {
                    assert(decreases_to!(*ast => ast.kind));
                    assert(decreases_to!(ast.kind => ast.kind->FunctionCall_args));
                }
                ExprKind::FunctionCall { func: f, args: self.copy_exprs(args, Ghost(*ast), next_id) }
            },
            ExprKind::PrimitiveCast { elem_type, expr, is_implicit } => ExprKind::PrimitiveCast {
                elem_type: elem_type.copy(),
                expr: Box::new(self.visitExpression(expr, next_id)),
                is_implicit: *is_implicit,
            },
            ExprKind::Reclassify { expr, privacy, homomorphism, is_rehom } => ExprKind::Reclassify {
                expr: Box::new(self.visitExpression(expr, next_id)),
                privacy: *privacy,
                homomorphism: *homomorphism,
                is_rehom: *is_rehom,
            },
            ExprKind::Tuple(elems) => {
                proof {
                    assert(decreases_to!(*ast => ast.kind));
                    assert(decreases_to!(ast.kind => ast.kind->Tuple_0));
                }
                ExprKind::Tuple(self.copy_exprs(elems, Ghost(*ast), next_id))
            },
            ExprKind::New { ty, args } => {
                proof {
                    assert(decreases_to!(*ast => ast.kind));
                    assert(decreases_to!(ast.kind => ast.kind->New_args));
                }
                ExprKind::New { ty: ty.copy(), args: self.copy_exprs(args, Ghost(*ast), next_id) }
            },
        };
        let mut ast_copy = Expr::new_node(id, kind);
        copy_ast_fields(ast, &mut ast_copy);
        ast_copy
    }

    /// A copy of an annotated type.
    pub fn visitAnnotatedTypeName(&self, ast: &AnnotatedTypeName) -> (r: AnnotatedTypeName)
        ensures
            r == *ast,
    {
        ast.copy()
    }

    /// A copy of a user-defined type name keeps its target.
    pub fn visitUserDefinedTypeName(&self, ast: &crate::types::TypeName) -> (r: crate::types::TypeName)
        ensures
            r == *ast,
    {
        ast.copy()
    }

    /// A copy of a built-in function keeps whether it is private and its homomorphism.
    pub fn visitBuiltinFunction(&self, ast: &BuiltinFunction) -> (r: BuiltinFunction)
        ensures
            r == *ast,
    {
        BuiltinFunction { op: ast.op, is_private: ast.is_private, homomorphism: ast.homomorphism }
    }

    /// Copies an expression with fresh ids from the counter (see
    /// `visitChildren`); its type is kept only `with_types`.
    pub fn visitExpression(&self, ast: &Expr, next_id: &mut u64) -> (r: Expr)
        ensures
            expr_copied(*ast, r, self.with_types),
            numbered(r, *old(next_id)),
            *final(next_id) == numbering_end(r, *old(next_id)),
            r.parent is None,
            r.statement is None,
            r.namespace is None,
        decreases ast, 2nat,
    {
        let mut ast_copy = self.visitChildren(ast, next_id);
        if self.with_types && ast.annotated_type.is_some() {
            ast_copy.annotated_type = copy_opt_type(&ast.annotated_type);
        }
        ast_copy.evaluate_privately = ast.evaluate_privately;
        ast_copy
    }

    fn copy_opt_expr(&self, e: &Option<Expr>, next_id: &mut u64) -> (r: Option<Expr>)
        ensures
            match (*e, r) {
                (None, None) => true,
                (Some(a), Some(b)) => expr_copied(a, b, self.with_types),
                _ => false,
            },
    {
        match e {
            None => None,
            Some(x) => Some(self.visitExpression(x, next_id)),
        }
    }

    fn copy_opt_stmt(&self, s: &Option<Box<Stmt>>, Ghost(whole): Ghost<Stmt>, next_id: &mut u64) -> (r: Option<Box<Stmt>>)
        requires
            s matches Some(b) ==> decreases_to!(whole => *b),
        ensures
            match (*s, r) {
                (None, None) => true,
                (Some(a), Some(b)) => stmt_copied(*a, *b, self.with_types, self.with_analysis),
                _ => false,
            },
        decreases whole, 0nat,
    {
        match s {
            None => None,
            Some(b) => Some(Box::new(self.visitStatement(b, next_id))),
        }
    }

    fn copy_stmts(&self, ss: &Vec<Stmt>, Ghost(whole): Ghost<Stmt>, next_id: &mut u64) -> (r: Vec<Stmt>)
        requires
            decreases_to!(whole => *ss),
        ensures
            r.len() == ss.len(),
            forall|i: int| 0 <= i < ss.len() ==> stmt_copied(#[trigger] ss@[i], r@[i], self.with_types, self.with_analysis),
        decreases whole, 0nat,
    {
        let mut out: Vec<Stmt> = Vec::new();
        let mut i: usize = 0;
        while i < ss.len()
            invariant
                i <= ss.len(),
                out.len() == i,
                decreases_to!(whole => *ss),
                forall|j: int| 0 <= j < i ==> stmt_copied(#[trigger] ss@[j], out@[j], self.with_types, self.with_analysis),
            decreases ss.len() - i,
        {
            proof {
                vstd::std_specs::vec::axiom_vec_index_decreases(*ss, i as int);
            }
            out.push(self.visitStatement(&ss[i], next_id));
            i = i + 1;
        }
        out
    }

    fn copy_declaration(&self, d: &Declaration) -> (r: Declaration)
        ensures
            declaration_copied(*d, r),
    {
        Declaration {
            id: d.id,
            idf: Identifier { id: d.idf.id, name: d.idf.name.clone(), parent: None, namespace: None },
            annotated_type: d.annotated_type.copy(),
            is_final: d.is_final,
            is_constant: d.is_constant,
            parent: None,
            namespace: None,
        }
    }

    /// Copies a statement: the statement gets a fresh id from the counter,
    /// its expressions and inner statements are copied, its analysis is kept
    /// only `with_analysis` (see `stmt_copied`).
    pub fn visitStatement(&self, ast: &Stmt, next_id: &mut u64) -> (r: Stmt)
        ensures
            stmt_copied(*ast, r, self.with_types, self.with_analysis),
            r.id == *old(next_id),
        decreases ast, 1nat,
    {
        let id = *next_id;
        *next_id = id.wrapping_add(1);
        let kind = match &ast.kind {
            StmtKind::Block(ss) => {
                proof {
                    assert(decreases_to!(*ast => ast.kind));
                    assert(decreases_to!(ast.kind => ast.kind->Block_0));
                }
                StmtKind::Block(self.copy_stmts(ss, Ghost(*ast), next_id))
            },
            StmtKind::StatementList(ss) => {
                proof {
                    assert(decreases_to!(*ast => ast.kind));
                    assert(decreases_to!(ast.kind => ast.kind->StatementList_0));
                }
                StmtKind::StatementList(self.copy_stmts(ss, Ghost(*ast), next_id))
            },
            StmtKind::If { condition, then_branch, else_branch } => {
                let c = self.visitExpression(condition, next_id);
                let t = self.visitStatement(then_branch, next_id);
                let e = self.copy_opt_stmt(else_branch, Ghost(*ast), next_id);
                StmtKind::If { condition: c, then_branch: Box::new(t), else_branch: e }
            },
            StmtKind::While { condition, body } => {
                let c = self.visitExpression(condition, next_id);
                let b = self.visitStatement(body, next_id);
                StmtKind::While { condition: c, body: Box::new(b) }
            },
            StmtKind::For { init, condition, update, body } => {
                let i = self.copy_opt_stmt(init, Ghost(*ast), next_id);
                let c = self.visitExpression(condition, next_id);
                let u = self.copy_opt_stmt(update, Ghost(*ast), next_id);
                let b = self.visitStatement(body, next_id);
                StmtKind::For { init: i, condition: c, update: u, body: Box::new(b) }
            },
            StmtKind::Assignment { lhs, rhs } => {
                let l = self.visitExpression(lhs, next_id);
                let r = self.visitExpression(rhs, next_id);
                StmtKind::Assignment { lhs: l, rhs: r }
            },
            StmtKind::VariableDeclaration { decl, expr } => {
                let d = self.copy_declaration(decl);
                let x = self.copy_opt_expr(expr, next_id);
                StmtKind::VariableDeclaration { decl: d, expr: x }
            },
            StmtKind::Return(e) => StmtKind::Return(self.copy_opt_expr(e, next_id)),
            StmtKind::Require(e) => StmtKind::Require(self.visitExpression(e, next_id)),
            StmtKind::ExpressionStatement(e) => StmtKind::ExpressionStatement(self.visitExpression(e, next_id)),
            StmtKind::Break => StmtKind::Break,
            StmtKind::Continue => StmtKind::Continue,
        };
        let before_analysis = if self.with_analysis {
            match &ast.before_analysis {
                Some(a) => Some(a.copy()),
                None => None,
            }
        } else {
            None
        };
        Stmt {
            id,
            kind,
            line: ast.line,
            column: ast.column,
            parent: None,
            function: None,
            namespace: None,
            before_analysis,
            modified_values: Vec::new(),
        }
    }

    /// Copies an optional field: none stays none, an expression is copied.
    pub fn copy_field(&self, field: &Option<Expr>, next_id: &mut u64) -> (r: Option<Expr>)
        ensures
            match (*field, r) {
                (None, None) => *final(next_id) == *old(next_id),
                (Some(a), Some(b)) => expr_copied(a, b, self.with_types) && numbered(b, *old(next_id))
                    && *final(next_id) == numbering_end(b, *old(next_id)),
                _ => false,
            },
    {
        match field {
            None => None,
            Some(e) => Some(self.visitExpression(e, next_id)),
        }
    }
}

/// A deep copy of `ast` with the parent of `ast`, whose children are linked
/// below it in the namespace of `ast`; its nodes are new, with fresh ids
/// from the counter `next_id` in pre-order; only parents and positions are
/// updated, and types are kept only `with_types`.
pub fn deep_copy(ast: &Expr, with_types: bool, with_analysis: bool, next_id: &mut u64) -> (r: Expr)
    ensures
        r.parent == ast.parent,
        exists|c: Expr, p: u64|
            #![trigger expr_copied(*ast, c, with_types), expr_relinked(c, Expr { parent: Some(p), ..r }, p, r.namespace.unwrap()@, None)]
            expr_copied(*ast, c, with_types) && expr_relinked(
                c,
                Expr { parent: Some(p), ..r },
                p,
                r.namespace.unwrap()@,
                None,
            ) && numbered(c, *old(next_id)) && *final(next_id) == numbering_end(c, *old(next_id)),
        ast.parent is Some ==> exists|c: Expr| expr_copied(*ast, c, with_types) && expr_relinked(
            c,
            r,
            ast.parent.unwrap(),
            r.namespace.unwrap()@,
            None,
        ),
{
    let v = new(with_types, with_analysis);
    let ast_copy = v.visitExpression(ast, next_id);
    let ghost c = ast_copy;
    let ns = match &ast.namespace {
        Some(n) => copy_names(n),
        None => Vec::new(),
    };
    let p = match ast.parent {
        Some(p) => p,
        None => 0,
    };
    let linked = crate::parent_setter::relink_expr(ast_copy, p, &ns, None);
    let mut r = linked;
    r.parent = ast.parent;
    proof {
        assert(Expr { parent: Some(p), ..r } == linked);
        assert(expr_copied(*ast, c, with_types));
        assert(expr_relinked(c, Expr { parent: Some(p), ..r }, p, r.namespace.unwrap()@, None));
    }
    r
}


/// A deep copy of the statement `ast` with the parent of `ast`, whose
/// children are linked below it in the namespace of `ast` and to the
/// function of `ast`; its nodes are new, the statement's id the counter's
/// value; types are kept only `with_types`, and its analyses only
/// `with_analysis`.
pub fn deep_copy_stmt(ast: &Stmt, with_types: bool, with_analysis: bool, next_id: &mut u64) -> (r: Stmt)
    ensures
        r.parent == ast.parent,
        r.id == *old(next_id),
        analysis_copied(ast.before_analysis, r.before_analysis, with_analysis),
        exists|c: Stmt, p: u64|
            #![trigger stmt_copied(*ast, c, with_types, with_analysis), stmt_relinked(c, Stmt { parent: Some(p), ..r }, p, r.namespace.unwrap()@, ast.function)]
            stmt_copied(*ast, c, with_types, with_analysis) && stmt_relinked(
                c,
                Stmt { parent: Some(p), ..r },
                p,
                r.namespace.unwrap()@,
                ast.function,
            ),
{
    let v = new(with_types, with_analysis);
    let copied = v.visitStatement(ast, next_id);
    let ghost c = copied;
    let ns = match &ast.namespace {
        Some(n) => copy_names(n),
        None => Vec::new(),
    };
    let p = match ast.parent {
        Some(p) => p,
        None => 0,
    };
    let linked = crate::parent_setter::relink_stmt(copied, p, &ns, ast.function);
    let mut r = linked;
    r.parent = ast.parent;
    proof {
        assert(Stmt { parent: Some(p), ..r } == linked);
        assert(stmt_copied(*ast, c, with_types, with_analysis));
        assert(stmt_relinked(c, Stmt { parent: Some(p), ..r }, p, r.namespace.unwrap()@, ast.function));
    }
    r
}

/// `new_ast` takes over the parent and position of `old_ast`; if it has a
/// parent, its children are linked below it in the namespace of `old_ast`.
pub fn _replace_ast(old_ast: &Expr, new_ast: Expr) -> (r: Expr)
    ensures
        r.id == new_ast.id,
        r.parent == old_ast.parent,
        r.line == old_ast.line,
        r.column == old_ast.column,
        r.annotated_type == new_ast.annotated_type,
        old_ast.parent is None ==> r == (Expr { parent: None, line: old_ast.line, column: old_ast.column, ..new_ast }),
        old_ast.parent is Some ==> expr_relinked(
            Expr { line: old_ast.line, column: old_ast.column, ..new_ast },
            r,
            old_ast.parent.unwrap(),
            r.namespace.unwrap()@,
            None,
        ),
{
    let mut new_ast = new_ast;
    new_ast.parent = old_ast.parent;
    copy_ast_fields(old_ast, &mut new_ast);
    match old_ast.parent {
        Some(p) => {
            let ns = match &old_ast.namespace {
                Some(n) => copy_names(n),
                None => Vec::new(),
            };
            crate::parent_setter::ParentSetterVisitor::new().visitChildren(new_ast, &ns, None)
        },
        None => new_ast,
    }
}

/// `new_expr` in the place of `old_expr` (see `_replace_ast`); with
/// `copy_type` it also takes over the type of `old_expr`.
pub fn replace_expr(old_expr: &Expr, new_expr: Expr, copy_type: bool) -> (r: Expr)
    ensures
        r.id == new_expr.id,
        r.parent == old_expr.parent,
        r.line == old_expr.line,
        r.column == old_expr.column,
        r.annotated_type == (if copy_type { old_expr.annotated_type } else { new_expr.annotated_type }),
        old_expr.parent is None ==> r == (Expr {
            parent: None,
            line: old_expr.line,
            column: old_expr.column,
            annotated_type: r.annotated_type,
            ..new_expr
        }),
        !copy_type && old_expr.parent is Some ==> expr_relinked(
            Expr { line: old_expr.line, column: old_expr.column, ..new_expr },
            r,
            old_expr.parent.unwrap(),
            r.namespace.unwrap()@,
            None,
        ),
        copy_type && old_expr.parent is Some ==> expr_relinked(
            Expr { line: old_expr.line, column: old_expr.column, ..new_expr },
            Expr { annotated_type: new_expr.annotated_type, ..r },
            old_expr.parent.unwrap(),
            r.namespace.unwrap()@,
            None,
        ),
{
    let mut r = _replace_ast(old_expr, new_expr);
    let ghost linked = r;
    if copy_type {
        r.annotated_type = copy_opt_type(&old_expr.annotated_type);
        proof {
            assert(Expr { annotated_type: new_expr.annotated_type, ..r } == linked);
        }
    }
    r
}

/// A copy with types is typed and well-formed exactly when the original is.
pub proof fn lemma_copy_keeps_typing(old: Expr, new: Expr)
    requires
        expr_copied(old, new, true),
    ensures
        new.spec_typed() == old.spec_typed(),
        new.spec_well_formed() == old.spec_well_formed(),
    decreases old,
{
    match (old.kind, new.kind) {
        (ExprKind::Index { arr: a1, key: k1 }, ExprKind::Index { arr: a2, key: k2 }) => {
            lemma_copy_keeps_typing(*a1, *a2);
            lemma_copy_keeps_typing(*k1, *k2);
        },
        (ExprKind::MemberAccess { expr: e1, .. }, ExprKind::MemberAccess { expr: e2, .. }) => {
            lemma_copy_keeps_typing(*e1, *e2);
        },
        (ExprKind::FunctionCall { func: f1, args: a1 }, ExprKind::FunctionCall { func: f2, args: a2 }) => {
            match (f1, f2) {
                (Callee::Location(l1), Callee::Location(l2)) => {
                    lemma_copy_keeps_typing(*l1, *l2);
                },
                _ => {},
            }
            assert(a1.len() == a2.len());
            assert forall|i: int| #![trigger a1@[i]] #![trigger a2@[i]] 0 <= i < a1.len() implies a1@[i].spec_typed() == a2@[i].spec_typed()
                && a1@[i].spec_well_formed() == a2@[i].spec_well_formed() by {
                lemma_copy_keeps_typing(a1@[i], a2@[i]);
            }
        },
        (ExprKind::PrimitiveCast { expr: e1, .. }, ExprKind::PrimitiveCast { expr: e2, .. }) => {
            lemma_copy_keeps_typing(*e1, *e2);
        },
        (ExprKind::Reclassify { expr: e1, .. }, ExprKind::Reclassify { expr: e2, .. }) => {
            lemma_copy_keeps_typing(*e1, *e2);
        },
        (ExprKind::Tuple(a1), ExprKind::Tuple(a2)) => {
            assert(a1.len() == a2.len());
            assert forall|i: int| #![trigger a1@[i]] #![trigger a2@[i]] 0 <= i < a1.len() implies a1@[i].spec_typed() == a2@[i].spec_typed()
                && a1@[i].spec_well_formed() == a2@[i].spec_well_formed() by {
                lemma_copy_keeps_typing(a1@[i], a2@[i]);
            }
        },
        (ExprKind::New { args: a1, .. }, ExprKind::New { args: a2, .. }) => {
            assert(a1.len() == a2.len());
            assert forall|i: int| #![trigger a1@[i]] #![trigger a2@[i]] 0 <= i < a1.len() implies a1@[i].spec_typed() == a2@[i].spec_typed()
                && a1@[i].spec_well_formed() == a2@[i].spec_well_formed() by {
                lemma_copy_keeps_typing(a1@[i], a2@[i]);
            }
        },
        _ => {},
    }
}

/// A copy with types has the fit shape of the original.
pub proof fn lemma_copy_same_fit_shape(old: Expr, new: Expr)
    requires
        expr_copied(old, new, true),
    ensures
        same_fit_shape(old, new),
    decreases old,
{
    match (old.kind, new.kind) {
        (ExprKind::FunctionCall { func: f1, args: a1 }, ExprKind::FunctionCall { func: f2, args: a2 }) => {
            assert forall|i: int| #![trigger a1@[i]] #![trigger a2@[i]] 0 <= i < a1.len() implies same_fit_shape(a1@[i], a2@[i]) by {
                lemma_copy_same_fit_shape(a1@[i], a2@[i]);
            }
        },
        (ExprKind::PrimitiveCast { expr: e1, .. }, ExprKind::PrimitiveCast { expr: e2, .. }) => {
            lemma_copy_same_fit_shape(*e1, *e2);
        },
        (ExprKind::Reclassify { expr: e1, .. }, ExprKind::Reclassify { expr: e2, .. }) => {
            lemma_copy_same_fit_shape(*e1, *e2);
        },
        (ExprKind::Tuple(a1), ExprKind::Tuple(a2)) => {
            assert forall|i: int| #![trigger a1@[i]] #![trigger a2@[i]] 0 <= i < a1.len() implies same_fit_shape(a1@[i], a2@[i]) by {
                lemma_copy_same_fit_shape(a1@[i], a2@[i]);
            }
        },
        _ => {},
    }
}

/// Relinking keeps the fit shape.
pub proof fn lemma_relinked_same_fit_shape(old: Expr, new: Expr, parent: u64, ns: Seq<String>, stmt: Option<u64>)
    requires
        expr_relinked(old, new, parent, ns, stmt),
    ensures
        same_fit_shape(old, new),
    decreases old,
{
    match (old.kind, new.kind) {
        (ExprKind::FunctionCall { func: f1, args: a1 }, ExprKind::FunctionCall { func: f2, args: a2 }) => {
            assert forall|i: int| #![trigger a1@[i]] #![trigger a2@[i]] 0 <= i < a1.len() implies same_fit_shape(a1@[i], a2@[i]) by {
                lemma_relinked_same_fit_shape(a1@[i], a2@[i], old.id, ns, stmt);
            }
        },
        (ExprKind::PrimitiveCast { expr: e1, .. }, ExprKind::PrimitiveCast { expr: e2, .. }) => {
            lemma_relinked_same_fit_shape(*e1, *e2, old.id, ns, stmt);
        },
        (ExprKind::Reclassify { expr: e1, .. }, ExprKind::Reclassify { expr: e2, .. }) => {
            lemma_relinked_same_fit_shape(*e1, *e2, old.id, ns, stmt);
        },
        (ExprKind::Tuple(a1), ExprKind::Tuple(a2)) => {
            assert forall|i: int| #![trigger a1@[i]] #![trigger a2@[i]] 0 <= i < a1.len() implies same_fit_shape(a1@[i], a2@[i]) by {
                lemma_relinked_same_fit_shape(a1@[i], a2@[i], old.id, ns, stmt);
            }
        },
        _ => {},
    }
}

} // verus!
