//! Links every node of a source unit to its parent, gives every node the
//! namespace it lives in, links expressions to their statement and statements
//! to their function.
use vstd::prelude::*;
use crate::ast::{
    Callee, ConstructorOrFunctionDefinition, ContractDefinition, Declaration, EnumDefinition,
    EnumValue, Expr, ExprKind, Identifier, SourceUnit, StateVariableDeclaration, Stmt, StmtKind,
};

verus! {

/// A copy of a list of names.
pub fn copy_names(names: &Vec<String>) -> (r: Vec<String>)
    ensures
        r@ == names@,
{
    let mut r: Vec<String> = Vec::new();
    let mut i: usize = 0;
    while i < names.len()
        invariant
            i <= names.len(),
            r@ == names@.subrange(0, i as int),
        decreases names.len() - i,
    {
        r.push(names[i].clone());
        i = i + 1;
    }
    r
}

/// `names` followed by `name`.
pub fn names_push(names: &Vec<String>, name: &String) -> (r: Vec<String>)
    ensures
        r@ == names@.push(*name),
{
    let mut r = copy_names(names);
    r.push(name.clone());
    r
}

/// The namespace a node has: `Some` of exactly these names.
pub open spec fn has_namespace(ns: Option<Vec<String>>, names: Seq<String>) -> bool {
    ns matches Some(n) && n@ == names
}

/// `new` is `old` with its parent set to `parent`, its namespace to `ns`, and,
/// where `stmt` is given, its statement link set to `stmt`; all its
/// subexpressions are relinked in the same way below it.
pub open spec fn expr_relinked(old: Expr, new: Expr, parent: u64, ns: Seq<String>, stmt: Option<u64>) -> bool
    decreases old,
{
    &&& new.id == old.id
    &&& new.annotated_type == old.annotated_type
    &&& new.evaluate_privately == old.evaluate_privately
    &&& new.line == old.line
    &&& new.column == old.column
    &&& new.parent == Some(parent)
    &&& has_namespace(new.namespace, ns)
    &&& new.statement == (if stmt is Some { stmt } else { old.statement })
    &&& match (old.kind, new.kind) {
        (ExprKind::Index { arr: a1, key: k1 }, ExprKind::Index { arr: a2, key: k2 }) => {
            expr_relinked(*a1, *a2, old.id, ns, stmt) && expr_relinked(*k1, *k2, old.id, ns, stmt)
        },
        (
            ExprKind::MemberAccess { expr: e1, member: m1, target: t1 },
            ExprKind::MemberAccess { expr: e2, member: m2, target: t2 },
        ) => m1 == m2 && t1 == t2 && expr_relinked(*e1, *e2, old.id, ns, stmt),
        (ExprKind::FunctionCall { func: f1, args: a1 }, ExprKind::FunctionCall { func: f2, args: a2 }) => {
            &&& match (f1, f2) {
                (Callee::Builtin(b1), Callee::Builtin(b2)) => b1 == b2,
                (Callee::Location(l1), Callee::Location(l2)) => expr_relinked(*l1, *l2, old.id, ns, stmt),
                _ => false,
            }
            &&& a1.len() == a2.len()
            &&& forall|i: int| 0 <= i < a1.len() ==> expr_relinked(#[trigger] a1@[i], a2@[i], old.id, ns, stmt)
        },
        (
            ExprKind::PrimitiveCast { elem_type: t1, expr: e1, is_implicit: i1 },
            ExprKind::PrimitiveCast { elem_type: t2, expr: e2, is_implicit: i2 },
        ) => t1 == t2 && i1 == i2 && expr_relinked(*e1, *e2, old.id, ns, stmt),
        (
            ExprKind::Reclassify { expr: e1, privacy: p1, homomorphism: h1, is_rehom: r1 },
            ExprKind::Reclassify { expr: e2, privacy: p2, homomorphism: h2, is_rehom: r2 },
        ) => p1 == p2 && h1 == h2 && r1 == r2 && expr_relinked(*e1, *e2, old.id, ns, stmt),
        (ExprKind::Tuple(a1), ExprKind::Tuple(a2)) => {
            &&& a1.len() == a2.len()
            &&& forall|i: int| 0 <= i < a1.len() ==> expr_relinked(#[trigger] a1@[i], a2@[i], old.id, ns, stmt)
        },
        (ExprKind::New { ty: t1, args: a1 }, ExprKind::New { ty: t2, args: a2 }) => {
            &&& t1 == t2
            &&& a1.len() == a2.len()
            &&& forall|i: int| 0 <= i < a1.len() ==> expr_relinked(#[trigger] a1@[i], a2@[i], old.id, ns, stmt)
        },
        (ExprKind::Index { .. }, _) | (ExprKind::MemberAccess { .. }, _) | (ExprKind::FunctionCall { .. }, _)
        | (ExprKind::PrimitiveCast { .. }, _) | (ExprKind::Reclassify { .. }, _) | (ExprKind::Tuple(_), _)
        | (ExprKind::New { .. }, _) => false,
        _ => new.kind == old.kind,
    }
}

pub open spec fn identifier_relinked(old: Identifier, new: Identifier, parent: u64, ns: Seq<String>) -> bool {
    &&& new.id == old.id
    &&& new.name == old.name
    &&& new.parent == Some(parent)
    &&& has_namespace(new.namespace, ns)
}

pub open spec fn declaration_relinked(old: Declaration, new: Declaration, parent: u64, ns: Seq<String>) -> bool {
    &&& new.id == old.id
    &&& new.annotated_type == old.annotated_type
    &&& new.is_final == old.is_final
    &&& new.is_constant == old.is_constant
    &&& new.parent == Some(parent)
    &&& has_namespace(new.namespace, ns)
    &&& identifier_relinked(old.idf, new.idf, old.id, ns)
}

/// Like `expr_relinked`, for statements: the expressions of a statement are
/// linked to it, and where `func` is given every statement is linked to it.
pub open spec fn stmt_relinked(old: Stmt, new: Stmt, parent: u64, ns: Seq<String>, func: Option<u64>) -> bool
    decreases old,
{
    &&& new.id == old.id
    &&& new.line == old.line
    &&& new.column == old.column
    &&& new.before_analysis == old.before_analysis
    &&& new.modified_values == old.modified_values
    &&& new.parent == Some(parent)
    &&& has_namespace(new.namespace, ns)
    &&& new.function == (if func is Some { func } else { old.function })
    &&& match (old.kind, new.kind) {
        (StmtKind::Block(s1), StmtKind::Block(s2)) => {
            &&& s1.len() == s2.len()
            &&& forall|i: int| 0 <= i < s1.len() ==> stmt_relinked(#[trigger] s1@[i], s2@[i], old.id, ns, func)
        },
        (StmtKind::StatementList(s1), StmtKind::StatementList(s2)) => {
            &&& s1.len() == s2.len()
            &&& forall|i: int| 0 <= i < s1.len() ==> stmt_relinked(#[trigger] s1@[i], s2@[i], old.id, ns, func)
        },
        (
            StmtKind::If { condition: c1, then_branch: t1, else_branch: e1 },
            StmtKind::If { condition: c2, then_branch: t2, else_branch: e2 },
        ) => {
            &&& expr_relinked(c1, c2, old.id, ns, Some(old.id))
            &&& stmt_relinked(*t1, *t2, old.id, ns, func)
            &&& match (e1, e2) {
                (None, None) => true,
                (Some(b1), Some(b2)) => stmt_relinked(*b1, *b2, old.id, ns, func),
                _ => false,
            }
        },
        (StmtKind::While { condition: c1, body: b1 }, StmtKind::While { condition: c2, body: b2 }) => {
            expr_relinked(c1, c2, old.id, ns, Some(old.id)) && stmt_relinked(*b1, *b2, old.id, ns, func)
        },
        (
            StmtKind::For { init: i1, condition: c1, update: u1, body: b1 },
            StmtKind::For { init: i2, condition: c2, update: u2, body: b2 },
        ) => {
            &&& expr_relinked(c1, c2, old.id, ns, Some(old.id))
            &&& stmt_relinked(*b1, *b2, old.id, ns, func)
            &&& match (i1, i2) {
                (None, None) => true,
                (Some(x1), Some(x2)) => stmt_relinked(*x1, *x2, old.id, ns, func),
                _ => false,
            }
            &&& match (u1, u2) {
                (None, None) => true,
                (Some(x1), Some(x2)) => stmt_relinked(*x1, *x2, old.id, ns, func),
                _ => false,
            }
        },
        (StmtKind::Assignment { lhs: l1, rhs: r1 }, StmtKind::Assignment { lhs: l2, rhs: r2 }) => {
            expr_relinked(l1, l2, old.id, ns, Some(old.id)) && expr_relinked(r1, r2, old.id, ns, Some(old.id))
        },
        (
            StmtKind::VariableDeclaration { decl: d1, expr: x1 },
            StmtKind::VariableDeclaration { decl: d2, expr: x2 },
        ) => {
            &&& declaration_relinked(d1, d2, old.id, ns)
            &&& match (x1, x2) {
                (None, None) => true,
                (Some(y1), Some(y2)) => expr_relinked(y1, y2, old.id, ns, Some(old.id)),
                _ => false,
            }
        },
        (StmtKind::Return(x1), StmtKind::Return(x2)) => match (x1, x2) {
            (None, None) => true,
            (Some(y1), Some(y2)) => expr_relinked(y1, y2, old.id, ns, Some(old.id)),
            _ => false,
        },
        (StmtKind::Require(c1), StmtKind::Require(c2)) => expr_relinked(c1, c2, old.id, ns, Some(old.id)),
        (StmtKind::ExpressionStatement(c1), StmtKind::ExpressionStatement(c2)) => expr_relinked(
            c1,
            c2,
            old.id,
            ns,
            Some(old.id),
        ),
        (StmtKind::Break, StmtKind::Break) => true,
        (StmtKind::Continue, StmtKind::Continue) => true,
        _ => false,
    }
}


/// Relinks a list of expressions below the node `parent`.
fn relink_exprs(
    args: Vec<Expr>,
    parent: u64,
    ns: &Vec<String>,
    stmt: Option<u64>,
    Ghost(whole): Ghost<Expr>,
) -> (r: Vec<Expr>)
    requires
        decreases_to!(whole => args),
    ensures
        r.len() == args.len(),
        forall|i: int| 0 <= i < args.len() ==> expr_relinked(#[trigger] args@[i], r@[i], parent, ns@, stmt),
    decreases whole, 0nat,
{
    let ghost old_args = args;
    let mut rest = args;
    let mut out: Vec<Expr> = Vec::new();
    while rest.len() > 0
        invariant
            out.len() + rest.len() == old_args.len(),
            rest@ == old_args@.subrange(out.len() as int, old_args.len() as int),
            decreases_to!(whole => old_args),
            forall|j: int| 0 <= j < out.len() ==> expr_relinked(#[trigger] old_args@[j], out@[j], parent, ns@, stmt),
        decreases rest.len(),
    {
        let k = rest.remove(0);
        proof {
            assert(k == old_args@[out.len() as int]);
            vstd::std_specs::vec::axiom_vec_index_decreases(old_args, out.len() as int);
        }
        let nk = relink_expr(k, parent, ns, stmt);
        out.push(nk);
    }
    out
}

/// Relinks an expression (see `expr_relinked`).
pub fn relink_expr(e: Expr, parent: u64, ns: &Vec<String>, stmt: Option<u64>) -> (r: Expr)
    ensures
        expr_relinked(e, r, parent, ns@, stmt),
    decreases e, 1nat,
{
    let ghost ge = e;
    let Expr { id, kind, annotated_type, evaluate_privately, line, column, parent: _, statement, namespace: _ } = e;
    let new_kind = match kind {
        ExprKind::Index { arr, key } => ExprKind::Index {
            arr: Box::new(relink_expr(*arr, id, ns, stmt)),
            key: Box::new(relink_expr(*key, id, ns, stmt)),
        },
        ExprKind::MemberAccess { expr, member, target } => ExprKind::MemberAccess {
            expr: Box::new(relink_expr(*expr, id, ns, stmt)),
            member,
            target,
        },
        ExprKind::FunctionCall { func, args } => {
            let new_func = match func {
                Callee::Builtin(b) => Callee::Builtin(b),
                Callee::Location(l) => Callee::Location(Box::new(relink_expr(*l, id, ns, stmt))),
            };
            proof {
                assert(decreases_to!(ge => ge.kind));
                assert(decreases_to!(ge.kind => ge.kind->FunctionCall_args));
            }
            ExprKind::FunctionCall { func: new_func, args: relink_exprs(args, id, ns, stmt, Ghost(ge)) }
        },
        ExprKind::PrimitiveCast { elem_type, expr, is_implicit } => ExprKind::PrimitiveCast {
            elem_type,
            expr: Box::new(relink_expr(*expr, id, ns, stmt)),
            is_implicit,
        },
        ExprKind::Reclassify { expr, privacy, homomorphism, is_rehom } => ExprKind::Reclassify {
            expr: Box::new(relink_expr(*expr, id, ns, stmt)),
            privacy,
            homomorphism,
            is_rehom,
        },
        ExprKind::Tuple(elems) => {
            proof {
                assert(decreases_to!(ge => ge.kind));
                assert(decreases_to!(ge.kind => ge.kind->Tuple_0));
            }
            ExprKind::Tuple(relink_exprs(elems, id, ns, stmt, Ghost(ge)))
        },
        ExprKind::New { ty, args } => {
            proof {
                assert(decreases_to!(ge => ge.kind));
                assert(decreases_to!(ge.kind => ge.kind->New_args));
            }
            ExprKind::New { ty, args: relink_exprs(args, id, ns, stmt, Ghost(ge)) }
        },
        other => other,
    };
    let mut r = Expr {
        id,
        kind: new_kind,
        annotated_type,
        evaluate_privately,
        line,
        column,
        parent: Some(parent),
        statement,
        namespace: Some(copy_names(ns)),
    };
    ExpressionToStatementVisitor.visitExpression(&mut r, &statement_chain(stmt));
    r
}


pub fn relink_identifier(idf: Identifier, parent: u64, ns: &Vec<String>) -> (r: Identifier)
    ensures
        identifier_relinked(idf, r, parent, ns@),
{
    Identifier { id: idf.id, name: idf.name, parent: Some(parent), namespace: Some(copy_names(ns)) }
}

pub fn relink_declaration(d: Declaration, parent: u64, ns: &Vec<String>) -> (r: Declaration)
    ensures
        declaration_relinked(d, r, parent, ns@),
{
    let Declaration { id, idf, annotated_type, is_final, is_constant, parent: _, namespace: _ } = d;
    Declaration {
        id,
        idf: relink_identifier(idf, id, ns),
        annotated_type,
        is_final,
        is_constant,
        parent: Some(parent),
        namespace: Some(copy_names(ns)),
    }
}

fn relink_opt_expr(e: Option<Expr>, parent: u64, ns: &Vec<String>, stmt: Option<u64>) -> (r: Option<Expr>)
    ensures
        match (e, r) {
            (None, None) => true,
            (Some(a), Some(b)) => expr_relinked(a, b, parent, ns@, stmt),
            _ => false,
        },
{
    match e {
        None => None,
        Some(x) => Some(relink_expr(x, parent, ns, stmt)),
    }
}

fn relink_stmts(
    stmts: Vec<Stmt>,
    parent: u64,
    ns: &Vec<String>,
    func: Option<u64>,
    Ghost(whole): Ghost<Stmt>,
) -> (r: Vec<Stmt>)
    requires
        decreases_to!(whole => stmts),
    ensures
        r.len() == stmts.len(),
        forall|i: int| 0 <= i < stmts.len() ==> stmt_relinked(#[trigger] stmts@[i], r@[i], parent, ns@, func),
    decreases whole, 0nat,
{
    let ghost old_stmts = stmts;
    let mut rest = stmts;
    let mut out: Vec<Stmt> = Vec::new();
    while rest.len() > 0
        invariant
            out.len() + rest.len() == old_stmts.len(),
            rest@ == old_stmts@.subrange(out.len() as int, old_stmts.len() as int),
            decreases_to!(whole => old_stmts),
            forall|j: int| 0 <= j < out.len() ==> stmt_relinked(#[trigger] old_stmts@[j], out@[j], parent, ns@, func),
        decreases rest.len(),
    {
        let k = rest.remove(0);
        proof {
            assert(k == old_stmts@[out.len() as int]);
            vstd::std_specs::vec::axiom_vec_index_decreases(old_stmts, out.len() as int);
        }
        let nk = relink_stmt(k, parent, ns, func);
        out.push(nk);
    }
    out
}

/// Relinks a statement (see `stmt_relinked`).
pub fn relink_stmt(s: Stmt, parent: u64, ns: &Vec<String>, func: Option<u64>) -> (r: Stmt)
    ensures
        stmt_relinked(s, r, parent, ns@, func),
    decreases s, 1nat,
{
    let ghost gs = s;
    let Stmt { id, kind, line, column, parent: _, function, namespace: _, before_analysis, modified_values } = s;
    let here = Some(id);
    let new_kind = match kind {
        StmtKind::Block(stmts) => {
            proof {
                assert(decreases_to!(gs => gs.kind));
                assert(decreases_to!(gs.kind => gs.kind->Block_0));
            }
            StmtKind::Block(relink_stmts(stmts, id, ns, func, Ghost(gs)))
        },
        StmtKind::StatementList(stmts) => {
            proof {
                assert(decreases_to!(gs => gs.kind));
                assert(decreases_to!(gs.kind => gs.kind->StatementList_0));
            }
            StmtKind::StatementList(relink_stmts(stmts, id, ns, func, Ghost(gs)))
        },
        StmtKind::If { condition, then_branch, else_branch } => {
            let c = relink_expr(condition, id, ns, here);
            let t = relink_stmt(*then_branch, id, ns, func);
            let e = match else_branch {
                None => None,
                Some(b) => Some(Box::new(relink_stmt(*b, id, ns, func))),
            };
            StmtKind::If { condition: c, then_branch: Box::new(t), else_branch: e }
        },
        StmtKind::While { condition, body } => StmtKind::While {
            condition: relink_expr(condition, id, ns, here),
            body: Box::new(relink_stmt(*body, id, ns, func)),
        },
        StmtKind::For { init, condition, update, body } => {
            let i = match init {
                None => None,
                Some(b) => Some(Box::new(relink_stmt(*b, id, ns, func))),
            };
            let c = relink_expr(condition, id, ns, here);
            let u = match update {
                None => None,
                Some(b) => Some(Box::new(relink_stmt(*b, id, ns, func))),
            };
            let b = relink_stmt(*body, id, ns, func);
            StmtKind::For { init: i, condition: c, update: u, body: Box::new(b) }
        },
        StmtKind::Assignment { lhs, rhs } => StmtKind::Assignment {
            lhs: relink_expr(lhs, id, ns, here),
            rhs: relink_expr(rhs, id, ns, here),
        },
        StmtKind::VariableDeclaration { decl, expr } => StmtKind::VariableDeclaration {
            decl: relink_declaration(decl, id, ns),
            expr: relink_opt_expr(expr, id, ns, here),
        },
        StmtKind::Return(e) => StmtKind::Return(relink_opt_expr(e, id, ns, here)),
        StmtKind::Require(e) => StmtKind::Require(relink_expr(e, id, ns, here)),
        StmtKind::ExpressionStatement(e) => StmtKind::ExpressionStatement(relink_expr(e, id, ns, here)),
        StmtKind::Break => StmtKind::Break,
        StmtKind::Continue => StmtKind::Continue,
    };
    let mut r = Stmt {
        id,
        kind: new_kind,
        line,
        column,
        parent: Some(parent),
        function,
        namespace: Some(copy_names(ns)),
        before_analysis,
        modified_values,
    };
    ExpressionToStatementVisitor.visitStatement(&mut r, &function_chain(func));
    r
}


pub open spec fn opt_stmt_relinked(old: Option<Stmt>, new: Option<Stmt>, parent: u64, ns: Seq<String>, func: Option<u64>) -> bool {
    match (old, new) {
        (None, None) => true,
        (Some(a), Some(b)) => stmt_relinked(a, b, parent, ns, func),
        _ => false,
    }
}

/// A function is linked below `parent`; its namespace extends the parent's by
/// its own name; its parameters and body are linked below it, and every
/// statement of its body is linked to it.
pub open spec fn function_relinked(
    old: ConstructorOrFunctionDefinition,
    new: ConstructorOrFunctionDefinition,
    parent: u64,
    parent_ns: Seq<String>,
) -> bool {
    let ns = parent_ns.push(old.idf.name);
    &&& new.id == old.id
    &&& new.is_constructor == old.is_constructor
    &&& new.can_be_external == old.can_be_external
    &&& new.can_be_private == old.can_be_private
    &&& new.requires_verification == old.requires_verification
    &&& new.requires_verification_when_external == old.requires_verification_when_external
    &&& new.has_static_body == old.has_static_body
    &&& new.has_side_effects == old.has_side_effects
    &&& new.is_recursive == old.is_recursive
    &&& new.called_functions == old.called_functions
    &&& new.parent == Some(parent)
    &&& has_namespace(new.namespace, ns)
    &&& identifier_relinked(old.idf, new.idf, old.id, ns)
    &&& new.parameters.len() == old.parameters.len()
    &&& (forall|i: int| 0 <= i < old.parameters.len() ==> declaration_relinked(
        #[trigger] old.parameters@[i],
        new.parameters@[i],
        old.id,
        ns,
    ))
    &&& new.return_parameters.len() == old.return_parameters.len()
    &&& (forall|i: int| 0 <= i < old.return_parameters.len() ==> declaration_relinked(
        #[trigger] old.return_parameters@[i],
        new.return_parameters@[i],
        old.id,
        ns,
    ))
    &&& opt_stmt_relinked(old.body, new.body, old.id, ns, Some(old.id))
}

pub open spec fn enum_relinked(old: EnumDefinition, new: EnumDefinition, parent: u64, parent_ns: Seq<String>) -> bool {
    let ns = parent_ns.push(old.idf.name);
    &&& new.id == old.id
    &&& new.annotated_type == old.annotated_type
    &&& new.parent == Some(parent)
    &&& has_namespace(new.namespace, ns)
    &&& identifier_relinked(old.idf, new.idf, old.id, ns)
    &&& new.values.len() == old.values.len()
    &&& forall|i: int| 0 <= i < old.values.len() ==> {
        &&& identifier_relinked(#[trigger] old.values@[i].idf, new.values@[i].idf, old.id, ns)
        &&& new.values@[i].annotated_type == old.values@[i].annotated_type
    }
}

pub open spec fn state_variable_relinked(
    old: StateVariableDeclaration,
    new: StateVariableDeclaration,
    parent: u64,
    ns: Seq<String>,
) -> bool {
    &&& declaration_relinked(old.decl, new.decl, parent, ns)
    &&& match (old.expr, new.expr) {
        (None, None) => true,
        (Some(a), Some(b)) => expr_relinked(a, b, old.decl.id, ns, None),
        _ => false,
    }
}

/// A contract is linked below the source unit `parent`; its namespace is its name.
pub open spec fn contract_relinked(old: ContractDefinition, new: ContractDefinition, parent: u64) -> bool {
    let ns = seq![old.idf.name];
    &&& new.id == old.id
    &&& new.parent == Some(parent)
    &&& has_namespace(new.namespace, ns)
    &&& identifier_relinked(old.idf, new.idf, old.id, ns)
    &&& new.state_variable_declarations.len() == old.state_variable_declarations.len()
    &&& (forall|i: int| 0 <= i < old.state_variable_declarations.len() ==> state_variable_relinked(
        #[trigger] old.state_variable_declarations@[i],
        new.state_variable_declarations@[i],
        old.id,
        ns,
    ))
    &&& new.constructor_definitions.len() == old.constructor_definitions.len()
    &&& (forall|i: int| 0 <= i < old.constructor_definitions.len() ==> function_relinked(
        #[trigger] old.constructor_definitions@[i],
        new.constructor_definitions@[i],
        old.id,
        ns,
    ))
    &&& new.function_definitions.len() == old.function_definitions.len()
    &&& (forall|i: int| 0 <= i < old.function_definitions.len() ==> function_relinked(
        #[trigger] old.function_definitions@[i],
        new.function_definitions@[i],
        old.id,
        ns,
    ))
    &&& new.enum_definitions.len() == old.enum_definitions.len()
    &&& (forall|i: int| 0 <= i < old.enum_definitions.len() ==> enum_relinked(
        #[trigger] old.enum_definitions@[i],
        new.enum_definitions@[i],
        old.id,
        ns,
    ))
}

/// The source unit has the empty namespace and every contract is linked below it.
pub open spec fn source_unit_relinked(old: SourceUnit, new: SourceUnit) -> bool {
    &&& new.id == old.id
    &&& has_namespace(new.namespace, Seq::empty())
    &&& new.contracts.len() == old.contracts.len()
    &&& forall|i: int| 0 <= i < old.contracts.len() ==> contract_relinked(
        #[trigger] old.contracts@[i],
        new.contracts@[i],
        old.id,
    )
}

fn relink_declarations(ds: Vec<Declaration>, parent: u64, ns: &Vec<String>) -> (r: Vec<Declaration>)
    ensures
        r.len() == ds.len(),
        forall|i: int| 0 <= i < ds.len() ==> declaration_relinked(#[trigger] ds@[i], r@[i], parent, ns@),
{
    let ghost old_ds = ds;
    let mut rest = ds;
    let mut out: Vec<Declaration> = Vec::new();
    while rest.len() > 0
        invariant
            out.len() + rest.len() == old_ds.len(),
            rest@ == old_ds@.subrange(out.len() as int, old_ds.len() as int),
            forall|j: int| 0 <= j < out.len() ==> declaration_relinked(#[trigger] old_ds@[j], out@[j], parent, ns@),
        decreases rest.len(),
    {
        let k = rest.remove(0);
        proof {
            assert(k == old_ds@[out.len() as int]);
        }
        out.push(relink_declaration(k, parent, ns));
    }
    out
}

/// The function linked below `parent`: its namespace set (see
/// `ParentSetterVisitor::visitConstructorOrFunctionDefinition`), then its
/// identifier, parameters and body linked below it.
fn relink_function(f: ConstructorOrFunctionDefinition, parent: u64, parent_ns: &Vec<String>) -> (r: ConstructorOrFunctionDefinition)
    ensures
        function_relinked(f, r, parent, parent_ns@),
{
    let v = ParentSetterVisitor::new();
    let mut f = f;
    let ghost f0 = f;
    v.visitConstructorOrFunctionDefinition(&mut f, Some(parent_ns));
    let ConstructorOrFunctionDefinition {
        id,
        idf,
        is_constructor,
        parameters,
        return_parameters,
        body,
        can_be_external,
        can_be_private,
        requires_verification,
        requires_verification_when_external,
        has_static_body,
        has_side_effects,
        is_recursive,
        called_functions,
        parent: _,
        namespace,
    } = f;
    let ns = match namespace {
        Some(n) => n,
        None => Vec::new(),
    };
    let ps = relink_declarations(parameters, id, &ns);
    let rps = relink_declarations(return_parameters, id, &ns);
    let b = match body {
        None => None,
        Some(s) => Some(relink_stmt(s, id, &ns, Some(id))),
    };
    let new_idf = relink_identifier(idf, id, &ns);
    ConstructorOrFunctionDefinition {
        id,
        idf: new_idf,
        is_constructor,
        parameters: ps,
        return_parameters: rps,
        body: b,
        can_be_external,
        can_be_private,
        requires_verification,
        requires_verification_when_external,
        has_static_body,
        has_side_effects,
        is_recursive,
        called_functions,
        parent: Some(parent),
        namespace: Some(ns),
    }
}

fn relink_functions(fs: Vec<ConstructorOrFunctionDefinition>, parent: u64, parent_ns: &Vec<String>) -> (r: Vec<
    ConstructorOrFunctionDefinition,
>)
    ensures
        r.len() == fs.len(),
        forall|i: int| 0 <= i < fs.len() ==> function_relinked(#[trigger] fs@[i], r@[i], parent, parent_ns@),
{
    let ghost old_fs = fs;
    let mut rest = fs;
    let mut out: Vec<ConstructorOrFunctionDefinition> = Vec::new();
    while rest.len() > 0
        invariant
            out.len() + rest.len() == old_fs.len(),
            rest@ == old_fs@.subrange(out.len() as int, old_fs.len() as int),
            forall|j: int| 0 <= j < out.len() ==> function_relinked(#[trigger] old_fs@[j], out@[j], parent, parent_ns@),
        decreases rest.len(),
    {
        let k = rest.remove(0);
        proof {
            assert(k == old_fs@[out.len() as int]);
        }
        out.push(relink_function(k, parent, parent_ns));
    }
    out
}

fn relink_enum(e: EnumDefinition, parent: u64, parent_ns: &Vec<String>) -> (r: EnumDefinition)
    ensures
        enum_relinked(e, r, parent, parent_ns@),
{
    let EnumDefinition { id, idf, values, annotated_type, parent: _, namespace: _ } = e;
    let ns = ParentSetterVisitor::new().visitNamespaceDefinition(&idf, Some(parent_ns));
    let ghost old_values = values;
    let mut rest = values;
    let mut out: Vec<EnumValue> = Vec::new();
    while rest.len() > 0
        invariant
            out.len() + rest.len() == old_values.len(),
            rest@ == old_values@.subrange(out.len() as int, old_values.len() as int),
            forall|j: int| 0 <= j < out.len() ==> {
                &&& identifier_relinked(#[trigger] old_values@[j].idf, out@[j].idf, id, ns@)
                &&& out@[j].annotated_type == old_values@[j].annotated_type
            },
        decreases rest.len(),
    {
        let k = rest.remove(0);
        proof {
            assert(k == old_values@[out.len() as int]);
        }
        let EnumValue { idf: vidf, annotated_type: vt } = k;
        out.push(EnumValue { idf: relink_identifier(vidf, id, &ns), annotated_type: vt });
    }
    let new_idf = relink_identifier(idf, id, &ns);
    EnumDefinition {
        id,
        idf: new_idf,
        values: out,
        annotated_type,
        parent: Some(parent),
        namespace: Some(ns),
    }
}

fn relink_contract(c: ContractDefinition, parent: u64) -> (r: ContractDefinition)
    ensures
        contract_relinked(c, r, parent),
{
    let ContractDefinition {
        id,
        idf,
        state_variable_declarations,
        constructor_definitions,
        function_definitions,
        enum_definitions,
        parent: _,
        namespace: _,
    } = c;
    let empty: Vec<String> = Vec::new();
    let ns = ParentSetterVisitor::new().visitNamespaceDefinition(&idf, Some(&empty));
    assert(ns@ =~= seq![idf.name]);
    // state variables
    let ghost old_svs = state_variable_declarations;
    let mut rest = state_variable_declarations;
    let mut svs: Vec<StateVariableDeclaration> = Vec::new();
    while rest.len() > 0
        invariant
            svs.len() + rest.len() == old_svs.len(),
            rest@ == old_svs@.subrange(svs.len() as int, old_svs.len() as int),
            forall|j: int| 0 <= j < svs.len() ==> state_variable_relinked(#[trigger] old_svs@[j], svs@[j], id, ns@),
        decreases rest.len(),
    {
        let k = rest.remove(0);
        proof {
            assert(k == old_svs@[svs.len() as int]);
        }
        let StateVariableDeclaration { decl, expr } = k;
        let did = decl.id;
        let nd = relink_declaration(decl, id, &ns);
        let ne = relink_opt_expr(expr, did, &ns, None);
        svs.push(StateVariableDeclaration { decl: nd, expr: ne });
    }
    let ctors = relink_functions(constructor_definitions, id, &ns);
    let fns = relink_functions(function_definitions, id, &ns);
    // enums
    let ghost old_enums = enum_definitions;
    let mut rest_e = enum_definitions;
    let mut enums: Vec<EnumDefinition> = Vec::new();
    while rest_e.len() > 0
        invariant
            enums.len() + rest_e.len() == old_enums.len(),
            rest_e@ == old_enums@.subrange(enums.len() as int, old_enums.len() as int),
            forall|j: int| 0 <= j < enums.len() ==> enum_relinked(#[trigger] old_enums@[j], enums@[j], id, ns@),
        decreases rest_e.len(),
    {
        let k = rest_e.remove(0);
        proof {
            assert(k == old_enums@[enums.len() as int]);
        }
        enums.push(relink_enum(k, id, &ns));
    }
    let new_idf = relink_identifier(idf, id, &ns);
    ContractDefinition {
        id,
        idf: new_idf,
        state_variable_declarations: svs,
        constructor_definitions: ctors,
        function_definitions: fns,
        enum_definitions: enums,
        parent: Some(parent),
        namespace: Some(ns),
    }
}

/// Links parents and namespaces (a pre-order traversal).
pub struct ParentSetterVisitor {
    pub traversal: String,
}

impl ParentSetterVisitor {
    pub fn new() -> (r: ParentSetterVisitor)
        ensures
            r.traversal@ == "pre"@,
    {
        let t = String::from_str("pre");
        proof {
            reveal_strlit("pre");
        }
        ParentSetterVisitor { traversal: t }
    }

    /// The source unit gets the empty namespace.
    pub fn visitSourceUnit(&self, ast: &mut SourceUnit)
        ensures
            has_namespace(final(ast).namespace, Seq::empty()),
            final(ast).id == old(ast).id,
            final(ast).contracts == old(ast).contracts,
    {
        ast.namespace = Some(Vec::new());
    }

    /// The namespace of a namespace definition: its parent's namespace (if it
    /// has a parent) extended by its identifier.
    pub fn visitNamespaceDefinition(&self, idf: &Identifier, parent_namespace: Option<&Vec<String>>) -> (r: Vec<String>)
        ensures
            r@ == match parent_namespace {
                Some(p) => p@.push(idf.name),
                None => seq![idf.name],
            },
    {
        match parent_namespace {
            Some(p) => names_push(p, &idf.name),
            None => {
                let mut v: Vec<String> = Vec::new();
                v.push(idf.name.clone());
                assert(v@ =~= seq![idf.name]);
                v
            },
        }
    }

    /// Gives a function the namespace of its parent extended by its name (its
    /// name alone where it has no parent); nothing else changes.
    pub fn visitConstructorOrFunctionDefinition(
        &self,
        ast: &mut ConstructorOrFunctionDefinition,
        parent_namespace: Option<&Vec<String>>,
    )
        ensures
            has_namespace(
                final(ast).namespace,
                match parent_namespace {
                    Some(p) => p@.push(old(ast).idf.name),
                    None => seq![old(ast).idf.name],
                },
            ),
            *final(ast) == (ConstructorOrFunctionDefinition { namespace: final(ast).namespace, ..*old(ast) }),
    {
        let ns = self.visitNamespaceDefinition(&ast.idf, parent_namespace);
        ast.namespace = Some(ns);
    }

    /// Links an expression that has a parent, and all its children below it,
    /// in the namespace `ns`.
    pub fn visitChildren(&self, ast: Expr, ns: &Vec<String>, stmt: Option<u64>) -> (r: Expr)
        requires
            ast.parent is Some,
        ensures
            expr_relinked(ast, r, ast.parent.unwrap(), ns@, stmt),
    {
        let p = match ast.parent {
            Some(x) => x,
            None => 0,
        };
        relink_expr(ast, p, ns, stmt)
    }
}


/// What an enclosing node is, as far as the links of expressions to
/// statements and of statements to functions are concerned.
#[derive(PartialEq, Eq, Structural, Clone, Copy, Debug)]
pub enum EnclosingKind {
    Function,
    Statement,
    Other,
}

/// A node on the chain of parents of another node.
#[derive(PartialEq, Eq, Structural, Clone, Copy, Debug)]
pub struct Enclosing {
    pub id: u64,
    pub kind: EnclosingKind,
}

/// The nearest node of the given kind on a chain of enclosing nodes, the
/// outermost first: the last one of that kind.
pub open spec fn nearest_enclosing(chain: Seq<Enclosing>, kind: EnclosingKind) -> Option<u64>
    decreases chain.len(),
{
    if chain.len() == 0 {
        None
    } else if chain.last().kind == kind {
        Some(chain.last().id)
    } else {
        nearest_enclosing(chain.drop_last(), kind)
    }
}

/// Follows the chain of enclosing nodes from the innermost outwards to the
/// first node of the given kind.
pub fn find_nearest_enclosing(chain: &Vec<Enclosing>, kind: EnclosingKind) -> (r: Option<u64>)
    ensures
        r == nearest_enclosing(chain@, kind),
{
    let mut i: usize = chain.len();
    proof {
        assert(chain@.subrange(0, i as int) =~= chain@);
    }
    while i > 0
        invariant
            i <= chain.len(),
            nearest_enclosing(chain@, kind) == nearest_enclosing(chain@.subrange(0, i as int), kind),
        decreases i,
    {
        let e = chain[i - 1];
        proof {
            let sub = chain@.subrange(0, i as int);
            assert(sub.last() == e);
            assert(sub.drop_last() =~= chain@.subrange(0, i - 1));
        }
        if e.kind == kind {
            return Some(e.id);
        }
        i = i - 1;
    }
    None
}

/// The chain of enclosing nodes that holds just the given statement.
fn statement_chain(stmt: Option<u64>) -> (r: Vec<Enclosing>)
    ensures
        nearest_enclosing(r@, EnclosingKind::Statement) == stmt,
{
    let mut v: Vec<Enclosing> = Vec::new();
    if let Some(s) = stmt {
        v.push(Enclosing { id: s, kind: EnclosingKind::Statement });
        assert(v@.drop_last() =~= Seq::<Enclosing>::empty());
    }
    v
}

/// The chain of enclosing nodes that holds just the given function.
fn function_chain(func: Option<u64>) -> (r: Vec<Enclosing>)
    ensures
        nearest_enclosing(r@, EnclosingKind::Function) == func,
{
    let mut v: Vec<Enclosing> = Vec::new();
    if let Some(f) = func {
        v.push(Enclosing { id: f, kind: EnclosingKind::Function });
        assert(v@.drop_last() =~= Seq::<Enclosing>::empty());
    }
    v
}

/// Links expressions to their enclosing statement and statements to their
/// enclosing function.
pub struct ExpressionToStatementVisitor;

impl ExpressionToStatementVisitor {
    /// Sets the statement of an expression to the nearest statement among
    /// its enclosing nodes (`ancestors`, the outermost first), where there is
    /// one; nothing else changes.
    pub fn visitExpression(&self, ast: &mut Expr, ancestors: &Vec<Enclosing>)
        ensures
            *final(ast) == (Expr {
                statement: match nearest_enclosing(ancestors@, EnclosingKind::Statement) {
                    Some(s) => Some(s),
                    None => old(ast).statement,
                },
                ..*old(ast)
            }),
    {
        let s = find_nearest_enclosing(ancestors, EnclosingKind::Statement);
        if s.is_some() {
            ast.statement = s;
        }
    }

    /// Sets the function of a statement to the nearest function among its
    /// enclosing nodes (`ancestors`, the outermost first), where there is
    /// one; nothing else changes.
    pub fn visitStatement(&self, ast: &mut Stmt, ancestors: &Vec<Enclosing>)
        ensures
            *final(ast) == (Stmt {
                function: match nearest_enclosing(ancestors@, EnclosingKind::Function) {
                    Some(f) => Some(f),
                    None => old(ast).function,
                },
                ..*old(ast)
            }),
    {
        let f = find_nearest_enclosing(ancestors, EnclosingKind::Function);
        if f.is_some() {
            ast.function = f;
        }
    }
}

/// Links every node of the source unit to its parent, sets every namespace,
/// and links expressions to statements and statements to functions.
pub fn set_parents(ast: SourceUnit) -> (r: SourceUnit)
    ensures
        source_unit_relinked(ast, r),
{
    let v = ParentSetterVisitor::new();
    let mut su = ast;
    v.visitSourceUnit(&mut su);
    let SourceUnit { id, contracts, namespace } = su;
    let ghost old_cs = contracts;
    let mut rest = contracts;
    let mut out: Vec<ContractDefinition> = Vec::new();
    while rest.len() > 0
        invariant
            out.len() + rest.len() == old_cs.len(),
            rest@ == old_cs@.subrange(out.len() as int, old_cs.len() as int),
            forall|j: int| 0 <= j < out.len() ==> contract_relinked(#[trigger] old_cs@[j], out@[j], id),
        decreases rest.len(),
    {
        let k = rest.remove(0);
        proof {
            assert(k == old_cs@[out.len() as int]);
        }
        out.push(relink_contract(k, id));
    }
    SourceUnit { id, contracts: out, namespace }
}


/// Every node of the expression has a parent.
pub open spec fn expr_has_parents(e: Expr) -> bool
    decreases e,
{
    &&& e.parent is Some
    &&& match e.kind {
        ExprKind::Index { arr, key } => expr_has_parents(*arr) && expr_has_parents(*key),
        ExprKind::MemberAccess { expr, .. } => expr_has_parents(*expr),
        ExprKind::FunctionCall { func, args } => {
            &&& match func {
                Callee::Location(l) => expr_has_parents(*l),
                Callee::Builtin(_) => true,
            }
            &&& forall|i: int| 0 <= i < args.len() ==> expr_has_parents(#[trigger] args@[i])
        },
        ExprKind::PrimitiveCast { expr, .. } => expr_has_parents(*expr),
        ExprKind::Reclassify { expr, .. } => expr_has_parents(*expr),
        ExprKind::Tuple(elems) => forall|i: int| 0 <= i < elems.len() ==> expr_has_parents(#[trigger] elems@[i]),
        ExprKind::New { args, .. } => forall|i: int| 0 <= i < args.len() ==> expr_has_parents(#[trigger] args@[i]),
        _ => true,
    }
}

pub open spec fn opt_expr_has_parents(e: Option<Expr>) -> bool {
    match e {
        Some(x) => expr_has_parents(x),
        None => true,
    }
}

pub open spec fn declaration_has_parents(d: Declaration) -> bool {
    d.parent is Some && d.idf.parent is Some
}

/// Every node of the statement has a parent.
pub open spec fn stmt_has_parents(s: Stmt) -> bool
    decreases s,
{
    &&& s.parent is Some
    &&& match s.kind {
        StmtKind::Block(ss) => forall|i: int| 0 <= i < ss.len() ==> stmt_has_parents(#[trigger] ss@[i]),
        StmtKind::StatementList(ss) => forall|i: int| 0 <= i < ss.len() ==> stmt_has_parents(#[trigger] ss@[i]),
        StmtKind::If { condition, then_branch, else_branch } => {
            &&& expr_has_parents(condition)
            &&& stmt_has_parents(*then_branch)
            &&& match else_branch {
                Some(b) => stmt_has_parents(*b),
                None => true,
            }
        },
        StmtKind::While { condition, body } => expr_has_parents(condition) && stmt_has_parents(*body),
        StmtKind::For { init, condition, update, body } => {
            &&& expr_has_parents(condition)
            &&& stmt_has_parents(*body)
            &&& match init {
                Some(b) => stmt_has_parents(*b),
                None => true,
            }
            &&& match update {
                Some(b) => stmt_has_parents(*b),
                None => true,
            }
        },
        StmtKind::Assignment { lhs, rhs } => expr_has_parents(lhs) && expr_has_parents(rhs),
        StmtKind::VariableDeclaration { decl, expr } => declaration_has_parents(decl) && opt_expr_has_parents(expr),
        StmtKind::Return(e) => opt_expr_has_parents(e),
        StmtKind::Require(e) => expr_has_parents(e),
        StmtKind::ExpressionStatement(e) => expr_has_parents(e),
        StmtKind::Break | StmtKind::Continue => true,
    }
}

pub open spec fn function_has_parents(f: ConstructorOrFunctionDefinition) -> bool {
    &&& f.parent is Some
    &&& f.idf.parent is Some
    &&& forall|i: int| 0 <= i < f.parameters.len() ==> declaration_has_parents(#[trigger] f.parameters@[i])
    &&& forall|i: int|
        0 <= i < f.return_parameters.len() ==> declaration_has_parents(#[trigger] f.return_parameters@[i])
    &&& match f.body {
        Some(b) => stmt_has_parents(b),
        None => true,
    }
}

pub open spec fn contract_has_parents(c: ContractDefinition) -> bool {
    &&& c.parent is Some
    &&& c.idf.parent is Some
    &&& forall|i: int| 0 <= i < c.state_variable_declarations.len() ==> {
        &&& declaration_has_parents(#[trigger] c.state_variable_declarations@[i].decl)
        &&& opt_expr_has_parents(c.state_variable_declarations@[i].expr)
    }
    &&& forall|i: int|
        0 <= i < c.constructor_definitions.len() ==> function_has_parents(#[trigger] c.constructor_definitions@[i])
    &&& forall|i: int|
        0 <= i < c.function_definitions.len() ==> function_has_parents(#[trigger] c.function_definitions@[i])
    &&& forall|i: int| 0 <= i < c.enum_definitions.len() ==> {
        &&& (#[trigger] c.enum_definitions@[i]).parent is Some
        &&& c.enum_definitions@[i].idf.parent is Some
        &&& forall|j: int| 0 <= j < c.enum_definitions@[i].values.len() ==>
            (#[trigger] c.enum_definitions@[i].values@[j]).idf.parent is Some
    }
}

/// Every node but the source unit itself has a parent.
pub open spec fn all_nodes_have_parent(su: SourceUnit) -> bool {
    forall|i: int| 0 <= i < su.contracts.len() ==> contract_has_parents(#[trigger] su.contracts@[i])
}

pub proof fn lemma_expr_relinked_has_parents(old: Expr, new: Expr, parent: u64, ns: Seq<String>, stmt: Option<u64>)
    requires
        expr_relinked(old, new, parent, ns, stmt),
    ensures
        expr_has_parents(new),
    decreases old,
{
    match (old.kind, new.kind) {
        (ExprKind::Index { arr: a1, key: k1 }, ExprKind::Index { arr: a2, key: k2 }) => {
            lemma_expr_relinked_has_parents(*a1, *a2, old.id, ns, stmt);
            lemma_expr_relinked_has_parents(*k1, *k2, old.id, ns, stmt);
        },
        (ExprKind::MemberAccess { expr: e1, .. }, ExprKind::MemberAccess { expr: e2, .. }) => {
            lemma_expr_relinked_has_parents(*e1, *e2, old.id, ns, stmt);
        },
        (ExprKind::FunctionCall { func: f1, args: a1 }, ExprKind::FunctionCall { func: f2, args: a2 }) => {
            match (f1, f2) {
                (Callee::Location(l1), Callee::Location(l2)) => {
                    lemma_expr_relinked_has_parents(*l1, *l2, old.id, ns, stmt);
                },
                _ => {},
            }
            assert forall|i: int| 0 <= i < a2.len() implies expr_has_parents(#[trigger] a2@[i]) by {
                lemma_expr_relinked_has_parents(a1@[i], a2@[i], old.id, ns, stmt);
            }
        },
        (ExprKind::PrimitiveCast { expr: e1, .. }, ExprKind::PrimitiveCast { expr: e2, .. }) => {
            lemma_expr_relinked_has_parents(*e1, *e2, old.id, ns, stmt);
        },
        (ExprKind::Reclassify { expr: e1, .. }, ExprKind::Reclassify { expr: e2, .. }) => {
            lemma_expr_relinked_has_parents(*e1, *e2, old.id, ns, stmt);
        },
        (ExprKind::Tuple(a1), ExprKind::Tuple(a2)) => {
            assert forall|i: int| 0 <= i < a2.len() implies expr_has_parents(#[trigger] a2@[i]) by {
                lemma_expr_relinked_has_parents(a1@[i], a2@[i], old.id, ns, stmt);
            }
        },
        (ExprKind::New { args: a1, .. }, ExprKind::New { args: a2, .. }) => {
            assert forall|i: int| 0 <= i < a2.len() implies expr_has_parents(#[trigger] a2@[i]) by {
                lemma_expr_relinked_has_parents(a1@[i], a2@[i], old.id, ns, stmt);
            }
        },
        _ => {},
    }
}

pub proof fn lemma_stmt_relinked_has_parents(old: Stmt, new: Stmt, parent: u64, ns: Seq<String>, func: Option<u64>)
    requires
        stmt_relinked(old, new, parent, ns, func),
    ensures
        stmt_has_parents(new),
    decreases old,
{
    match (old.kind, new.kind) {
        (StmtKind::Block(s1), StmtKind::Block(s2)) => {
            assert forall|i: int| 0 <= i < s2.len() implies stmt_has_parents(#[trigger] s2@[i]) by {
                lemma_stmt_relinked_has_parents(s1@[i], s2@[i], old.id, ns, func);
            }
        },
        (StmtKind::StatementList(s1), StmtKind::StatementList(s2)) => {
            assert forall|i: int| 0 <= i < s2.len() implies stmt_has_parents(#[trigger] s2@[i]) by {
                lemma_stmt_relinked_has_parents(s1@[i], s2@[i], old.id, ns, func);
            }
        },
        (
            StmtKind::If { condition: c1, then_branch: t1, else_branch: e1 },
            StmtKind::If { condition: c2, then_branch: t2, else_branch: e2 },
        ) => {
            lemma_expr_relinked_has_parents(c1, c2, old.id, ns, Some(old.id));
            lemma_stmt_relinked_has_parents(*t1, *t2, old.id, ns, func);
            match (e1, e2) {
                (Some(b1), Some(b2)) => lemma_stmt_relinked_has_parents(*b1, *b2, old.id, ns, func),
                _ => {},
            }
        },
        (StmtKind::While { condition: c1, body: b1 }, StmtKind::While { condition: c2, body: b2 }) => {
            lemma_expr_relinked_has_parents(c1, c2, old.id, ns, Some(old.id));
            lemma_stmt_relinked_has_parents(*b1, *b2, old.id, ns, func);
        },
        (
            StmtKind::For { init: i1, condition: c1, update: u1, body: b1 },
            StmtKind::For { init: i2, condition: c2, update: u2, body: b2 },
        ) => {
            lemma_expr_relinked_has_parents(c1, c2, old.id, ns, Some(old.id));
            lemma_stmt_relinked_has_parents(*b1, *b2, old.id, ns, func);
            match (i1, i2) {
                (Some(x1), Some(x2)) => lemma_stmt_relinked_has_parents(*x1, *x2, old.id, ns, func),
                _ => {},
            }
            match (u1, u2) {
                (Some(x1), Some(x2)) => lemma_stmt_relinked_has_parents(*x1, *x2, old.id, ns, func),
                _ => {},
            }
        },
        (StmtKind::Assignment { lhs: l1, rhs: r1 }, StmtKind::Assignment { lhs: l2, rhs: r2 }) => {
            lemma_expr_relinked_has_parents(l1, l2, old.id, ns, Some(old.id));
            lemma_expr_relinked_has_parents(r1, r2, old.id, ns, Some(old.id));
        },
        (StmtKind::VariableDeclaration { expr: x1, .. }, StmtKind::VariableDeclaration { expr: x2, .. }) => {
            match (x1, x2) {
                (Some(y1), Some(y2)) => lemma_expr_relinked_has_parents(y1, y2, old.id, ns, Some(old.id)),
                _ => {},
            }
        },
        (StmtKind::Return(x1), StmtKind::Return(x2)) => {
            match (x1, x2) {
                (Some(y1), Some(y2)) => lemma_expr_relinked_has_parents(y1, y2, old.id, ns, Some(old.id)),
                _ => {},
            }
        },
        (StmtKind::Require(c1), StmtKind::Require(c2)) => {
            lemma_expr_relinked_has_parents(c1, c2, old.id, ns, Some(old.id));
        },
        (StmtKind::ExpressionStatement(c1), StmtKind::ExpressionStatement(c2)) => {
            lemma_expr_relinked_has_parents(c1, c2, old.id, ns, Some(old.id));
        },
        _ => {},
    }
}

proof fn lemma_function_relinked_has_parents(
    old: ConstructorOrFunctionDefinition,
    new: ConstructorOrFunctionDefinition,
    parent: u64,
    parent_ns: Seq<String>,
)
    requires
        function_relinked(old, new, parent, parent_ns),
    ensures
        function_has_parents(new),
{
    let ns = parent_ns.push(old.idf.name);
    assert forall|i: int| 0 <= i < new.parameters.len() implies declaration_has_parents(
        #[trigger] new.parameters@[i],
    ) by {
        assert(declaration_relinked(old.parameters@[i], new.parameters@[i], old.id, ns));
    }
    assert forall|i: int| 0 <= i < new.return_parameters.len() implies declaration_has_parents(
        #[trigger] new.return_parameters@[i],
    ) by {
        assert(declaration_relinked(old.return_parameters@[i], new.return_parameters@[i], old.id, ns));
    }
    match (old.body, new.body) {
        (Some(b1), Some(b2)) => lemma_stmt_relinked_has_parents(b1, b2, old.id, ns, Some(old.id)),
        _ => {},
    }
}

proof fn lemma_contract_relinked_has_parents(old: ContractDefinition, new: ContractDefinition, parent: u64)
    requires
        contract_relinked(old, new, parent),
    ensures
        contract_has_parents(new),
{
    let ns = seq![old.idf.name];
    assert forall|i: int| 0 <= i < new.state_variable_declarations.len() implies {
        &&& declaration_has_parents(#[trigger] new.state_variable_declarations@[i].decl)
        &&& opt_expr_has_parents(new.state_variable_declarations@[i].expr)
    } by {
        let o = old.state_variable_declarations@[i];
        let n = new.state_variable_declarations@[i];
        assert(state_variable_relinked(o, n, old.id, ns));
        match (o.expr, n.expr) {
            (Some(a), Some(b)) => lemma_expr_relinked_has_parents(a, b, o.decl.id, ns, None),
            _ => {},
        }
    }
    assert forall|i: int| 0 <= i < new.constructor_definitions.len() implies function_has_parents(
        #[trigger] new.constructor_definitions@[i],
    ) by {
        lemma_function_relinked_has_parents(old.constructor_definitions@[i], new.constructor_definitions@[i], old.id, ns);
    }
    assert forall|i: int| 0 <= i < new.function_definitions.len() implies function_has_parents(
        #[trigger] new.function_definitions@[i],
    ) by {
        lemma_function_relinked_has_parents(old.function_definitions@[i], new.function_definitions@[i], old.id, ns);
    }
    assert forall|i: int| 0 <= i < new.enum_definitions.len() implies {
        &&& (#[trigger] new.enum_definitions@[i]).parent is Some
        &&& new.enum_definitions@[i].idf.parent is Some
        &&& forall|j: int| 0 <= j < new.enum_definitions@[i].values.len() ==>
            (#[trigger] new.enum_definitions@[i].values@[j]).idf.parent is Some
    } by {
        assert(enum_relinked(old.enum_definitions@[i], new.enum_definitions@[i], old.id, ns));
        assert forall|j: int| 0 <= j < new.enum_definitions@[i].values.len() implies
            (#[trigger] new.enum_definitions@[i].values@[j]).idf.parent is Some by {
            assert(identifier_relinked(old.enum_definitions@[i].values@[j].idf, new.enum_definitions@[i].values@[j].idf, old.enum_definitions@[i].id, ns.push(old.enum_definitions@[i].idf.name)));
        }
    }
}

/// After `set_parents`, every contract (a child of the root) has the source
/// unit as its parent.
pub proof fn law_root_children_have_parent(ast: SourceUnit, linked: SourceUnit)
    requires
        source_unit_relinked(ast, linked),
    ensures
        forall|i: int| 0 <= i < linked.contracts.len() ==> (#[trigger] linked.contracts@[i]).parent == Some(linked.id),
{
    assert forall|i: int| 0 <= i < linked.contracts.len() implies (#[trigger] linked.contracts@[i]).parent == Some(linked.id) by {
        assert(contract_relinked(ast.contracts@[i], linked.contracts@[i], ast.id));
    }
}

/// After `set_parents`, the identifier of every contract has the contract as its parent.
pub proof fn law_contract_identifier_parent(ast: SourceUnit, linked: SourceUnit)
    requires
        source_unit_relinked(ast, linked),
    ensures
        forall|i: int| 0 <= i < linked.contracts.len() ==> (#[trigger] linked.contracts@[i]).idf.parent == Some(linked.contracts@[i].id),
{
    assert forall|i: int| 0 <= i < linked.contracts.len() implies (#[trigger] linked.contracts@[i]).idf.parent == Some(linked.contracts@[i].id) by {
        assert(contract_relinked(ast.contracts@[i], linked.contracts@[i], ast.id));
    }
}

/// After `set_parents`, every node but the source unit has a parent.
pub proof fn law_all_nodes_have_parent(ast: SourceUnit, linked: SourceUnit)
    requires
        source_unit_relinked(ast, linked),
    ensures
        all_nodes_have_parent(linked),
{
    assert forall|i: int| 0 <= i < linked.contracts.len() implies contract_has_parents(#[trigger] linked.contracts@[i]) by {
        lemma_contract_relinked_has_parents(ast.contracts@[i], linked.contracts@[i], ast.id);
    }
}


/// Relinking keeps an expression typed and well-formed.
pub proof fn lemma_relinked_keeps_typing(old: Expr, new: Expr, parent: u64, ns: Seq<String>, stmt: Option<u64>)
    requires
        expr_relinked(old, new, parent, ns, stmt),
    ensures
        new.spec_typed() == old.spec_typed(),
        new.spec_well_formed() == old.spec_well_formed(),
    decreases old,
{
    match (old.kind, new.kind) {
        (ExprKind::Index { arr: a1, key: k1 }, ExprKind::Index { arr: a2, key: k2 }) => {
            lemma_relinked_keeps_typing(*a1, *a2, old.id, ns, stmt);
            lemma_relinked_keeps_typing(*k1, *k2, old.id, ns, stmt);
        },
        (ExprKind::MemberAccess { expr: e1, .. }, ExprKind::MemberAccess { expr: e2, .. }) => {
            lemma_relinked_keeps_typing(*e1, *e2, old.id, ns, stmt);
        },
        (ExprKind::FunctionCall { func: f1, args: a1 }, ExprKind::FunctionCall { func: f2, args: a2 }) => {
            match (f1, f2) {
                (Callee::Location(l1), Callee::Location(l2)) => {
                    lemma_relinked_keeps_typing(*l1, *l2, old.id, ns, stmt);
                },
                _ => {},
            }
            assert(a1.len() == a2.len());
            assert forall|i: int| #![trigger a1@[i]] #![trigger a2@[i]] 0 <= i < a1.len() implies a1@[i].spec_typed() == a2@[i].spec_typed()
                && a1@[i].spec_well_formed() == a2@[i].spec_well_formed() by {
                lemma_relinked_keeps_typing(a1@[i], a2@[i], old.id, ns, stmt);
            }
            assert((forall|i: int| 0 <= i < a1.len() ==> (#[trigger] a1@[i]).spec_typed()) == (forall|i: int|
                0 <= i < a2.len() ==> (#[trigger] a2@[i]).spec_typed()));
            assert((forall|i: int| 0 <= i < a1.len() ==> (#[trigger] a1@[i]).spec_well_formed()) == (forall|i: int|
                0 <= i < a2.len() ==> (#[trigger] a2@[i]).spec_well_formed()));
        },
        (ExprKind::PrimitiveCast { expr: e1, .. }, ExprKind::PrimitiveCast { expr: e2, .. }) => {
            lemma_relinked_keeps_typing(*e1, *e2, old.id, ns, stmt);
        },
        (ExprKind::Reclassify { expr: e1, .. }, ExprKind::Reclassify { expr: e2, .. }) => {
            lemma_relinked_keeps_typing(*e1, *e2, old.id, ns, stmt);
        },
        (ExprKind::Tuple(a1), ExprKind::Tuple(a2)) => {
            assert(a1.len() == a2.len());
            assert forall|i: int| #![trigger a1@[i]] #![trigger a2@[i]] 0 <= i < a1.len() implies a1@[i].spec_typed() == a2@[i].spec_typed()
                && a1@[i].spec_well_formed() == a2@[i].spec_well_formed() by {
                lemma_relinked_keeps_typing(a1@[i], a2@[i], old.id, ns, stmt);
            }
            assert((forall|i: int| 0 <= i < a1.len() ==> (#[trigger] a1@[i]).spec_typed()) == (forall|i: int|
                0 <= i < a2.len() ==> (#[trigger] a2@[i]).spec_typed()));
            assert((forall|i: int| 0 <= i < a1.len() ==> (#[trigger] a1@[i]).spec_well_formed()) == (forall|i: int|
                0 <= i < a2.len() ==> (#[trigger] a2@[i]).spec_well_formed()));
        },
        (ExprKind::New { args: a1, .. }, ExprKind::New { args: a2, .. }) => {
            assert(a1.len() == a2.len());
            assert forall|i: int| #![trigger a1@[i]] #![trigger a2@[i]] 0 <= i < a1.len() implies a1@[i].spec_typed() == a2@[i].spec_typed()
                && a1@[i].spec_well_formed() == a2@[i].spec_well_formed() by {
                lemma_relinked_keeps_typing(a1@[i], a2@[i], old.id, ns, stmt);
            }
            assert((forall|i: int| 0 <= i < a1.len() ==> (#[trigger] a1@[i]).spec_typed()) == (forall|i: int|
                0 <= i < a2.len() ==> (#[trigger] a2@[i]).spec_typed()));
            assert((forall|i: int| 0 <= i < a1.len() ==> (#[trigger] a1@[i]).spec_well_formed()) == (forall|i: int|
                0 <= i < a2.len() ==> (#[trigger] a2@[i]).spec_well_formed()));
        },
        _ => {},
    }
}

} // verus!
