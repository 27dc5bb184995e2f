//! The visitor framework: the class hierarchy of AST nodes, the lookup of
//! the visit function that handles a node, and the traversal orders.
use vstd::prelude::*;
use crate::ast::SourceUnit;

verus! {

/// The kinds of AST nodes, as a class hierarchy (see `spec_bases`).
#[derive(PartialEq, Eq, Structural, Clone, Copy, Debug)]
pub enum ASTType {
    AST,
    Identifier,
    Expression,
    BuiltinFunction,
    FunctionCallExpr,
    NewExpr,
    PrimitiveCastExpr,
    LiteralExpr,
    BooleanLiteralExpr,
    NumberLiteralExpr,
    TupleOrLocationExpr,
    TupleExpr,
    LocationExpr,
    IdentifierExpr,
    MemberAccessExpr,
    IndexExpr,
    MeExpr,
    AllExpr,
    ReclassifyExpr,
    RehomExpr,
    Statement,
    IfStatement,
    WhileStatement,
    ForStatement,
    BreakStatement,
    ContinueStatement,
    ReturnStatement,
    SimpleStatement,
    ExpressionStatement,
    RequireStatement,
    AssignmentStatement,
    VariableDeclarationStatement,
    StatementList,
    Block,
    TypeName,
    Mapping,
    AnnotatedTypeName,
    IdentifierDeclaration,
    VariableDeclaration,
    Parameter,
    StateVariableDeclaration,
    NamespaceDefinition,
    ConstructorOrFunctionDefinition,
    EnumDefinition,
    ContractDefinition,
    EnumValue,
    SourceUnit,
}

/// The direct base class of a node kind; `AST` has none.
pub open spec fn spec_bases(c: ASTType) -> Option<ASTType> {
    match c {
        ASTType::AST => None,
        ASTType::Identifier | ASTType::Expression | ASTType::Statement | ASTType::TypeName | ASTType::AnnotatedTypeName
        | ASTType::IdentifierDeclaration | ASTType::NamespaceDefinition | ASTType::EnumValue | ASTType::SourceUnit => Some(
            ASTType::AST,
        ),
        ASTType::BuiltinFunction | ASTType::FunctionCallExpr | ASTType::PrimitiveCastExpr | ASTType::LiteralExpr
        | ASTType::TupleOrLocationExpr | ASTType::MeExpr | ASTType::AllExpr | ASTType::ReclassifyExpr => Some(
            ASTType::Expression,
        ),
        ASTType::NewExpr => Some(ASTType::FunctionCallExpr),
        ASTType::BooleanLiteralExpr | ASTType::NumberLiteralExpr => Some(ASTType::LiteralExpr),
        ASTType::TupleExpr | ASTType::LocationExpr => Some(ASTType::TupleOrLocationExpr),
        ASTType::IdentifierExpr | ASTType::MemberAccessExpr | ASTType::IndexExpr => Some(ASTType::LocationExpr),
        ASTType::RehomExpr => Some(ASTType::ReclassifyExpr),
        ASTType::IfStatement | ASTType::WhileStatement | ASTType::ForStatement | ASTType::BreakStatement
        | ASTType::ContinueStatement | ASTType::ReturnStatement | ASTType::SimpleStatement | ASTType::StatementList => Some(
            ASTType::Statement,
        ),
        ASTType::ExpressionStatement | ASTType::RequireStatement | ASTType::AssignmentStatement
        | ASTType::VariableDeclarationStatement => Some(ASTType::SimpleStatement),
        ASTType::Block => Some(ASTType::StatementList),
        ASTType::Mapping => Some(ASTType::TypeName),
        ASTType::VariableDeclaration | ASTType::Parameter | ASTType::StateVariableDeclaration => Some(
            ASTType::IdentifierDeclaration,
        ),
        ASTType::ConstructorOrFunctionDefinition | ASTType::EnumDefinition | ASTType::ContractDefinition => Some(
            ASTType::NamespaceDefinition,
        ),
    }
}

/// How far a node kind lies below `AST`.
pub open spec fn type_depth(c: ASTType) -> nat {
    match spec_bases(c) {
        None => 0,
        Some(b) => match spec_bases(b) {
            None => 1,
            Some(b2) => match spec_bases(b2) {
                None => 2,
                Some(b3) => match spec_bases(b3) {
                    None => 3,
                    Some(_) => 4,
                },
            },
        },
    }
}

/// The base class of a node kind.
pub fn bases(c: ASTType) -> (r: Option<ASTType>)
    ensures
        r == spec_bases(c),
{
    match c {
        ASTType::AST => None,
        ASTType::Identifier | ASTType::Expression | ASTType::Statement | ASTType::TypeName | ASTType::AnnotatedTypeName
        | ASTType::IdentifierDeclaration | ASTType::NamespaceDefinition | ASTType::EnumValue | ASTType::SourceUnit => Some(
            ASTType::AST,
        ),
        ASTType::BuiltinFunction | ASTType::FunctionCallExpr | ASTType::PrimitiveCastExpr | ASTType::LiteralExpr
        | ASTType::TupleOrLocationExpr | ASTType::MeExpr | ASTType::AllExpr | ASTType::ReclassifyExpr => Some(
            ASTType::Expression,
        ),
        ASTType::NewExpr => Some(ASTType::FunctionCallExpr),
        ASTType::BooleanLiteralExpr | ASTType::NumberLiteralExpr => Some(ASTType::LiteralExpr),
        ASTType::TupleExpr | ASTType::LocationExpr => Some(ASTType::TupleOrLocationExpr),
        ASTType::IdentifierExpr | ASTType::MemberAccessExpr | ASTType::IndexExpr => Some(ASTType::LocationExpr),
        ASTType::RehomExpr => Some(ASTType::ReclassifyExpr),
        ASTType::IfStatement | ASTType::WhileStatement | ASTType::ForStatement | ASTType::BreakStatement
        | ASTType::ContinueStatement | ASTType::ReturnStatement | ASTType::SimpleStatement | ASTType::StatementList => Some(
            ASTType::Statement,
        ),
        ASTType::ExpressionStatement | ASTType::RequireStatement | ASTType::AssignmentStatement
        | ASTType::VariableDeclarationStatement => Some(ASTType::SimpleStatement),
        ASTType::Block => Some(ASTType::StatementList),
        ASTType::Mapping => Some(ASTType::TypeName),
        ASTType::VariableDeclaration | ASTType::Parameter | ASTType::StateVariableDeclaration => Some(
            ASTType::IdentifierDeclaration,
        ),
        ASTType::ConstructorOrFunctionDefinition | ASTType::EnumDefinition | ASTType::ContractDefinition => Some(
            ASTType::NamespaceDefinition,
        ),
    }
}

/// Every base class lies one level higher.
pub proof fn lemma_bases_depth(c: ASTType)
    ensures
        spec_bases(c) matches Some(b) ==> type_depth(b) < type_depth(c),
{
}

/// The kind that handles a node of kind `c` for a visitor handling the kinds
/// in `handled`: `c` itself or its nearest base class that is handled.
pub open spec fn nearest_handled(handled: Seq<ASTType>, c: ASTType) -> Option<ASTType>
    decreases type_depth(c),
{
    if handled.contains(c) {
        Some(c)
    } else {
        match spec_bases(c) {
            None => None,
            Some(b) => {
                proof {
                    lemma_bases_depth(c);
                }
                nearest_handled(handled, b)
            },
        }
    }
}

/// `k` is `c` or one of its base classes.
pub open spec fn is_kind_or_base(c: ASTType, k: ASTType) -> bool
    decreases type_depth(c),
{
    c == k || match spec_bases(c) {
        None => false,
        Some(b) => {
            proof {
                lemma_bases_depth(c);
            }
            is_kind_or_base(b, k)
        },
    }
}

/// The visit function found for a node is that of its own kind or of a base
/// class, one the visitor handles; none is found only where the visitor
/// handles neither the kind nor any of its base classes. Of the kinds that
/// qualify, the one nearest to the node's kind is taken.
pub proof fn law_visit_function_is_a_handled_base(handled: Seq<ASTType>, c: ASTType)
    ensures
        nearest_handled(handled, c) matches Some(k) ==> handled.contains(k) && is_kind_or_base(c, k),
        nearest_handled(handled, c) is None ==> forall|k: ASTType| is_kind_or_base(c, k) ==> !handled.contains(k),
        handled.contains(c) ==> nearest_handled(handled, c) == Some(c),
    decreases type_depth(c),
{
    if !handled.contains(c) {
        if let Some(b) = spec_bases(c) {
            lemma_bases_depth(c);
            law_visit_function_is_a_handled_base(handled, b);
        }
    }
}

fn handles(handled: &Vec<ASTType>, c: ASTType) -> (r: bool)
    ensures
        r == handled@.contains(c),
{
    let mut i: usize = 0;
    while i < handled.len()
        invariant
            i <= handled.len(),
            forall|j: int| 0 <= j < i ==> handled@[j] != c,
        decreases handled.len() - i,
    {
        if handled[i] == c {
            return true;
        }
        i = i + 1;
    }
    false
}

/// Finds the visit function for a node of kind `c` (see `nearest_handled`).
pub fn get_visit_function(handled: &Vec<ASTType>, c: ASTType) -> (r: Option<ASTType>)
    ensures
        r == nearest_handled(handled@, c),
    decreases type_depth(c),
{
    if handles(handled, c) {
        Some(c)
    } else {
        match bases(c) {
            None => None,
            Some(b) => {
                proof {
                    lemma_bases_depth(c);
                }
                get_visit_function(handled, b)
            },
        }
    }
}

/// One step of visiting a node.
#[derive(PartialEq, Eq, Structural, Clone, Copy, Debug)]
pub enum VisitStep {
    /// Visit the children.
    Children,
    /// Call the node's visit function.
    Handler,
}

/// The traversal orders.
pub open spec fn traversal_post() -> Seq<char> {
    seq!['p', 'o', 's', 't']
}

pub open spec fn traversal_pre() -> Seq<char> {
    seq!['p', 'r', 'e']
}

pub open spec fn traversal_node_or_children() -> Seq<char> {
    seq!['n', 'o', 'd', 'e', '-', 'o', 'r', '-', 'c', 'h', 'i', 'l', 'd', 'r', 'e', 'n']
}

/// The steps of visiting a node: `post` visits the children, then the
/// node's function; `pre` the function, then the children;
/// `node-or-children` the function if there is one, else the children.
pub open spec fn visit_steps(traversal: Seq<char>, has_handler: bool) -> Seq<VisitStep> {
    let h: Seq<VisitStep> = if has_handler { seq![VisitStep::Handler] } else { seq![] };
    if traversal == traversal_post() {
        seq![VisitStep::Children] + h
    } else if traversal == traversal_node_or_children() {
        if has_handler { h } else { seq![VisitStep::Children] }
    } else if traversal == traversal_pre() {
        h + seq![VisitStep::Children]
    } else {
        h
    }
}

/// The state of a visitor: its traversal order and whether it logs.
pub struct AstVisitorBase {
    pub traversal: String,
    pub log: bool,
}

impl AstVisitorBase {
    /// A visitor with the given traversal order, `post` if none is given.
    pub fn new(traversal: &str, log: bool) -> (r: AstVisitorBase)
        ensures
            r.traversal@ == (if traversal@.len() == 0 { traversal_post() } else { traversal@ }),
            r.log == log,
    {
        let t = if traversal.is_empty() {
            let p = String::from_str("post");
            proof {
                reveal_strlit("post");
                assert(p@ =~= traversal_post());
            }
            p
        } else {
            String::from_str(traversal)
        };
        AstVisitorBase { traversal: t, log }
    }

    /// The steps of visiting a node (see `visit_steps`).
    pub fn visit_steps(&self, has_handler: bool) -> (r: Vec<VisitStep>)
        ensures
            r@ == visit_steps(self.traversal@, has_handler),
    {
        let post = String::from_str("post");
        let pre = String::from_str("pre");
        let noc = String::from_str("node-or-children");
        proof {
            reveal_strlit("post");
            reveal_strlit("pre");
            reveal_strlit("node-or-children");
            assert(post@ =~= traversal_post());
            assert(pre@ =~= traversal_pre());
            assert(noc@ =~= traversal_node_or_children());
        }
        let mut r: Vec<VisitStep> = Vec::new();
        if self.traversal == post {
            r.push(VisitStep::Children);
            if has_handler {
                r.push(VisitStep::Handler);
            }
        } else if self.traversal == noc {
            if has_handler {
                r.push(VisitStep::Handler);
            } else {
                r.push(VisitStep::Children);
            }
        } else if self.traversal == pre {
            if has_handler {
                r.push(VisitStep::Handler);
            }
            r.push(VisitStep::Children);
        } else if has_handler {
            r.push(VisitStep::Handler);
        }
        proof {
            assert(r@ =~= visit_steps(self.traversal@, has_handler));
        }
        r
    }
}

impl AstVisitorBase {
    /// The steps of visiting a node of kind `c` for a visitor that has visit
    /// functions for the kinds in `handled`: the node is handled where its kind
    /// or a base class of it is (see `nearest_handled`).
    pub fn _visit_internal(&self, handled: &Vec<ASTType>, c: ASTType) -> (r: Vec<VisitStep>)
        ensures
            r@ == visit_steps(self.traversal@, nearest_handled(handled@, c) is Some),
    {
        let f = get_visit_function(handled, c);
        self.visit_steps(f.is_some())
    }
}

/// The ids of the functions of the contracts, constructors first within each
/// contract, in the order a function visitor visits them.
pub open spec fn functions_in_order(cs: Seq<crate::ast::ContractDefinition>) -> Seq<u64>
    decreases cs.len(),
{
    if cs.len() == 0 {
        seq![]
    } else {
        let c = cs[0];
        Seq::new(c.constructor_definitions.len() as nat, |i: int| c.constructor_definitions@[i].id) + Seq::new(
            c.function_definitions.len() as nat,
            |i: int| c.function_definitions@[i].id,
        ) + functions_in_order(cs.drop_first())
    }
}

/// A visitor of the functions of a program only.
pub struct FunctionVisitor {}

impl FunctionVisitor {
    /// The ids of the functions visited, in order (see `functions_in_order`).
    pub fn visitSourceUnit(&self, ast: &SourceUnit) -> (r: Vec<u64>)
        ensures
            r@ == functions_in_order(ast.contracts@),
    {
        let mut r: Vec<u64> = Vec::new();
        let mut i: usize = ast.contracts.len();
        let mut tail: Vec<u64> = Vec::new();
        while i > 0
            invariant
                i <= ast.contracts.len(),
                tail@ == functions_in_order(ast.contracts@.subrange(i as int, ast.contracts.len() as int)),
            decreases i,
        {
            i = i - 1;
            let c = &ast.contracts[i];
            let mut ids: Vec<u64> = Vec::new();
            let mut j: usize = 0;
            while j < c.constructor_definitions.len()
                invariant
                    j <= c.constructor_definitions.len(),
                    ids@ == Seq::new(j as nat, |k: int| c.constructor_definitions@[k].id),
                decreases c.constructor_definitions.len() - j,
            {
                ids.push(c.constructor_definitions[j].id);
                j = j + 1;
                proof {
                    assert(ids@ =~= Seq::new(j as nat, |k: int| c.constructor_definitions@[k].id));
                }
            }
            let ghost ctor_ids = ids@;
            let mut j: usize = 0;
            while j < c.function_definitions.len()
                invariant
                    j <= c.function_definitions.len(),
                    ids@ == ctor_ids + Seq::new(j as nat, |k: int| c.function_definitions@[k].id),
                decreases c.function_definitions.len() - j,
            {
                ids.push(c.function_definitions[j].id);
                j = j + 1;
                proof {
                    assert(ids@ =~= ctor_ids + Seq::new(j as nat, |k: int| c.function_definitions@[k].id));
                }
            }
            let ghost old_tail = tail@;
            let mut k: usize = 0;
            while k < tail.len()
                invariant
                    k <= tail.len(),
                    tail@ == old_tail,
                    ids@ == ctor_ids + Seq::new(c.function_definitions.len() as nat, |m: int| c.function_definitions@[m].id)
                        + old_tail.subrange(0, k as int),
                decreases tail.len() - k,
            {
                ids.push(tail[k]);
                k = k + 1;
                proof {
                    assert(ids@ =~= ctor_ids + Seq::new(c.function_definitions.len() as nat, |m: int| c.function_definitions@[m].id)
                        + old_tail.subrange(0, k as int));
                }
            }
            proof {
                let sub = ast.contracts@.subrange(i as int, ast.contracts.len() as int);
                assert(sub[0] == *c);
                assert(sub.drop_first() =~= ast.contracts@.subrange(i + 1, ast.contracts.len() as int));
                assert(old_tail.subrange(0, old_tail.len() as int) =~= old_tail);
                assert(ctor_ids =~= Seq::new(c.constructor_definitions.len() as nat, |m: int| c.constructor_definitions@[m].id));
            }
            tail = ids;
        }
        proof {
            assert(ast.contracts@.subrange(0, ast.contracts.len() as int) =~= ast.contracts@);
        }
        r = tail;
        r
    }

    /// Parameters are not visited.
    pub fn visitParameter(&self, _ast: &crate::ast::Declaration) {
    }
}

/// The state of a transforming visitor: whether it logs.
pub struct AstTransformerVisitorBase {
    pub log: bool,
}

impl AstTransformerVisitorBase {
    pub fn new(log: bool) -> (r: AstTransformerVisitorBase)
        ensures
            r.log == log,
    {
        AstTransformerVisitorBase { log }
    }

    /// The steps of visiting a node of kind `c` for a transforming visitor
    /// with visit functions for the kinds in `handled`: the node's visit
    /// function where there is one, whose result replaces the node; else the
    /// node stays and its children are visited.
    pub fn _visit_internal(&self, handled: &Vec<ASTType>, c: ASTType) -> (r: Vec<VisitStep>)
        ensures
            r@ == visit_steps(traversal_node_or_children(), nearest_handled(handled@, c) is Some),
    {
        let mut r: Vec<VisitStep> = Vec::new();
        if get_visit_function(handled, c).is_some() {
            r.push(VisitStep::Handler);
        } else {
            r.push(VisitStep::Children);
        }
        proof {
            assert(r@ =~= visit_steps(traversal_node_or_children(), nearest_handled(handled@, c) is Some));
        }
        r
    }

    /// The default visit function: the node stays and its children are visited.
    pub fn visitAST(&self) -> (r: Vec<VisitStep>)
        ensures
            r@ == seq![VisitStep::Children],
    {
        let mut r: Vec<VisitStep> = Vec::new();
        r.push(VisitStep::Children);
        proof {
            assert(r@ =~= seq![VisitStep::Children]);
        }
        r
    }

    /// Visits a node of kind `kind`: with the visit function of the nearest
    /// kind that has one (`handler`, given that kind and the node), whose
    /// result replaces the node; else the node's children are visited
    /// (`visit_children`). `None` removes the node.
    pub fn visit<A, F: Fn(ASTType, A) -> Option<A>, G: Fn(A) -> Option<A>>(
        &self,
        handled: &Vec<ASTType>,
        kind: ASTType,
        ast: A,
        handler: F,
        visit_children: G,
    ) -> (r: Option<A>)
        requires
            nearest_handled(handled@, kind) matches Some(k) ==> call_requires(handler, (k, ast)),
            nearest_handled(handled@, kind) is None ==> call_requires(visit_children, (ast,)),
        ensures
            nearest_handled(handled@, kind) matches Some(k) ==> call_ensures(handler, (k, ast), r),
            nearest_handled(handled@, kind) is None ==> call_ensures(visit_children, (ast,), r),
    {
        match get_visit_function(handled, kind) {
            Some(k) => handler(k, ast),
            None => visit_children(ast),
        }
    }

    /// Visits each node of the list in order and keeps the results that are
    /// not removed.
    pub fn visit_list<A, F: Fn(A) -> Option<A>>(&self, ast_list: Vec<A>, visit: F) -> (r: Vec<A>)
        requires
            forall|i: int| 0 <= i < ast_list.len() ==> call_requires(visit, (#[trigger] ast_list@[i],)),
        ensures
            r.len() <= ast_list.len(),
            exists|results: Seq<Option<A>>|
                {
                    &&& results.len() == ast_list.len()
                    &&& forall|i: int| 0 <= i < ast_list.len() ==> call_ensures(visit, (ast_list@[i],), #[trigger] results[i])
                    &&& r@ == kept(results)
                },
    {
        let ghost old = ast_list@;
        let mut rest = ast_list;
        let mut out: Vec<A> = Vec::new();
        let ghost mut results: Seq<Option<A>> = Seq::empty();
        while rest.len() > 0
            invariant
                results.len() + rest.len() == old.len(),
                rest@ == old.subrange(results.len() as int, old.len() as int),
                forall|i: int| 0 <= i < old.len() ==> call_requires(visit, (#[trigger] old[i],)),
                forall|i: int| 0 <= i < results.len() ==> call_ensures(visit, (old[i],), #[trigger] results[i]),
                out@ == kept(results),
                out.len() <= results.len(),
            decreases rest.len(),
        {
            let x = rest.remove(0);
            proof {
                assert(x == old[results.len() as int]);
            }
            let y = visit(x);
            let ghost before = results;
            proof {
                results = results.push(y);
                assert(results.drop_last() =~= before);
            }
            match y {
                Some(v) => out.push(v),
                None => {},
            }
        }
        out
    }
}

/// The values of the results that are present, in order.
pub open spec fn kept<T>(s: Seq<Option<T>>) -> Seq<T>
    decreases s.len(),
{
    if s.len() == 0 {
        seq![]
    } else {
        let prev = kept(s.drop_last());
        match s.last() {
            Some(v) => prev.push(v),
            None => prev,
        }
    }
}

} // verus!
