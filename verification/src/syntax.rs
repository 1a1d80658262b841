//! The abstract syntax the checker consumes, as the parser and scope
//! resolver hand it over: expressions, assignment targets and statements in
//! arenas, children referred to by index, every identifier already resolved
//! to a binding slot or a global, and type annotations already evaluated to
//! [`Ty`] values.
//!
//! Arenas keep the walk simple: a well-formed node only refers to nodes
//! earlier in the same arena, so every recursive walk descends on the index.

use vstd::prelude::*;

use crate::bindings::Interface;
use crate::codemap::Span;
use crate::ty::ty_v;
use crate::ty::wf_ty;
use crate::ty::Ty;

verus! {

/// A stable identifier for one local binding slot, assigned upstream during
/// scope resolution: an index below the module's `n_bindings`.
pub type BindingId = usize;

/// An identifier, after scope resolution.
pub enum IdentRef {
    /// A local binding slot.
    Slot(BindingId),
    /// A global, by name; the oracle's documentation knows its type.
    Global(String),
    /// Resolution failed upstream; the checker stays quiet about it.
    Unresolved,
}

/// The augmented-assignment operators.
#[derive(Clone, Copy, Debug, PartialEq, Eq, Structural)]
pub enum AssignOp {
    /// `+=`.
    Add,
    /// `-=`.
    Subtract,
    /// `*=`.
    Multiply,
    /// `/=`.
    Divide,
    /// `//=`.
    FloorDivide,
    /// `%=`.
    Percent,
    /// `&=`.
    BitAnd,
    /// `|=`.
    BitOr,
    /// `^=`.
    BitXor,
    /// `<<=`.
    LeftShift,
    /// `>>=`.
    RightShift,
}

/// The binary operators of the expression grammar.
#[derive(Clone, Copy, Debug, PartialEq, Eq, Structural)]
pub enum BinOp {
    /// `and`.
    And,
    /// `or`.
    Or,
    /// `==`.
    Equal,
    /// `!=`.
    NotEqual,
    /// `<`.
    Less,
    /// `<=`.
    LessOrEqual,
    /// `>`.
    Greater,
    /// `>=`.
    GreaterOrEqual,
    /// `in`.
    In,
    /// `not in`.
    NotIn,
    /// `-`.
    Subtract,
    /// `+`.
    Add,
    /// `*`.
    Multiply,
    /// `%`.
    Percent,
    /// `/`.
    Divide,
    /// `//`.
    FloorDivide,
    /// `&`.
    BitAnd,
    /// `|`.
    BitOr,
    /// `^`.
    BitXor,
    /// `<<`.
    LeftShift,
    /// `>>`.
    RightShift,
}

/// A literal. The checker only needs its kind; the float keeps its text
/// since the checker never computes with it.
pub enum Lit {
    /// An integer literal.
    Int(i64),
    /// A floating-point literal, as written.
    Float(String),
    /// A string literal.
    Str(String),
}

/// One call-site argument, referring to its value expression.
pub struct ArgNode {
    /// Where the argument stood.
    pub span: Span,
    /// How it is passed.
    pub kind: ArgKind,
}

/// How a call-site argument is passed.
pub enum ArgKind {
    /// Positional.
    Pos(usize),
    /// Named.
    Named(String, usize),
    /// A `*args` spread.
    Args(usize),
    /// A `**kwargs` spread.
    Kwargs(usize),
}

/// One `for` clause of a comprehension.
pub struct ForClause {
    /// The clause variable, an assignment target.
    pub var: usize,
    /// The iterated expression.
    pub over: usize,
}

/// One further clause of a comprehension.
pub enum CompClause {
    /// Another `for` clause.
    For(ForClause),
    /// An `if` filter.
    If(usize),
}

/// An expression node. Child expressions are indices into the expression
/// arena, strictly below the node's own index.
pub struct ExprNode {
    /// Where the expression stood.
    pub span: Span,
    /// Its shape.
    pub kind: ExprKind,
}

/// The shapes of expressions.
pub enum ExprKind {
    /// `(a, b, c)`.
    Tuple(Vec<usize>),
    /// `a.b`.
    Dot(usize, String),
    /// `f(args...)`.
    Call(usize, Vec<ArgNode>),
    /// `a[b]`.
    Index(usize, usize),
    /// `a[i, j]`.
    Index2(usize, usize, usize),
    /// `a[b:c:d]`, each bound optional.
    Slice(usize, Option<usize>, Option<usize>, Option<usize>),
    /// An identifier, already resolved.
    Identifier(IdentRef),
    /// A lambda; its body is not modelled.
    Lambda,
    /// A literal.
    Literal(Lit),
    /// `not a`.
    Not(usize),
    /// `-a`.
    Minus(usize),
    /// `+a`.
    Plus(usize),
    /// `~a`.
    BitNot(usize),
    /// `a OP b`.
    Op(usize, BinOp, usize),
    /// `t if c else f`.
    IfExpr(usize, usize, usize),
    /// `[a, b]`.
    List(Vec<usize>),
    /// `{k: v}`.
    Dict(Vec<(usize, usize)>),
    /// `[head for x in over ...]`.
    ListComprehension(usize, ForClause, Vec<CompClause>),
    /// `{k: v for x in over ...}`.
    DictComprehension(usize, usize, ForClause, Vec<CompClause>),
    /// A formatted string literal.
    FString,
}

/// An assignment target node. Child targets are indices into the target
/// arena, strictly below the node's own index; expressions refer into the
/// expression arena.
pub struct TargetNode {
    /// Where the target stood.
    pub span: Span,
    /// Its shape.
    pub kind: TargetKind,
}

/// The shapes of assignment targets.
pub enum TargetKind {
    /// A plain identifier.
    Identifier(IdentRef),
    /// Tuple destructuring.
    Tuple(Vec<usize>),
    /// `a[b] = ...`.
    Index(usize, usize),
    /// `a.b = ...`; not modelled, recorded as an approximation.
    Dot(usize, String),
}

/// One declared parameter of a `def`.
pub struct DefParam {
    /// The parameter's name; empty for the bare `*` marker.
    pub name: String,
    /// The binding slot of the parameter inside the body, where it has one.
    pub binding: Option<BindingId>,
    /// The declared type, already evaluated.
    pub ann: Option<Ty>,
    /// How the parameter may be passed.
    pub kind: DefParamKind,
}

/// The kinds of declared parameters.
pub enum DefParamKind {
    /// An ordinary parameter.
    Normal,
    /// An ordinary parameter with a default value.
    WithDefault(usize),
    /// The bare `*` marker: everything after it is named-only.
    NoArgs,
    /// `*args`.
    Args,
    /// `**kwargs`.
    Kwargs,
}

/// One name brought in by a `load`.
pub struct LoadArg {
    /// The binding slot the name lands in.
    pub binding: BindingId,
    /// The exported name looked up in the loaded module's interface.
    pub name: String,
}

/// A statement node. Child statements are indices into the statement arena,
/// strictly below the node's own index.
pub struct StmtNode {
    /// Where the statement stood.
    pub span: Span,
    /// Its shape.
    pub kind: StmtKind,
}

/// The shapes of statements.
pub enum StmtKind {
    /// `target = expr`, with an optional type annotation.
    Assign(usize, Option<Ty>, usize),
    /// `target OP= expr`.
    AssignModify(usize, AssignOp, usize),
    /// `for target in over: body`.
    For(usize, usize, Vec<usize>),
    /// `def name(params) -> ret: body`.
    Def(BindingId, Vec<DefParam>, Option<Ty>, Vec<usize>),
    /// `load(..., names)`, with the exporting module's interface.
    Load(Interface, Vec<LoadArg>),
    /// `return expr?`.
    Return(Option<usize>),
    /// A bare expression statement.
    Expression(usize),
    /// `if cond: body`.
    If(usize, Vec<usize>),
    /// `if cond: body else: orelse`.
    IfElse(usize, Vec<usize>, Vec<usize>),
    /// `pass`, `break`, `continue`: nothing to check.
    Pass,
}

/// Metadata about one binding slot.
pub struct BindingMeta {
    /// The source name of the binding.
    pub name: String,
    /// Whether the binding is a top-level (module scope) slot, exported
    /// through the interface.
    pub top_level: bool,
}

/// A whole module, as the upstream layers hand it over.
pub struct AstModule {
    /// The statement arena.
    pub stmts: Vec<StmtNode>,
    /// The expression arena.
    pub exprs: Vec<ExprNode>,
    /// The assignment-target arena.
    pub targets: Vec<TargetNode>,
    /// The top-level statements, in order.
    pub top: Vec<usize>,
    /// How many binding slots scope resolution assigned.
    pub n_bindings: usize,
    /// Per binding slot, its name and scope depth.
    pub names: Vec<BindingMeta>,
}

// ---------------------------------------------------------------------------
// Well-formedness: every index in bounds, children strictly earlier.
// ---------------------------------------------------------------------------

/// A valid expression reference seen from anywhere.
pub open spec fn expr_ref_ok(m: &AstModule, e: usize) -> bool {
    e < m.exprs@.len()
}

/// An optional valid expression reference.
pub open spec fn opt_expr_ref_ok(m: &AstModule, e: Option<usize>) -> bool {
    match e {
        Option::Some(i) => expr_ref_ok(m, i),
        Option::None => true,
    }
}

/// The expression at index `i` refers only to earlier expressions, valid
/// targets and valid binding slots.
pub open spec fn expr_wf(m: &AstModule, i: int) -> bool {
    0 <= i < m.exprs@.len() && {
        let k = m.exprs@[i].kind;
        match k {
            ExprKind::Tuple(xs) => forall|j: int| 0 <= j < xs@.len() ==> (#[trigger] xs@[j]) < i,
            ExprKind::Dot(a, _) => a < i,
            ExprKind::Call(f, args) => f < i && forall|j: int|
                0 <= j < args@.len() ==> arg_wf(#[trigger] args@[j], i),
            ExprKind::Index(a, b) => a < i && b < i,
            ExprKind::Index2(a, b, c) => a < i && b < i && c < i,
            ExprKind::Slice(a, b, c, d) => a < i && opt_lt(b, i) && opt_lt(c, i) && opt_lt(d, i),
            ExprKind::Identifier(r) => ident_wf(m, r),
            ExprKind::Lambda => true,
            ExprKind::Literal(_) => true,
            ExprKind::Not(a) => a < i,
            ExprKind::Minus(a) => a < i,
            ExprKind::Plus(a) => a < i,
            ExprKind::BitNot(a) => a < i,
            ExprKind::Op(a, _, b) => a < i && b < i,
            ExprKind::IfExpr(a, b, c) => a < i && b < i && c < i,
            ExprKind::List(xs) => forall|j: int| 0 <= j < xs@.len() ==> (#[trigger] xs@[j]) < i,
            ExprKind::Dict(kvs) => forall|j: int|
                0 <= j < kvs@.len() ==> (#[trigger] kvs@[j]).0 < i && kvs@[j].1 < i,
            ExprKind::ListComprehension(head, for1, clauses) => head < i && for_clause_wf(
                m,
                for1,
                i,
            ) && forall|j: int| 0 <= j < clauses@.len() ==> comp_clause_wf(m, #[trigger] clauses@[j], i),
            ExprKind::DictComprehension(kx, vx, for1, clauses) => kx < i && vx < i
                && for_clause_wf(m, for1, i) && forall|j: int|
                0 <= j < clauses@.len() ==> comp_clause_wf(m, #[trigger] clauses@[j], i),
            ExprKind::FString => true,
        }
    }
}

/// A child bound on an optional expression index.
pub open spec fn opt_lt(e: Option<usize>, i: int) -> bool {
    match e {
        Option::Some(a) => a < i,
        Option::None => true,
    }
}

/// A call argument's value stands earlier than the call.
pub open spec fn arg_wf(a: ArgNode, i: int) -> bool {
    match a.kind {
        ArgKind::Pos(e) => e < i,
        ArgKind::Named(_, e) => e < i,
        ArgKind::Args(e) => e < i,
        ArgKind::Kwargs(e) => e < i,
    }
}

/// A resolved identifier points at a real slot.
pub open spec fn ident_wf(m: &AstModule, r: IdentRef) -> bool {
    match r {
        IdentRef::Slot(b) => b < m.n_bindings,
        _ => true,
    }
}

/// A comprehension `for` clause refers to a valid target and a strictly
/// earlier source expression.
pub open spec fn for_clause_wf(m: &AstModule, c: ForClause, i: int) -> bool {
    c.var < m.targets@.len() && c.over < i
}

/// A further comprehension clause, likewise.
pub open spec fn comp_clause_wf(m: &AstModule, c: CompClause, i: int) -> bool {
    match c {
        CompClause::For(f) => for_clause_wf(m, f, i),
        CompClause::If(e) => e < i,
    }
}

/// The target at index `i` refers only to earlier targets, valid
/// expressions and valid binding slots.
pub open spec fn target_wf(m: &AstModule, i: int) -> bool {
    0 <= i < m.targets@.len() && {
        let k = m.targets@[i].kind;
        match k {
            TargetKind::Identifier(r) => ident_wf(m, r),
            TargetKind::Tuple(ts) => forall|j: int| 0 <= j < ts@.len() ==> (#[trigger] ts@[j]) < i,
            TargetKind::Index(a, b) => expr_ref_ok(m, a) && expr_ref_ok(m, b),
            TargetKind::Dot(a, _) => expr_ref_ok(m, a),
        }
    }
}

/// The statement at index `i` refers only to earlier statements, valid
/// expressions, targets, slots and well-formed annotation types.
pub open spec fn stmt_wf(m: &AstModule, i: int) -> bool {
    0 <= i < m.stmts@.len() && {
        let k = m.stmts@[i].kind;
        match k {
            StmtKind::Assign(t, ann, e) => t < m.targets@.len() && expr_ref_ok(m, e) && (match ann {
                Option::Some(ty) => wf_ty(ty_v(ty)),
                Option::None => true,
            }),
            StmtKind::AssignModify(t, _, e) => t < m.targets@.len() && expr_ref_ok(m, e),
            StmtKind::For(t, e, body) => t < m.targets@.len() && expr_ref_ok(m, e) && forall|
                j: int,
            | 0 <= j < body@.len() ==> (#[trigger] body@[j]) < i,
            StmtKind::Def(b, params, ret, body) => b < m.n_bindings && (forall|j: int|
                0 <= j < params@.len() ==> def_param_wf(m, #[trigger] params@[j])) && (match ret {
                Option::Some(ty) => wf_ty(ty_v(ty)),
                Option::None => true,
            }) && (forall|j: int| 0 <= j < body@.len() ==> (#[trigger] body@[j]) < i),
            StmtKind::Load(iface, args) => crate::bindings::interface_wf(&iface) && forall|j: int|
                0 <= j < args@.len() ==> (#[trigger] args@[j]).binding < m.n_bindings,
            StmtKind::Return(e) => opt_expr_ref_ok(m, e),
            StmtKind::Expression(e) => expr_ref_ok(m, e),
            StmtKind::If(c, body) => expr_ref_ok(m, c) && forall|j: int|
                0 <= j < body@.len() ==> (#[trigger] body@[j]) < i,
            StmtKind::IfElse(c, body, orelse) => expr_ref_ok(m, c) && (forall|j: int|
                0 <= j < body@.len() ==> (#[trigger] body@[j]) < i) && (forall|j: int|
                0 <= j < orelse@.len() ==> (#[trigger] orelse@[j]) < i),
            StmtKind::Pass => true,
        }
    }
}

/// A declared parameter's slot is real and its annotation well-formed.
pub open spec fn def_param_wf(m: &AstModule, p: DefParam) -> bool {
    (match p.binding {
        Option::Some(b) => b < m.n_bindings,
        Option::None => true,
    }) && (match p.ann {
        Option::Some(ty) => wf_ty(ty_v(ty)),
        Option::None => true,
    }) && (match p.kind {
        DefParamKind::WithDefault(e) => expr_ref_ok(m, e),
        _ => true,
    })
}

/// A well-formed module: every node well-formed, every top-level index a
/// real statement, and one name per binding slot.
pub open spec fn module_wf(m: &AstModule) -> bool {
    &&& (forall|i: int| 0 <= i < m.exprs@.len() ==> expr_wf(m, i))
    &&& (forall|i: int| 0 <= i < m.targets@.len() ==> target_wf(m, i))
    &&& (forall|i: int| 0 <= i < m.stmts@.len() ==> stmt_wf(m, i))
    &&& (forall|i: int| 0 <= i < m.top@.len() ==> (#[trigger] m.top@[i]) < m.stmts@.len())
    &&& m.names@.len() == m.n_bindings
}


/// The conditions [`stmt_wf`] gives, restated arm by arm so callers can use
/// them directly.
pub proof fn lemma_stmt_wf_cases(m: &AstModule, s: int)
    requires
        module_wf(m),
        0 <= s < m.stmts@.len(),
    ensures
        match m.stmts@[s].kind {
            StmtKind::Assign(t, ann, e) => t < m.targets@.len() && expr_ref_ok(m, e) && (match ann {
                Option::Some(ty) => wf_ty(ty_v(ty)),
                Option::None => true,
            }),
            StmtKind::AssignModify(t, _, e) => t < m.targets@.len() && expr_ref_ok(m, e),
            StmtKind::For(t, e, body) => t < m.targets@.len() && expr_ref_ok(m, e) && forall|
                j: int,
            | 0 <= j < body@.len() ==> (#[trigger] body@[j]) < s,
            StmtKind::Def(b, params, ret, body) => b < m.n_bindings && (forall|j: int|
                0 <= j < params@.len() ==> def_param_wf(m, #[trigger] params@[j])) && (match ret {
                Option::Some(ty) => wf_ty(ty_v(ty)),
                Option::None => true,
            }) && (forall|j: int| 0 <= j < body@.len() ==> (#[trigger] body@[j]) < s),
            StmtKind::Load(iface, args) => crate::bindings::interface_wf(&iface) && forall|j: int|
                0 <= j < args@.len() ==> (#[trigger] args@[j]).binding < m.n_bindings,
            StmtKind::Return(e) => opt_expr_ref_ok(m, e),
            StmtKind::Expression(e) => expr_ref_ok(m, e),
            StmtKind::If(c, body) => expr_ref_ok(m, c) && forall|j: int|
                0 <= j < body@.len() ==> (#[trigger] body@[j]) < s,
            StmtKind::IfElse(c, body, orelse) => expr_ref_ok(m, c) && (forall|j: int|
                0 <= j < body@.len() ==> (#[trigger] body@[j]) < s) && (forall|j: int|
                0 <= j < orelse@.len() ==> (#[trigger] orelse@[j]) < s),
            StmtKind::Pass => true,
        },
{
    assert(stmt_wf(m, s));
}

/// The conditions [`expr_wf`] gives, restated arm by arm.
pub proof fn lemma_expr_wf_cases(m: &AstModule, i: int)
    requires
        module_wf(m),
        0 <= i < m.exprs@.len(),
    ensures
        match m.exprs@[i].kind {
            ExprKind::Tuple(xs) => forall|j: int| 0 <= j < xs@.len() ==> (#[trigger] xs@[j]) < i,
            ExprKind::Dot(a, _) => a < i,
            ExprKind::Call(f, args) => f < i && forall|j: int|
                0 <= j < args@.len() ==> arg_wf(#[trigger] args@[j], i),
            ExprKind::Index(a, b) => a < i && b < i,
            ExprKind::Index2(a, b, c) => a < i && b < i && c < i,
            ExprKind::Slice(a, b, c, d) => a < i && opt_lt(b, i) && opt_lt(c, i) && opt_lt(d, i),
            ExprKind::Identifier(r) => ident_wf(m, r),
            ExprKind::Lambda => true,
            ExprKind::Literal(_) => true,
            ExprKind::Not(a) => a < i,
            ExprKind::Minus(a) => a < i,
            ExprKind::Plus(a) => a < i,
            ExprKind::BitNot(a) => a < i,
            ExprKind::Op(a, _, b) => a < i && b < i,
            ExprKind::IfExpr(a, b, c) => a < i && b < i && c < i,
            ExprKind::List(xs) => forall|j: int| 0 <= j < xs@.len() ==> (#[trigger] xs@[j]) < i,
            ExprKind::Dict(kvs) => forall|j: int|
                0 <= j < kvs@.len() ==> (#[trigger] kvs@[j]).0 < i && kvs@[j].1 < i,
            ExprKind::ListComprehension(head, for1, clauses) => head < i && for_clause_wf(
                m,
                for1,
                i,
            ) && forall|j: int| 0 <= j < clauses@.len() ==> comp_clause_wf(m, #[trigger] clauses@[j], i),
            ExprKind::DictComprehension(kx, vx, for1, clauses) => kx < i && vx < i
                && for_clause_wf(m, for1, i) && forall|j: int|
                0 <= j < clauses@.len() ==> comp_clause_wf(m, #[trigger] clauses@[j], i),
            ExprKind::FString => true,
        },
{
    assert(expr_wf(m, i));
}

/// The conditions [`target_wf`] gives, restated arm by arm.
pub proof fn lemma_target_wf_cases(m: &AstModule, i: int)
    requires
        module_wf(m),
        0 <= i < m.targets@.len(),
    ensures
        match m.targets@[i].kind {
            TargetKind::Identifier(r) => ident_wf(m, r),
            TargetKind::Tuple(ts) => forall|j: int| 0 <= j < ts@.len() ==> (#[trigger] ts@[j]) < i,
            TargetKind::Index(a, b) => expr_ref_ok(m, a) && expr_ref_ok(m, b),
            TargetKind::Dot(a, _) => expr_ref_ok(m, a),
        },
{
    assert(target_wf(m, i));
}

} // verus!
