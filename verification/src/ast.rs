//! The resolved syntax the checker walks.
//!
//! The parser and the scope resolver are outside collaborators: the checker
//! receives a tree in which every identifier already carries its resolution,
//! either a local binding slot or a global value reference.

use vstd::prelude::*;
use crate::ty::Ty;
use crate::ty::TyV;

verus! {

/// A source span, in byte offsets.
#[derive(Clone, Copy, Debug, PartialEq, Eq, Structural)]
pub struct Span {
    /// The start of the span.
    pub begin: u32,
    /// The end of the span.
    pub end: u32,
}

/// A resolved variable slot, as produced by the scope-resolution pass.
#[derive(Clone, Copy, Debug, PartialEq, Eq, Structural)]
pub struct BindingId(pub u32);

/// A binary operator.
#[derive(Clone, Copy, Debug, PartialEq, Eq, Structural)]
pub enum BinOp {
    And,
    Or,
    Equal,
    NotEqual,
    In,
    NotIn,
    Less,
    LessOrEqual,
    Greater,
    GreaterOrEqual,
    Subtract,
    Add,
    Multiply,
    Percent,
    Divide,
    FloorDivide,
    BitAnd,
    BitOr,
    BitXor,
    LeftShift,
    RightShift,
}

/// An augmented-assignment operator.
#[derive(Clone, Copy, Debug, PartialEq, Eq, Structural)]
pub enum AssignOp {
    Add,
    Subtract,
    Multiply,
    Divide,
    FloorDivide,
    Percent,
    BitAnd,
    BitOr,
    BitXor,
    LeftShift,
    RightShift,
}

/// The tag of a literal; the checker only reads which kind it is.
#[derive(Clone, Copy, Debug, PartialEq, Eq, Structural)]
pub enum Lit {
    Int,
    Float,
    Str,
}

/// What a resolved identifier refers to.
#[derive(Debug)]
pub enum ResolvedIdent {
    /// A local binding slot.
    Slot(BindingId),
    /// A global value; the value may publish the type the checker should
    /// use for it.
    Global(GlobalRef),
}

/// A reference to a global value.
#[derive(Debug)]
pub struct GlobalRef {
    /// The type the global value publishes for the checker, if it does.
    pub declared_ty: Option<Ty>,
}

/// An identifier with its resolution; `None` means scope resolution already
/// failed and reported elsewhere.
#[derive(Debug)]
pub struct Ident {
    pub name: String,
    pub resolved: Option<ResolvedIdent>,
}

/// An expression with its span.
#[derive(Debug)]
pub struct Expr {
    pub span: Span,
    pub node: ExprKind,
}

/// An expression.
#[derive(Debug)]
pub enum ExprKind {
    /// A tuple display.
    Tuple(Vec<Expr>),
    /// An attribute access `a.b`; the span is the attribute's own.
    Dot(Box<Expr>, String, Span),
    /// A call.
    Call(Box<Expr>, Vec<Argument>),
    /// An indexing `a[b]`.
    Index(Box<(Expr, Expr)>),
    /// A slice `a[start:stop:stride]`.
    Slice(Box<Expr>, Option<Box<Expr>>, Option<Box<Expr>>, Option<Box<Expr>>),
    /// An identifier.
    Identifier(Ident),
    /// A lambda; its body is never checked.
    Lambda,
    /// A literal.
    Literal(Lit),
    /// `not a`.
    Not(Box<Expr>),
    /// `-a`.
    Minus(Box<Expr>),
    /// `+a`.
    Plus(Box<Expr>),
    /// `~a`.
    BitNot(Box<Expr>),
    /// A binary operation.
    Op(Box<Expr>, BinOp, Box<Expr>),
    /// A conditional expression `t if c else f`, as `(c, t, f)`.
    IfExpr(Box<(Expr, Expr, Expr)>),
    /// A list display.
    ListExpr(Vec<Expr>),
    /// A dictionary display.
    DictExpr(Vec<(Expr, Expr)>),
    /// A list comprehension.
    ListComprehension(Box<Expr>, Box<ForClause>, Vec<Clause>),
    /// A dictionary comprehension.
    DictComprehension(Box<(Expr, Expr)>, Box<ForClause>, Vec<Clause>),
}

/// An argument of a call.
#[derive(Debug)]
pub enum Argument {
    Positional(Expr),
    Named(String, Expr),
    Args(Expr),
    KwArgs(Expr),
}

/// The `for` clause of a comprehension.
#[derive(Debug)]
pub struct ForClause {
    pub over: Expr,
}

/// A clause of a comprehension.
#[derive(Debug)]
pub enum Clause {
    For(Box<ForClause>),
    If(Box<Expr>),
}

/// An assignment target with its span.
#[derive(Debug)]
pub struct Assign {
    pub span: Span,
    pub node: AssignTarget,
}

/// An assignment target.
#[derive(Debug)]
pub enum AssignTarget {
    /// A tuple of targets.
    Tuple(Vec<Assign>),
    /// `a[b] = ...`.
    Index(Box<(Expr, Expr)>),
    /// `a.b = ...`.
    Dot(Box<Expr>, String),
    /// A plain identifier; `None` means scope resolution failed.
    Identifier(String, Option<BindingId>),
}

/// An expression describing what is assigned to a binding, derived from an
/// assignment statement by the (outside) binding collector.
#[derive(Debug)]
pub enum BindExpr {
    /// The binding takes the value of this expression.
    Expr(Box<Expr>),
    /// The binding takes element `i` of what the inner bind expression
    /// produces.
    GetIndex(usize, Box<BindExpr>),
    /// The binding iterates over what the inner bind expression produces.
    Iter(Box<BindExpr>),
    /// An augmented assignment to a target.
    AssignOp(Box<Assign>, AssignOp, Box<Expr>),
    /// `x[index] = e` for a binding `x`.
    SetIndex(BindingId, Box<Expr>, Box<BindExpr>),
    /// `x.append(e)` for a binding `x`.
    ListAppend(BindingId, Box<Expr>),
    /// `x.extend(e)` for a binding `x`.
    ListExtend(BindingId, Box<Expr>),
}

/// The model of a resolved identifier.
pub enum ResolvedIdentV {
    Slot(BindingId),
    Global(Option<TyV>),
}

/// The model of an identifier.
#[verifier::ext_equal]
pub struct IdentV {
    pub name: Seq<char>,
    pub resolved: Option<ResolvedIdentV>,
}

/// The model of an expression.
#[verifier::ext_equal]
pub struct ExprV {
    pub span: Span,
    pub node: ExprKindV,
}

/// The model of an expression node.
#[verifier::ext_equal]
pub enum ExprKindV {
    Tuple(Seq<ExprV>),
    Dot(Box<ExprV>, Seq<char>, Span),
    Call(Box<ExprV>, Seq<ArgumentV>),
    Index(Box<ExprV>, Box<ExprV>),
    Slice(Box<ExprV>, Option<Box<ExprV>>, Option<Box<ExprV>>, Option<Box<ExprV>>),
    Identifier(IdentV),
    Lambda,
    Literal(Lit),
    Not(Box<ExprV>),
    Minus(Box<ExprV>),
    Plus(Box<ExprV>),
    BitNot(Box<ExprV>),
    Op(Box<ExprV>, BinOp, Box<ExprV>),
    IfExpr(Box<ExprV>, Box<ExprV>, Box<ExprV>),
    ListExpr(Seq<ExprV>),
    DictExpr(Seq<(ExprV, ExprV)>),
    ListComprehension(Box<ExprV>, Box<ForClauseV>, Seq<ClauseV>),
    DictComprehension(Box<ExprV>, Box<ExprV>, Box<ForClauseV>, Seq<ClauseV>),
}

/// The model of a call argument.
#[verifier::ext_equal]
pub enum ArgumentV {
    Positional(ExprV),
    Named(Seq<char>, ExprV),
    Args(ExprV),
    KwArgs(ExprV),
}

/// The model of a `for` clause.
#[verifier::ext_equal]
pub struct ForClauseV {
    pub over: ExprV,
}

/// The model of a comprehension clause.
#[verifier::ext_equal]
pub enum ClauseV {
    For(Box<ForClauseV>),
    If(Box<ExprV>),
}

/// The model of an assignment target with its span.
#[verifier::ext_equal]
pub struct AssignV {
    pub span: Span,
    pub node: AssignTargetV,
}

/// The model of an assignment target.
#[verifier::ext_equal]
pub enum AssignTargetV {
    Tuple(Seq<AssignV>),
    Index(Box<ExprV>, Box<ExprV>),
    Dot(Box<ExprV>, Seq<char>),
    Identifier(Seq<char>, Option<BindingId>),
}

/// The model of a bind expression.
#[verifier::ext_equal]
pub enum BindExprV {
    Expr(Box<ExprV>),
    GetIndex(int, Box<BindExprV>),
    Iter(Box<BindExprV>),
    AssignOp(Box<AssignV>, AssignOp, Box<ExprV>),
    SetIndex(BindingId, Box<ExprV>, Box<BindExprV>),
    ListAppend(BindingId, Box<ExprV>),
    ListExtend(BindingId, Box<ExprV>),
}

/// The model of an identifier.
pub open(crate) spec fn ident_view(x: Ident) -> IdentV {
    IdentV {
        name: x.name@,
        resolved: match x.resolved {
            Option::None => Option::None,
            Option::Some(ResolvedIdent::Slot(b)) => Option::Some(ResolvedIdentV::Slot(b)),
            Option::Some(ResolvedIdent::Global(g)) => Option::Some(
                ResolvedIdentV::Global(
                    match g.declared_ty {
                        Option::Some(t) => Option::Some(crate::ty::ty_view(t)),
                        Option::None => Option::None,
                    },
                ),
            ),
        },
    }
}

/// The model of an expression.
pub open(crate) spec fn expr_view(x: Expr) -> ExprV
    decreases x,
{
    ExprV { span: x.span, node: expr_kind_view(x.node) }
}

/// The model of an expression node.
pub open(crate) spec fn expr_kind_view(x: ExprKind) -> ExprKindV
    decreases x,
{
    match x {
        ExprKind::Tuple(xs) => ExprKindV::Tuple(exprs_view(xs@)),
        ExprKind::Dot(a, n, sp) => ExprKindV::Dot(Box::new(expr_view(*a)), n@, sp),
        ExprKind::Call(f, args) => ExprKindV::Call(Box::new(expr_view(*f)), args_view(args@)),
        ExprKind::Index(ab) => ExprKindV::Index(
            Box::new(expr_view(ab.0)),
            Box::new(expr_view(ab.1)),
        ),
        ExprKind::Slice(a, x1, x2, x3) => ExprKindV::Slice(
            Box::new(expr_view(*a)),
            opt_expr_view(x1),
            opt_expr_view(x2),
            opt_expr_view(x3),
        ),
        ExprKind::Identifier(id) => ExprKindV::Identifier(ident_view(id)),
        ExprKind::Lambda => ExprKindV::Lambda,
        ExprKind::Literal(l) => ExprKindV::Literal(l),
        ExprKind::Not(a) => ExprKindV::Not(Box::new(expr_view(*a))),
        ExprKind::Minus(a) => ExprKindV::Minus(Box::new(expr_view(*a))),
        ExprKind::Plus(a) => ExprKindV::Plus(Box::new(expr_view(*a))),
        ExprKind::BitNot(a) => ExprKindV::BitNot(Box::new(expr_view(*a))),
        ExprKind::Op(a, op, b) => ExprKindV::Op(
            Box::new(expr_view(*a)),
            op,
            Box::new(expr_view(*b)),
        ),
        ExprKind::IfExpr(ctf) => ExprKindV::IfExpr(
            Box::new(expr_view(ctf.0)),
            Box::new(expr_view(ctf.1)),
            Box::new(expr_view(ctf.2)),
        ),
        ExprKind::ListExpr(xs) => ExprKindV::ListExpr(exprs_view(xs@)),
        ExprKind::DictExpr(kvs) => ExprKindV::DictExpr(expr_pairs_view(kvs@)),
        ExprKind::ListComprehension(a, f, cs) => ExprKindV::ListComprehension(
            Box::new(expr_view(*a)),
            Box::new(for_clause_view(*f)),
            clauses_view(cs@),
        ),
        ExprKind::DictComprehension(kv, f, cs) => ExprKindV::DictComprehension(
            Box::new(expr_view(kv.0)),
            Box::new(expr_view(kv.1)),
            Box::new(for_clause_view(*f)),
            clauses_view(cs@),
        ),
    }
}

/// The models of the elements of a sequence of expressions.
pub open(crate) spec fn exprs_view(xs: Seq<Expr>) -> Seq<ExprV>
    decreases xs,
{
    if xs.len() == 0 {
        Seq::empty()
    } else {
        exprs_view(xs.drop_last()).push(expr_view(xs.last()))
    }
}

/// The models of the elements of a sequence of expression pairs.
pub open(crate) spec fn expr_pairs_view(xs: Seq<(Expr, Expr)>) -> Seq<(ExprV, ExprV)>
    decreases xs,
{
    if xs.len() == 0 {
        Seq::empty()
    } else {
        expr_pairs_view(xs.drop_last()).push(
            (expr_view(xs.last().0), expr_view(xs.last().1)),
        )
    }
}

/// The model of an optional boxed expression.
pub open(crate) spec fn opt_expr_view(x: Option<Box<Expr>>) -> Option<Box<ExprV>>
    decreases x,
{
    match x {
        Option::None => Option::None,
        Option::Some(a) => Option::Some(Box::new(expr_view(*a))),
    }
}

/// The models of the elements of a sequence of arguments.
pub open(crate) spec fn args_view(xs: Seq<Argument>) -> Seq<ArgumentV>
    decreases xs,
{
    if xs.len() == 0 {
        Seq::empty()
    } else {
        args_view(xs.drop_last()).push(arg_view(xs.last()))
    }
}

/// The model of an argument.
pub open(crate) spec fn arg_view(x: Argument) -> ArgumentV
    decreases x,
{
    match x {
        Argument::Positional(e) => ArgumentV::Positional(expr_view(e)),
        Argument::Named(n, e) => ArgumentV::Named(n@, expr_view(e)),
        Argument::Args(e) => ArgumentV::Args(expr_view(e)),
        Argument::KwArgs(e) => ArgumentV::KwArgs(expr_view(e)),
    }
}

/// The model of a `for` clause.
pub open(crate) spec fn for_clause_view(x: ForClause) -> ForClauseV
    decreases x,
{
    ForClauseV { over: expr_view(x.over) }
}

/// The models of the elements of a sequence of clauses.
pub open(crate) spec fn clauses_view(xs: Seq<Clause>) -> Seq<ClauseV>
    decreases xs,
{
    if xs.len() == 0 {
        Seq::empty()
    } else {
        clauses_view(xs.drop_last()).push(clause_view(xs.last()))
    }
}

/// The model of a clause.
pub open(crate) spec fn clause_view(x: Clause) -> ClauseV
    decreases x,
{
    match x {
        Clause::For(f) => ClauseV::For(Box::new(for_clause_view(*f))),
        Clause::If(e) => ClauseV::If(Box::new(expr_view(*e))),
    }
}

/// The model of an assignment target with its span.
pub open(crate) spec fn assign_view(x: Assign) -> AssignV
    decreases x,
{
    AssignV { span: x.span, node: assign_target_view(x.node) }
}

/// The model of an assignment target.
pub open(crate) spec fn assign_target_view(x: AssignTarget) -> AssignTargetV
    decreases x,
{
    match x {
        AssignTarget::Tuple(xs) => AssignTargetV::Tuple(assigns_view(xs@)),
        AssignTarget::Index(ab) => AssignTargetV::Index(
            Box::new(expr_view(ab.0)),
            Box::new(expr_view(ab.1)),
        ),
        AssignTarget::Dot(a, n) => AssignTargetV::Dot(Box::new(expr_view(*a)), n@),
        AssignTarget::Identifier(n, b) => AssignTargetV::Identifier(n@, b),
    }
}

/// The models of the elements of a sequence of assignment targets.
pub open(crate) spec fn assigns_view(xs: Seq<Assign>) -> Seq<AssignV>
    decreases xs,
{
    if xs.len() == 0 {
        Seq::empty()
    } else {
        assigns_view(xs.drop_last()).push(assign_view(xs.last()))
    }
}

/// The model of a bind expression.
pub open(crate) spec fn bind_expr_view(x: BindExpr) -> BindExprV
    decreases x,
{
    match x {
        BindExpr::Expr(e) => BindExprV::Expr(Box::new(expr_view(*e))),
        BindExpr::GetIndex(i, b) => BindExprV::GetIndex(i as int, Box::new(bind_expr_view(*b))),
        BindExpr::Iter(b) => BindExprV::Iter(Box::new(bind_expr_view(*b))),
        BindExpr::AssignOp(a, op, e) => BindExprV::AssignOp(
            Box::new(assign_view(*a)),
            op,
            Box::new(expr_view(*e)),
        ),
        BindExpr::SetIndex(id, e, b) => BindExprV::SetIndex(
            id,
            Box::new(expr_view(*e)),
            Box::new(bind_expr_view(*b)),
        ),
        BindExpr::ListAppend(id, e) => BindExprV::ListAppend(id, Box::new(expr_view(*e))),
        BindExpr::ListExtend(id, e) => BindExprV::ListExtend(id, Box::new(expr_view(*e))),
    }
}

impl View for Expr {
    type V = ExprV;

    open(crate) spec fn view(&self) -> ExprV {
        expr_view(*self)
    }
}

impl View for Assign {
    type V = AssignV;

    open(crate) spec fn view(&self) -> AssignV {
        assign_view(*self)
    }
}

impl View for BindExpr {
    type V = BindExprV;

    open(crate) spec fn view(&self) -> BindExprV {
        bind_expr_view(*self)
    }
}

/// `exprs_view` maps the view over the elements.
pub broadcast proof fn lemma_exprs_view(xs: Seq<Expr>)
    ensures
        #[trigger] exprs_view(xs).len() == xs.len(),
        forall|i: int| 0 <= i < xs.len() ==> exprs_view(xs)[i] == expr_view(xs[i]),
    decreases xs.len(),
{
    if xs.len() > 0 {
        lemma_exprs_view(xs.drop_last());
    }
}

/// `args_view` maps the view over the elements.
pub broadcast proof fn lemma_args_view(xs: Seq<Argument>)
    ensures
        #[trigger] args_view(xs).len() == xs.len(),
        forall|i: int| 0 <= i < xs.len() ==> args_view(xs)[i] == arg_view(xs[i]),
    decreases xs.len(),
{
    if xs.len() > 0 {
        lemma_args_view(xs.drop_last());
    }
}

/// `expr_pairs_view` maps the view over the elements.
pub broadcast proof fn lemma_expr_pairs_view(xs: Seq<(Expr, Expr)>)
    ensures
        #[trigger] expr_pairs_view(xs).len() == xs.len(),
        forall|i: int|
            0 <= i < xs.len() ==> expr_pairs_view(xs)[i] == (
                expr_view(xs[i].0),
                expr_view(xs[i].1),
            ),
    decreases xs.len(),
{
    if xs.len() > 0 {
        lemma_expr_pairs_view(xs.drop_last());
    }
}

/// `clauses_view` maps the view over the elements.
pub broadcast proof fn lemma_clauses_view(xs: Seq<Clause>)
    ensures
        #[trigger] clauses_view(xs).len() == xs.len(),
        forall|i: int| 0 <= i < xs.len() ==> clauses_view(xs)[i] == clause_view(xs[i]),
    decreases xs.len(),
{
    if xs.len() > 0 {
        lemma_clauses_view(xs.drop_last());
    }
}


/// One unfolding of the view of a `for` clause.
pub broadcast proof fn lemma_for_clause_view(x: ForClause)
    ensures
        #[trigger] for_clause_view(x) == (ForClauseV { over: expr_view(x.over) }),
{
}

} // verus!
